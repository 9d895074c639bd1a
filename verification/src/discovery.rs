//! Device discovery: the identity announcement peers broadcast, the
//! relayed ("synthetic") form of it, and the registry that unifies both,
//! one entry per device, with staleness pruning.
use vstd::prelude::*;
use vstd::string::*;
use crate::order::{copy_strings, strs, string_eq};

verus! {

broadcast use {vstd::seq_lib::group_seq_properties, vstd::seq_lib::group_filter_ensures};

/// KDC's coarse device-type enumeration.
#[derive(Debug, Clone, Copy, PartialEq, Eq, Structural)]
pub enum DeviceType {
    /// Android handset.
    Phone,
    /// Tablet (Android / iOS).
    Tablet,
    /// Linux desktop.
    Desktop,
    /// Anything else.
    Unknown,
}

/// Identity announcement broadcast on UDP/1716 (or relayed through the
/// mesh).
#[derive(Debug, Clone, PartialEq, Eq)]
pub struct Announce {
    /// Stable per-device identifier.
    pub device_id: String,
    /// Display name.
    pub device_name: String,
    /// Coarse device type.
    pub device_type: DeviceType,
    /// Protocol version this peer speaks.
    pub protocol_version: u32,
    /// Plugin types this peer accepts.
    pub incoming_capabilities: Vec<String>,
    /// Plugin types this peer emits.
    pub outgoing_capabilities: Vec<String>,
}

/// An announcement as plain values.
pub struct AnnounceView {
    pub device_id: Seq<char>,
    pub device_name: Seq<char>,
    pub device_type: DeviceType,
    pub protocol_version: u32,
    pub incoming_capabilities: Seq<Seq<char>>,
    pub outgoing_capabilities: Seq<Seq<char>>,
}

impl View for Announce {
    type V = AnnounceView;

    open spec fn view(&self) -> AnnounceView {
        AnnounceView {
            device_id: self.device_id@,
            device_name: self.device_name@,
            device_type: self.device_type,
            protocol_version: self.protocol_version,
            incoming_capabilities: strs(self.incoming_capabilities@),
            outgoing_capabilities: strs(self.outgoing_capabilities@),
        }
    }
}

impl Announce {
    /// A copy of this announcement.
    pub fn duplicate(&self) -> (r: Announce)
        ensures
            r@ == self@,
    {
        Announce {
            device_id: self.device_id.clone(),
            device_name: self.device_name.clone(),
            device_type: self.device_type,
            protocol_version: self.protocol_version,
            incoming_capabilities: copy_strings(&self.incoming_capabilities),
            outgoing_capabilities: copy_strings(&self.outgoing_capabilities),
        }
    }
}

/// Staleness window (ms): records older than this are dropped.
pub const STALE_WINDOW_MS: i64 = 90_000;

/// `a.saturating_sub(b)` for `i64`.
pub open spec fn sat_sub(a: i64, b: i64) -> int {
    let d = a - b;
    if d > i64::MAX {
        i64::MAX as int
    } else if d < i64::MIN {
        i64::MIN as int
    } else {
        d
    }
}

/// A record received at `at` is still fresh at `now`.
pub open spec fn fresh_at(now: i64, at: i64) -> bool {
    sat_sub(now, at) <= STALE_WINDOW_MS
}

/// `a.saturating_sub(b)`.
pub fn saturating_sub_i64(a: i64, b: i64) -> (r: i64)
    ensures
        r == sat_sub(a, b),
{
    let d: i128 = (a as i128) - (b as i128);
    if d > (i64::MAX as i128) {
        i64::MAX
    } else if d < (i64::MIN as i128) {
        i64::MIN
    } else {
        d as i64
    }
}

/// Mesh-shunt: peer A relays "I see phone X" so peer B finds X without a
/// direct broadcast from X.
#[derive(Debug, Clone, PartialEq, Eq)]
pub struct SyntheticAnnounce {
    /// The relayed identity announcement.
    pub announce: Announce,
    /// Identity of the peer that's relaying.
    pub relayed_by: String,
    /// Timestamp of the relay (ms since Unix epoch).
    pub relayed_at_ms: i64,
}

impl SyntheticAnnounce {
    /// True when this synthetic announce is recent enough to act on:
    /// within `STALE_WINDOW_MS` of `now_ms`, the boundary included.
    pub fn is_fresh(&self, now_ms: i64) -> (r: bool)
        ensures
            r == fresh_at(now_ms, self.relayed_at_ms),
    {
        saturating_sub_i64(now_ms, self.relayed_at_ms) <= STALE_WINDOW_MS
    }
}

/// Internal entry shape.
#[derive(Debug, Clone, PartialEq, Eq)]
struct RegistryEntry {
    announce: Announce,
    relayer_id: String,
    received_at_ms: i64,
}

/// A registry entry as `(announce, relayer, received_at_ms)`.
pub type EntryView = (AnnounceView, Seq<char>, i64);

spec fn entry_view(e: RegistryEntry) -> EntryView {
    (e.announce@, e.relayer_id@, e.received_at_ms)
}

/// In-memory registry of real + relayed announces, one entry per device,
/// in the order they were (last) injected.
#[derive(Debug)]
pub struct DiscoveryRegistry {
    entries: Vec<RegistryEntry>,
}

/// Every device appears at most once.
pub open spec fn ids_unique(s: Seq<EntryView>) -> bool {
    forall|i: int, j: int|
        0 <= i < s.len() && 0 <= j < s.len() && i != j ==> (#[trigger] s[i]).0.device_id != (
        #[trigger] s[j]).0.device_id
}

/// The entries after injecting `e`: any entry for the same device is
/// replaced, and `e` goes last.
pub open spec fn upsert(s: Seq<EntryView>, e: EntryView) -> Seq<EntryView> {
    s.filter(|x: EntryView| x.0.device_id != e.0.device_id).push(e)
}

/// The entries still fresh at `now`, in order.
pub open spec fn fresh_entries(s: Seq<EntryView>, now: i64) -> Seq<EntryView> {
    s.filter(|x: EntryView| fresh_at(now, x.2))
}

/// The relayer recorded for `id`: the first entry for that device.
pub open spec fn relayer_of(s: Seq<EntryView>, id: Seq<char>) -> Option<Seq<char>>
    decreases s.len(),
{
    if s.len() == 0 {
        None
    } else if s[0].0.device_id == id {
        Some(s[0].1)
    } else {
        relayer_of(s.drop_first(), id)
    }
}

impl View for DiscoveryRegistry {
    type V = Seq<EntryView>;

    closed spec fn view(&self) -> Seq<EntryView> {
        self.entries@.map_values(|e: RegistryEntry| entry_view(e))
    }
}

impl DiscoveryRegistry {
    /// One entry per device.
    pub open spec fn wf(&self) -> bool {
        ids_unique(self@)
    }

    /// Empty registry.
    pub fn new() -> (r: Self)
        ensures
            r@ == Seq::<EntryView>::empty(),
            r.wf(),
    {
        let r = DiscoveryRegistry { entries: Vec::new() };
        assert(r@ =~= Seq::<EntryView>::empty());
        r
    }

    /// How many announce records the registry is holding (stale ones
    /// included until the next prune).
    pub fn len(&self) -> (n: usize)
        ensures
            n == self@.len(),
    {
        self.entries.len()
    }

    /// True when no announces are held.
    pub fn is_empty(&self) -> (b: bool)
        ensures
            b == (self@.len() == 0),
    {
        self.entries.len() == 0
    }

    /// Inject a real UDP/mDNS announce, relayed by `"self"`.
    pub fn inject_real(&mut self, announce: Announce, received_at_ms: i64)
        requires
            old(self).wf(),
        ensures
            final(self).wf(),
            final(self)@ == upsert(old(self)@, (announce@, "self"@, received_at_ms)),
    {
        self.upsert("self", announce, received_at_ms);
    }

    /// Inject a synthetic (mesh-relayed) announce; its relayer is the
    /// neighbor that relayed it.
    pub fn inject_synthetic(&mut self, synthetic: SyntheticAnnounce)
        requires
            old(self).wf(),
        ensures
            final(self).wf(),
            final(self)@ == upsert(
                old(self)@,
                (synthetic.announce@, synthetic.relayed_by@, synthetic.relayed_at_ms),
            ),
    {
        let relayer = synthetic.relayed_by;
        self.upsert(relayer.as_str(), synthetic.announce, synthetic.relayed_at_ms);
    }

    fn upsert(&mut self, relayer_id: &str, announce: Announce, received_at_ms: i64)
        requires
            old(self).wf(),
        ensures
            final(self).wf(),
            final(self)@ == upsert(old(self)@, (announce@, relayer_id@, received_at_ms)),
    {
        let ghost e: EntryView = (announce@, relayer_id@, received_at_ms);
        let ghost pred = |x: EntryView| x.0.device_id != e.0.device_id;
        let ghost s = self@;
        let mut kept: Vec<RegistryEntry> = Vec::new();
        let mut i: usize = 0;
        while i < self.entries.len()
            invariant
                i <= self.entries.len(),
                s == self@,
                e == (announce@, relayer_id@, received_at_ms),
                pred == (|x: EntryView| x.0.device_id != e.0.device_id),
                kept@.map_values(|x: RegistryEntry| entry_view(x)) == s.take(i as int).filter(
                    pred,
                ),
            decreases self.entries.len() - i,
        {
            let ghost before = kept@.map_values(|x: RegistryEntry| entry_view(x));
            proof {
                s.take(i as int).lemma_filter_push(s[i as int], pred);
                assert(s.take(i + 1) =~= s.take(i as int).push(s[i as int]));
            }
            if !string_eq(self.entries[i].announce.device_id.as_str(), announce.device_id.as_str()) {
                let entry = RegistryEntry {
                    announce: self.entries[i].announce.duplicate(),
                    relayer_id: self.entries[i].relayer_id.clone(),
                    received_at_ms: self.entries[i].received_at_ms,
                };
                kept.push(entry);
                assert(kept@.map_values(|x: RegistryEntry| entry_view(x)) =~= before.push(
                    s[i as int],
                ));
            }
            i += 1;
        }
        assert(s.take(s.len() as int) =~= s);
        let ghost filtered = s.filter(pred);
        kept.push(RegistryEntry { announce, relayer_id: String::from_str(relayer_id), received_at_ms });
        self.entries = kept;
        proof {
            assert(self@ =~= filtered.push(e));
            assert forall|a: int, b: int|
                0 <= a < self@.len() && 0 <= b < self@.len() && a != b implies (
                #[trigger] self@[a]).0.device_id != (#[trigger] self@[b]).0.device_id by {
                let n = filtered.len();
                if a < n && b < n {
                    lemma_filter_distinct(s, pred, a, b);
                } else if a == n {
                    assert(pred(filtered[b]));
                } else {
                    assert(pred(filtered[a]));
                }
            }
        }
    }

    /// Drop entries older than `STALE_WINDOW_MS`. Returns how many were
    /// dropped.
    pub fn prune_stale(&mut self, now_ms: i64) -> (dropped: usize)
        requires
            old(self).wf(),
        ensures
            final(self).wf(),
            final(self)@ == fresh_entries(old(self)@, now_ms),
            dropped == old(self)@.len() - final(self)@.len(),
    {
        let ghost pred = |x: EntryView| fresh_at(now_ms, x.2);
        let ghost s = self@;
        let before = self.entries.len();
        let mut kept: Vec<RegistryEntry> = Vec::new();
        let mut i: usize = 0;
        while i < self.entries.len()
            invariant
                i <= self.entries.len(),
                before == self.entries.len(),
                s == self@,
                pred == (|x: EntryView| fresh_at(now_ms, x.2)),
                kept@.map_values(|x: RegistryEntry| entry_view(x)) == s.take(i as int).filter(
                    pred,
                ),
                kept.len() <= i,
            decreases self.entries.len() - i,
        {
            let ghost prev = kept@.map_values(|x: RegistryEntry| entry_view(x));
            proof {
                s.take(i as int).lemma_filter_push(s[i as int], pred);
                assert(s.take(i + 1) =~= s.take(i as int).push(s[i as int]));
            }
            if saturating_sub_i64(now_ms, self.entries[i].received_at_ms) <= STALE_WINDOW_MS {
                let entry = RegistryEntry {
                    announce: self.entries[i].announce.duplicate(),
                    relayer_id: self.entries[i].relayer_id.clone(),
                    received_at_ms: self.entries[i].received_at_ms,
                };
                kept.push(entry);
                assert(kept@.map_values(|x: RegistryEntry| entry_view(x)) =~= prev.push(
                    s[i as int],
                ));
            }
            i += 1;
        }
        assert(s.take(s.len() as int) =~= s);
        self.entries = kept;
        proof {
            assert(self@ =~= s.filter(pred));
            lemma_filter_unique(s, pred);
        }
        before - self.entries.len()
    }

    /// Every fresh (non-stale) announce, in registry order. Does not
    /// change the registry.
    pub fn take_fresh(&self, now_ms: i64) -> (r: Vec<Announce>)
        ensures
            r@.map_values(|a: Announce| a@) == fresh_entries(self@, now_ms).map_values(
                |e: EntryView| e.0,
            ),
    {
        let ghost pred = |x: EntryView| fresh_at(now_ms, x.2);
        let ghost s = self@;
        let mut out: Vec<Announce> = Vec::new();
        let mut i: usize = 0;
        while i < self.entries.len()
            invariant
                i <= self.entries.len(),
                s == self@,
                pred == (|x: EntryView| fresh_at(now_ms, x.2)),
                out@.map_values(|a: Announce| a@) == s.take(i as int).filter(pred).map_values(
                    |e: EntryView| e.0,
                ),
            decreases self.entries.len() - i,
        {
            let ghost prev = out@.map_values(|a: Announce| a@);
            proof {
                s.take(i as int).lemma_filter_push(s[i as int], pred);
                assert(s.take(i + 1) =~= s.take(i as int).push(s[i as int]));
            }
            if saturating_sub_i64(now_ms, self.entries[i].received_at_ms) <= STALE_WINDOW_MS {
                out.push(self.entries[i].announce.duplicate());
                assert(out@.map_values(|a: Announce| a@) =~= prev.push(s[i as int].0));
                assert(s.take(i + 1).filter(pred).map_values(|e: EntryView| e.0) =~= s.take(
                    i as int,
                ).filter(pred).map_values(|e: EntryView| e.0).push(s[i as int].0));
            } else {
                assert(s.take(i + 1).filter(pred) == s.take(i as int).filter(pred));
            }
            i += 1;
        }
        assert(s.take(s.len() as int) =~= s);
        out
    }

    /// The relayer of a device: `"self"` for real broadcasts, the
    /// neighbor's id for relayed ones, `None` when the device is unknown.
    pub fn relayer_for(&self, device_id: &str) -> (r: Option<&str>)
        ensures
            r matches Some(x) ==> relayer_of(self@, device_id@) == Some(x@),
            r is None ==> relayer_of(self@, device_id@) is None,
    {
        let ghost s = self@;
        let mut i: usize = 0;
        while i < self.entries.len()
            invariant
                i <= self.entries.len(),
                s == self@,
                relayer_of(s, device_id@) == relayer_of(s.skip(i as int), device_id@),
            decreases self.entries.len() - i,
        {
            assert(s.skip(i as int).drop_first() =~= s.skip(i + 1));
            if string_eq(self.entries[i].announce.device_id.as_str(), device_id) {
                return Some(self.entries[i].relayer_id.as_str());
            }
            i += 1;
        }
        None
    }
}

impl Default for DiscoveryRegistry {
    fn default() -> (r: Self)
        ensures
            r@ == Seq::<EntryView>::empty(),
            r.wf(),
    {
        DiscoveryRegistry::new()
    }
}

/// Filtering keeps elements in order: two distinct positions of the
/// result come from two distinct positions of the source.
proof fn lemma_filter_distinct(
    s: Seq<EntryView>,
    pred: spec_fn(EntryView) -> bool,
    a: int,
    b: int,
)
    requires
        ids_unique(s),
        0 <= a < s.filter(pred).len(),
        0 <= b < s.filter(pred).len(),
        a != b,
    ensures
        s.filter(pred)[a].0.device_id != s.filter(pred)[b].0.device_id,
    decreases s.len(),
{
    reveal(Seq::filter);
    let t = s.drop_last();
    assert forall|i: int, j: int|
        0 <= i < t.len() && 0 <= j < t.len() && i != j implies (#[trigger] t[i]).0.device_id != (
        #[trigger] t[j]).0.device_id by {
        assert(t[i] == s[i] && t[j] == s[j]);
    }
    let ft = t.filter(pred);
    if pred(s.last()) {
        let n = ft.len();
        if a < n && b < n {
            lemma_filter_distinct(t, pred, a, b);
        } else {
            let k = if a < n { a } else { b };
            assert(ft.contains(ft[k]));
            t.lemma_filter_contains_rev(pred, ft[k]);
            assert(t.contains(ft[k]));
            let i = choose|i: int| 0 <= i < t.len() && t[i] == ft[k];
            assert(s[i] == t[i]);
            assert(i != s.len() - 1);
        }
    } else {
        lemma_filter_distinct(t, pred, a, b);
    }
}

/// A filtered registry still holds each device at most once.
proof fn lemma_filter_unique(s: Seq<EntryView>, pred: spec_fn(EntryView) -> bool)
    requires
        ids_unique(s),
    ensures
        ids_unique(s.filter(pred)),
{
    assert forall|a: int, b: int|
        0 <= a < s.filter(pred).len() && 0 <= b < s.filter(pred).len() && a != b implies (
        #[trigger] s.filter(pred)[a]).0.device_id != (#[trigger] s.filter(pred)[b]).0.device_id by {
        lemma_filter_distinct(s, pred, a, b);
    }
}

// ───────────────────────── laws ─────────────────────────

/// After an injection, the device is recorded with the injecting relayer.
pub proof fn law_inject_records_relayer(s: Seq<EntryView>, e: EntryView)
    requires
        ids_unique(s),
    ensures
        relayer_of(upsert(s, e), e.0.device_id) == Some(e.1),
        ids_unique(upsert(s, e)),
{
    let pred = |x: EntryView| x.0.device_id != e.0.device_id;
    let f = s.filter(pred);
    lemma_relayer_absent(f, e.0.device_id, pred);
    lemma_relayer_push(f, e);
    lemma_filter_unique(s, pred);
    let u = upsert(s, e);
    assert forall|a: int, b: int|
        0 <= a < u.len() && 0 <= b < u.len() && a != b implies (#[trigger] u[a]).0.device_id != (
        #[trigger] u[b]).0.device_id by {
        if a < f.len() && b < f.len() {
        } else if a == f.len() {
            assert(pred(f[b]));
        } else {
            assert(pred(f[a]));
        }
    }
}

proof fn lemma_relayer_absent(f: Seq<EntryView>, id: Seq<char>, pred: spec_fn(EntryView) -> bool)
    requires
        forall|x: EntryView| #[trigger] pred(x) ==> x.0.device_id != id,
        forall|i: int| 0 <= i < f.len() ==> pred(#[trigger] f[i]),
    ensures
        relayer_of(f, id) is None,
    decreases f.len(),
{
    if f.len() > 0 {
        assert(pred(f[0]));
        assert forall|i: int| 0 <= i < f.drop_first().len() implies pred(
            #[trigger] f.drop_first()[i],
        ) by {
            assert(f.drop_first()[i] == f[i + 1]);
        }
        lemma_relayer_absent(f.drop_first(), id, pred);
    }
}

proof fn lemma_relayer_push(f: Seq<EntryView>, e: EntryView)
    requires
        relayer_of(f, e.0.device_id) is None,
    ensures
        relayer_of(f.push(e), e.0.device_id) == Some(e.1),
    decreases f.len(),
{
    if f.len() > 0 {
        assert(f.push(e).drop_first() =~= f.drop_first().push(e));
        lemma_relayer_push(f.drop_first(), e);
    }
}

/// Injecting a device already held replaces its entry: the registry
/// does not grow; a new device grows it by one.
pub proof fn law_inject_keeps_one_entry_per_device(s: Seq<EntryView>, e: EntryView)
    requires
        ids_unique(s),
    ensures
        (exists|i: int| 0 <= i < s.len() && (#[trigger] s[i]).0.device_id == e.0.device_id)
            ==> upsert(s, e).len() == s.len(),
        !(exists|i: int| 0 <= i < s.len() && (#[trigger] s[i]).0.device_id == e.0.device_id)
            ==> upsert(s, e).len() == s.len() + 1,
{
    let pred = |x: EntryView| x.0.device_id != e.0.device_id;
    lemma_filter_count(s, pred, e.0.device_id);
}

proof fn lemma_filter_count(s: Seq<EntryView>, pred: spec_fn(EntryView) -> bool, id: Seq<char>)
    requires
        ids_unique(s),
        forall|x: EntryView| #[trigger] pred(x) == (x.0.device_id != id),
    ensures
        (exists|i: int| 0 <= i < s.len() && (#[trigger] s[i]).0.device_id == id) ==> s.filter(
            pred,
        ).len() + 1 == s.len(),
        !(exists|i: int| 0 <= i < s.len() && (#[trigger] s[i]).0.device_id == id) ==> s.filter(
            pred,
        ).len() == s.len(),
    decreases s.len(),
{
    reveal(Seq::filter);
    if s.len() > 0 {
        let t = s.drop_last();
        assert forall|i: int, j: int|
            0 <= i < t.len() && 0 <= j < t.len() && i != j implies (#[trigger] t[i]).0.device_id
            != (#[trigger] t[j]).0.device_id by {
            assert(t[i] == s[i] && t[j] == s[j]);
        }
        lemma_filter_count(t, pred, id);
        if exists|i: int| 0 <= i < s.len() && (#[trigger] s[i]).0.device_id == id {
            let i = choose|i: int| 0 <= i < s.len() && (#[trigger] s[i]).0.device_id == id;
            if i == s.len() - 1 {
                assert forall|j: int| 0 <= j < t.len() implies (#[trigger] t[j]).0.device_id
                    != id by {
                    assert(t[j] == s[j]);
                }
            } else {
                assert(t[i] == s[i]);
                assert(s.last().0.device_id != id);
            }
        } else {
            assert forall|j: int| 0 <= j < t.len() implies (#[trigger] t[j]).0.device_id != id by {
                assert(t[j] == s[j]);
            }
            assert(s[s.len() - 1].0.device_id != id);
        }
    }
}

/// Pruning does not change which announces are fresh at the same
/// moment, and a second prune at that moment drops nothing.
pub proof fn law_prune_then_fresh(s: Seq<EntryView>, now: i64)
    ensures
        fresh_entries(fresh_entries(s, now), now) == fresh_entries(s, now),
{
    let pred = |x: EntryView| fresh_at(now, x.2);
    lemma_filter_idempotent(s, pred);
}

proof fn lemma_filter_idempotent(s: Seq<EntryView>, pred: spec_fn(EntryView) -> bool)
    ensures
        s.filter(pred).filter(pred) == s.filter(pred),
    decreases s.len(),
{
    reveal(Seq::filter);
    if s.len() > 0 {
        lemma_filter_idempotent(s.drop_last(), pred);
        if pred(s.last()) {
            s.drop_last().filter(pred).lemma_filter_push(s.last(), pred);
        }
    }
}

/// A relayed announce is fresh exactly when the registry would keep it
/// as fresh at the same moment.
pub proof fn law_fresh_matches_registry(s: SyntheticAnnounce, now: i64)
    ensures
        fresh_at(now, s.relayed_at_ms) <==> fresh_entries(
            seq![(s.announce@, s.relayed_by@, s.relayed_at_ms)],
            now,
        ).len() == 1,
{
    let e = (s.announce@, s.relayed_by@, s.relayed_at_ms);
    let pred = |x: EntryView| fresh_at(now, x.2);
    Seq::<EntryView>::empty().lemma_filter_push(e, pred);
    assert(seq![e] =~= Seq::<EntryView>::empty().push(e));
    reveal(Seq::filter);
    assert(Seq::<EntryView>::empty().filter(pred) =~= Seq::<EntryView>::empty());
}

/// The device ids a registry holds, in its order.
pub open spec fn device_ids(s: Seq<EntryView>) -> Seq<Seq<char>> {
    s.map_values(|e: EntryView| e.0.device_id)
}

/// A registry holds exactly one entry per device it knows: its length is
/// the number of distinct device ids. Every registry reached from `new`
/// by injections and prunes keeps `ids_unique`, so this holds after any
/// series of them.
pub proof fn law_one_entry_per_device(s: Seq<EntryView>)
    requires
        ids_unique(s),
    ensures
        s.len() == device_ids(s).to_set().len(),
{
    let d = device_ids(s);
    assert forall|i: int, j: int| 0 <= i < d.len() && 0 <= j < d.len() && i != j implies d[i]
        != d[j] by {
        assert(d[i] == s[i].0.device_id && d[j] == s[j].0.device_id);
    }
    d.unique_seq_to_set();
}

/// An announce just injected is among the fresh announces at `now`
/// exactly when it is fresh at `now`; and the fresh announces hold each
/// device at most once.
pub proof fn law_injected_announce_fresh(s: Seq<EntryView>, e: EntryView, now: i64)
    requires
        ids_unique(s),
    ensures
        fresh_entries(upsert(s, e), now).map_values(|x: EntryView| x.0).contains(e.0) <==> fresh_at(
            now,
            e.2,
        ),
        ids_unique(fresh_entries(upsert(s, e), now)),
{
    let pid = |x: EntryView| x.0.device_id != e.0.device_id;
    let pf = |x: EntryView| fresh_at(now, x.2);
    let f = s.filter(pid);
    let g = f.filter(pf);
    law_inject_records_relayer(s, e);
    lemma_filter_unique(upsert(s, e), pf);
    f.lemma_filter_push(e, pf);
    let out = fresh_entries(upsert(s, e), now);
    let m = out.map_values(|x: EntryView| x.0);
    if fresh_at(now, e.2) {
        assert(out == g.push(e));
        assert(m[m.len() - 1] == e.0);
    } else {
        assert(out == g);
        if m.contains(e.0) {
            let k = choose|k: int| 0 <= k < m.len() && m[k] == e.0;
            assert(g[k].0 == e.0);
            assert(g.contains(g[k]));
            f.lemma_filter_contains_rev(pf, g[k]);
            let i = choose|i: int| 0 <= i < f.len() && f[i] == g[k];
            #[allow(deprecated)]
            s.filter_lemma(pid);
            assert(pid(f[i]));
        }
    }
}

} // verus!
