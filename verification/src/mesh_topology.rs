//! The workbench's mesh-topology panel: peer rows decoded from the node
//! list the daemon prints as JSON, sorted by name, and the panel state the
//! refresh cycle moves through.
use vstd::prelude::*;
use vstd::string::*;
use crate::order::{str_lt, string_eq, string_lt, lemma_lt_laws};
use crate::text::{chars_of, string_of, fmt_u64, concat, dec};

verus! {

// ───────────────────────── status ─────────────────────────

/// A peer's health, as the panel shows it.
#[derive(Debug, Clone, Copy, PartialEq, Eq, Structural)]
pub enum PeerStatus {
    Online,
    Idle,
    Offline,
    Unknown,
}

/// `char::to_ascii_lowercase`.
pub open spec fn ascii_lower(c: char) -> char {
    if 'A' <= c && c <= 'Z' {
        ((c as u32) + 32) as char
    } else {
        c
    }
}

/// `str::to_ascii_lowercase`.
pub open spec fn lower(s: Seq<char>) -> Seq<char> {
    s.map_values(|c: char| ascii_lower(c))
}

/// The status a health word names, whatever its ASCII case.
pub open spec fn status_of(s: Seq<char>) -> PeerStatus {
    let l = lower(s);
    if l == "online"@ || l == "healthy"@ {
        PeerStatus::Online
    } else if l == "idle"@ || l == "degraded"@ {
        PeerStatus::Idle
    } else if l == "offline"@ || l == "unreachable"@ {
        PeerStatus::Offline
    } else {
        PeerStatus::Unknown
    }
}

fn lower_chars(s: &str) -> (r: String)
    ensures
        r@ == lower(s@),
{
    let v = chars_of(s);
    let mut out: Vec<char> = Vec::new();
    let mut i: usize = 0;
    while i < v.len()
        invariant
            i <= v.len(),
            v@ == s@,
            out@ == lower(v@).take(i as int),
        decreases v.len() - i,
    {
        let c = v[i];
        let l = if 'A' <= c && c <= 'Z' {
            ((c as u8) + 32) as char
        } else {
            c
        };
        out.push(l);
        assert(out@ =~= lower(v@).take(i + 1));
        i += 1;
    }
    assert(out@ =~= lower(v@));
    string_of(out.as_slice())
}

impl PeerStatus {
    /// The status a health word names (`online`/`healthy`,
    /// `idle`/`degraded`, `offline`/`unreachable`, ASCII case ignored);
    /// anything else is `Unknown`.
    pub fn from_str(s: &str) -> (r: Self)
        ensures
            r == status_of(s@),
    {
        let l = lower_chars(s);
        let l = l.as_str();
        if string_eq(l, "online") || string_eq(l, "healthy") {
            PeerStatus::Online
        } else if string_eq(l, "idle") || string_eq(l, "degraded") {
            PeerStatus::Idle
        } else if string_eq(l, "offline") || string_eq(l, "unreachable") {
            PeerStatus::Offline
        } else {
            PeerStatus::Unknown
        }
    }

    /// The badge text of the status.
    pub fn label(self) -> (r: &'static str)
        ensures
            r@ == match self {
                PeerStatus::Online => "ONLINE"@,
                PeerStatus::Idle => "IDLE"@,
                PeerStatus::Offline => "OFFLINE"@,
                PeerStatus::Unknown => "UNKNOWN"@,
            },
    {
        match self {
            PeerStatus::Online => "ONLINE",
            PeerStatus::Idle => "IDLE",
            PeerStatus::Offline => "OFFLINE",
            PeerStatus::Unknown => "UNKNOWN",
        }
    }
}

// ───────────────────────── rows ─────────────────────────

/// One peer row of the panel.
#[derive(Debug, Clone, PartialEq, Eq)]
pub struct PeerRow {
    pub name: String,
    pub addr: String,
    pub kind: String,
    pub status: PeerStatus,
}

/// What a row shows: name, address (region), kind (role), status.
pub type RowView = (Seq<char>, Seq<char>, Seq<char>, PeerStatus);

pub open spec fn row_view(r: PeerRow) -> RowView {
    (r.name@, r.addr@, r.kind@, r.status)
}

pub open spec fn rows_view(rs: Seq<PeerRow>) -> Seq<RowView> {
    rs.map_values(|r: PeerRow| row_view(r))
}

/// The string fields, by key, of each object of the JSON array `raw`, as
/// `serde_json` reads them: `None` for the whole when `raw` is not a JSON
/// array, and `None` for a field that is missing or not a string.
pub uninterp spec fn json_array_fields(raw: Seq<char>, keys: Seq<Seq<char>>) -> Option<
    Seq<Seq<Option<Seq<char>>>>,
>;

/// The views of optional strings.
pub open spec fn opt_strs(v: Seq<Option<String>>) -> Seq<Option<Seq<char>>> {
    v.map_values(|o: Option<String>| crate::text::opt_str(o))
}

/// The views of rows of optional strings.
pub open spec fn field_rows(v: Seq<Vec<Option<String>>>) -> Seq<Seq<Option<Seq<char>>>> {
    v.map_values(|r: Vec<Option<String>>| opt_strs(r@))
}

/// `serde_json::from_str::<Vec<serde_json::Value>>` on `raw`, then, for
/// each entry and each key, `Value::get` and `Value::as_str`. Each entry
/// yields one field per key, as the source's two nested `map`s show.
#[verifier::external_body]
fn array_fields(raw: &str, keys: &[&str]) -> (r: Option<Vec<Vec<Option<String>>>>)
    ensures
        match r {
            Some(rows) => json_array_fields(raw@, keys@.map_values(|k: &str| k@)) == Some(
                field_rows(rows@),
            ) && forall|i: int| 0 <= i < rows@.len() ==> (#[trigger] rows@[i])@.len() == keys@.len(),
            None => json_array_fields(raw@, keys@.map_values(|k: &str| k@)) is None,
        },
{
    let top: Vec<serde_json::Value> = match serde_json::from_str(raw) {
        Ok(t) => t,
        Err(_) => return None,
    };
    Some(top.iter().map(|e| keys.iter().map(|k| match e.get(*k) {
        Some(v) => v.as_str().map(|s| s.to_string()),
        None => None,
    }).collect()).collect())
}

/// Field `k` of an entry, or `None` past its end.
pub open spec fn field(e: Seq<Option<Seq<char>>>, k: int) -> Option<Seq<char>> {
    if 0 <= k < e.len() {
        e[k]
    } else {
        None
    }
}

/// The characters of `o`, or `d`.
pub open spec fn or_default(o: Option<Seq<char>>, d: Seq<char>) -> Seq<char> {
    match o {
        Some(s) => s,
        None => d,
    }
}

/// An entry (fields `node_id`, `name`, `region`, `role`, `health`, in that
/// order) is listed when its `node_id` is a non-empty string.
pub open spec fn entry_kept(e: Seq<Option<Seq<char>>>) -> bool {
    or_default(field(e, 0), Seq::empty()).len() > 0
}

/// The row of an entry: the name defaults to the node id, the region to
/// `—`, the role to `peer`, the health to `unknown`.
pub open spec fn entry_row(e: Seq<Option<Seq<char>>>) -> RowView {
    let node_id = or_default(field(e, 0), Seq::empty());
    (
        or_default(field(e, 1), node_id),
        or_default(field(e, 2), "—"@),
        or_default(field(e, 3), "peer"@),
        status_of(or_default(field(e, 4), "unknown"@)),
    )
}

/// The rows of the kept entries, in entry order.
pub open spec fn kept_rows(es: Seq<Seq<Option<Seq<char>>>>) -> Seq<RowView>
    decreases es.len(),
{
    if es.len() == 0 {
        Seq::empty()
    } else {
        kept_rows(es.drop_last()) + if entry_kept(es.last()) {
            seq![entry_row(es.last())]
        } else {
            Seq::empty()
        }
    }
}

/// `s` with `x` placed before the first row whose name is greater than
/// `x`'s (after every row with the same name).
pub open spec fn insert_by_name(s: Seq<RowView>, x: RowView) -> Seq<RowView>
    decreases s.len(),
{
    if s.len() == 0 {
        seq![x]
    } else if str_lt(x.0, s[0].0) {
        seq![x] + s
    } else {
        seq![s[0]] + insert_by_name(s.drop_first(), x)
    }
}

/// The stable sort of `s` by name (`sort_by` on the names).
pub open spec fn sort_by_name(s: Seq<RowView>) -> Seq<RowView>
    decreases s.len(),
{
    if s.len() == 0 {
        Seq::empty()
    } else {
        insert_by_name(sort_by_name(s.drop_last()), s.last())
    }
}

/// Names never decrease along `s`.
pub open spec fn names_sorted(s: Seq<RowView>) -> bool {
    forall|i: int, j: int| 0 <= i < j < s.len() ==> !str_lt(#[trigger] s[j].0, #[trigger] s[i].0)
}

/// `insert_by_name` puts `x` at the first place whose name is greater.
proof fn lemma_insert_at(s: Seq<RowView>, x: RowView, k: int)
    requires
        0 <= k <= s.len(),
        forall|j: int| 0 <= j < k ==> !str_lt(x.0, #[trigger] s[j].0),
        k < s.len() ==> str_lt(x.0, s[k].0),
    ensures
        insert_by_name(s, x) == s.insert(k, x),
    decreases s.len(),
{
    if s.len() == 0 {
        assert(s.insert(k, x) =~= seq![x]);
    } else if k == 0 {
        assert(s.insert(0, x) =~= seq![x] + s);
    } else {
        assert(!str_lt(x.0, s[0].0));
        lemma_insert_at(s.drop_first(), x, k - 1);
        assert(seq![s[0]] + s.drop_first().insert(k - 1, x) =~= s.insert(k, x));
    }
}

/// Inserting into a name-sorted sequence keeps it sorted.
proof fn lemma_insert_sorted(s: Seq<RowView>, x: RowView)
    requires
        names_sorted(s),
    ensures
        names_sorted(insert_by_name(s, x)),
        insert_by_name(s, x).len() == s.len() + 1,
    decreases s.len(),
{
    lemma_lt_laws();
    if s.len() == 0 {
    } else if str_lt(x.0, s[0].0) {
        let r = seq![x] + s;
        assert forall|i: int, j: int| 0 <= i < j < r.len() implies !str_lt(#[trigger] r[j].0, #[trigger] r[i].0) by {
            if i == 0 {
                if j > 1 {
                    assert(!str_lt(s[j - 1].0, s[0].0));
                }
            } else {
                assert(r[i] == s[i - 1] && r[j] == s[j - 1]);
            }
        }
    } else {
        let t = s.drop_first();
        assert(names_sorted(t)) by {
            assert forall|i: int, j: int| 0 <= i < j < t.len() implies !str_lt(#[trigger] t[j].0, #[trigger] t[i].0) by {
                assert(t[i] == s[i + 1] && t[j] == s[j + 1]);
            }
        }
        lemma_insert_sorted(t, x);
        let it = insert_by_name(t, x);
        lemma_insert_members(t, x);
        let r = seq![s[0]] + it;
        assert forall|i: int, j: int| 0 <= i < j < r.len() implies !str_lt(#[trigger] r[j].0, #[trigger] r[i].0) by {
            if i == 0 {
                assert(r[j] == it[j - 1]);
                if it[j - 1] == x {
                } else {
                    let q = choose|q: int| 0 <= q < t.len() && t[q] == it[j - 1];
                    assert(!str_lt(s[q + 1].0, s[0].0));
                }
            } else {
                assert(r[i] == it[i - 1] && r[j] == it[j - 1]);
            }
        }
    }
}

/// Every row of `insert_by_name(s, x)` is `x` or a row of `s`.
proof fn lemma_insert_members(s: Seq<RowView>, x: RowView)
    ensures
        forall|i: int| 0 <= i < insert_by_name(s, x).len() ==> (#[trigger] insert_by_name(s, x)[i]
            == x || exists|q: int| 0 <= q < s.len() && s[q] == insert_by_name(s, x)[i]),
    decreases s.len(),
{
    if s.len() > 0 && !str_lt(x.0, s[0].0) {
        let t = s.drop_first();
        lemma_insert_members(t, x);
        let r = insert_by_name(s, x);
        assert forall|i: int| 0 <= i < r.len() implies (#[trigger] r[i] == x || exists|q: int|
            0 <= q < s.len() && s[q] == r[i]) by {
            if i == 0 {
                assert(s[0] == r[0]);
            } else {
                let it = insert_by_name(t, x);
                assert(r[i] == it[i - 1]);
                if it[i - 1] != x {
                    let q = choose|q: int| 0 <= q < t.len() && t[q] == it[i - 1];
                    assert(s[q + 1] == r[i]);
                }
            }
        }
    } else if s.len() > 0 {
        let r = insert_by_name(s, x);
        assert forall|i: int| 0 <= i < r.len() implies (#[trigger] r[i] == x || exists|q: int|
            0 <= q < s.len() && s[q] == r[i]) by {
            if i > 0 {
                assert(s[i - 1] == r[i]);
            }
        }
    }
}

/// The sort by name is sorted by name.
proof fn lemma_sort_sorted(s: Seq<RowView>)
    ensures
        names_sorted(sort_by_name(s)),
        sort_by_name(s).len() == s.len(),
    decreases s.len(),
{
    if s.len() > 0 {
        lemma_sort_sorted(s.drop_last());
        lemma_insert_sorted(sort_by_name(s.drop_last()), s.last());
    }
}

/// The rows of a decoded node list: the kept entries, sorted by name.
pub open spec fn peer_rows_spec(es: Seq<Seq<Option<Seq<char>>>>) -> Seq<RowView> {
    sort_by_name(kept_rows(es))
}

fn field_or(e: &Vec<Option<String>>, k: usize, d: &str) -> (r: String)
    ensures
        r@ == or_default(field(opt_strs(e@), k as int), d@),
{
    if k < e.len() {
        match &e[k] {
            Some(s) => s.clone(),
            None => String::from_str(d),
        }
    } else {
        String::from_str(d)
    }
}

/// The row of one decoded entry.
fn entry_to_row(e: &Vec<Option<String>>) -> (r: PeerRow)
    ensures
        row_view(r) == entry_row(opt_strs(e@)),
{
    let node_id = field_or(e, 0, "");
    proof {
        reveal_strlit("");
    }
    let name = field_or(e, 1, node_id.as_str());
    let addr = field_or(e, 2, "—");
    let kind = field_or(e, 3, "peer");
    let health = field_or(e, 4, "unknown");
    PeerRow { name, addr, kind, status: PeerStatus::from_str(health.as_str()) }
}

/// The place `x` takes among `out`: before the first row named greater.
fn insert_place(out: &Vec<PeerRow>, x: &PeerRow) -> (k: usize)
    ensures
        k <= out@.len(),
        forall|j: int| 0 <= j < k ==> !str_lt(x.name@, #[trigger] out@[j].name@),
        k < out@.len() ==> str_lt(x.name@, out@[k as int].name@),
{
    let mut k: usize = 0;
    while k < out.len()
        invariant
            k <= out@.len(),
            forall|j: int| 0 <= j < k ==> !str_lt(x.name@, #[trigger] out@[j].name@),
        decreases out.len() - k,
    {
        if string_lt(x.name.as_str(), out[k].name.as_str()) {
            return k;
        }
        k += 1;
    }
    k
}

/// The rows of decoded node-list entries — each entry holding the
/// `node_id`, `name`, `region`, `role` and `health` fields in that order —
/// keeping only entries with a non-empty `node_id`, sorted by name (rows
/// of equal names keep their order).
pub fn peer_rows(entries: &Vec<Vec<Option<String>>>) -> (r: Vec<PeerRow>)
    ensures
        rows_view(r@) == peer_rows_spec(field_rows(entries@)),
{
    let ghost es = field_rows(entries@);
    let mut out: Vec<PeerRow> = Vec::new();
    let mut i: usize = 0;
    assert(es.take(0) =~= Seq::<Seq<Option<Seq<char>>>>::empty());
    assert(rows_view(out@) =~= Seq::<RowView>::empty());
    while i < entries.len()
        invariant
            i <= entries.len(),
            es == field_rows(entries@),
            rows_view(out@) == sort_by_name(kept_rows(es.take(i as int))),
        decreases entries.len() - i,
    {
        let ghost prev = es.take(i as int);
        assert(es.take(i + 1).drop_last() =~= prev);
        assert(es.take(i + 1).last() == es[i as int]);
        assert(es[i as int] == opt_strs(entries@[i as int]@));
        let node_id = field_or(&entries[i], 0, "");
        proof {
            reveal_strlit("");
            assert(""@ =~= Seq::<char>::empty());
        }
        if !node_id.as_str().is_empty() {
            let row = entry_to_row(&entries[i]);
            let k = insert_place(&out, &row);
            let ghost before = rows_view(out@);
            proof {
                lemma_insert_at(before, row_view(row), k as int);
            }
            out.insert(k, row);
            assert(rows_view(out@) =~= before.insert(k as int, row_view(row)));
            assert(kept_rows(es.take(i + 1)) =~= kept_rows(prev).push(row_view(row)));
            assert(kept_rows(prev).push(row_view(row)).drop_last() =~= kept_rows(prev));
            assert(sort_by_name(kept_rows(es.take(i + 1))) == insert_by_name(
                sort_by_name(kept_rows(prev)),
                row_view(row),
            ));
        } else {
            assert(kept_rows(es.take(i + 1)) =~= kept_rows(prev));
        }
        i += 1;
    }
    assert(es.take(entries.len() as int) =~= es);
    out
}

/// Pure parser for the node list's JSON-array output. Each entry has
/// `{node_id, name, public_key, role, health, region}`; garbage decodes to
/// no rows.
pub fn parse_nodes(raw: &str) -> (r: Vec<PeerRow>)
    ensures
        match json_array_fields(raw@, seq!["node_id"@, "name"@, "region"@, "role"@, "health"@]) {
            Some(es) => rows_view(r@) == peer_rows_spec(es),
            None => r@.len() == 0,
        },
{
    let keys: [&str; 5] = ["node_id", "name", "region", "role", "health"];
    let ks = keys.as_slice();
    assert(ks@.map_values(|k: &str| k@) =~= seq!["node_id"@, "name"@, "region"@, "role"@, "health"@]);
    match array_fields(raw, ks) {
        Some(entries) => peer_rows(&entries),
        None => Vec::new(),
    }
}

// ───────────────────────── panel ─────────────────────────

/// What the panel reacts to: the outcome of a node-list fetch, or the
/// Refresh button.
#[derive(Debug)]
pub enum Message {
    Loaded(Result<Vec<PeerRow>, String>),
    RefreshClicked,
}

/// The panel's state. Times are seconds since the Unix epoch.
#[derive(Debug, Clone)]
pub struct MeshTopologyPanel {
    pub peers: Vec<PeerRow>,
    pub error: Option<String>,
    pub last_run_at: Option<u64>,
    pub busy: bool,
}

impl MeshTopologyPanel {
    /// The panel before its first refresh.
    pub fn new() -> (r: Self)
        ensures
            r.peers@.len() == 0,
            r.error is None,
            r.last_run_at is None,
            !r.busy,
    {
        MeshTopologyPanel { peers: Vec::new(), error: None, last_run_at: None, busy: false }
    }

    /// Apply one message at time `now_secs`; `true` when a fetch of the
    /// node list should start.
    pub fn update(&mut self, msg: Message, now_secs: u64) -> (load: bool)
        ensures
            match msg {
                Message::Loaded(Ok(peers)) => !load && final(self).peers@ == peers@
                    && final(self).error is None && !final(self).busy && final(self).last_run_at
                    == Some(now_secs),
                Message::Loaded(Err(e)) => !load && final(self).peers@.len() == 0
                    && final(self).error == Some(e) && !final(self).busy && final(self).last_run_at
                    == Some(now_secs),
                Message::RefreshClicked => load && final(self).busy && final(self).peers@ == old(
                    self,
                ).peers@ && final(self).error == old(self).error && final(self).last_run_at == old(
                    self,
                ).last_run_at,
            },
    {
        match msg {
            Message::Loaded(Ok(peers)) => {
                self.peers = peers;
                self.error = None;
                self.busy = false;
                self.last_run_at = Some(now_secs);
                false
            },
            Message::Loaded(Err(e)) => {
                self.peers = Vec::new();
                self.error = Some(e);
                self.busy = false;
                self.last_run_at = Some(now_secs);
                false
            },
            Message::RefreshClicked => {
                self.busy = true;
                true
            },
        }
    }

    /// The line under the title: the peer count and the age of the last
    /// refresh, or an invitation to refresh.
    pub fn subtitle(&self, now_secs: u64) -> (r: String)
        ensures
            r@ == match self.last_run_at {
                Some(at) => dec(self.peers@.len()) + " peer"@ + (if self.peers@.len() == 1 {
                    ""@
                } else {
                    "s"@
                }) + " · last refresh "@ + age_text(at as int, now_secs as int),
                None => "click Refresh to probe"@,
            },
    {
        match self.last_run_at {
            Some(at) => {
                let n = fmt_u64(self.peers.len() as u64);
                let s = concat(n.as_str(), " peer");
                let s = concat(s.as_str(), if self.peers.len() == 1 { "" } else { "s" });
                let s = concat(s.as_str(), " · last refresh ");
                let age = fmt_age(at, now_secs);
                concat(s.as_str(), age.as_str())
            },
            None => String::from_str("click Refresh to probe"),
        }
    }
}

impl MeshTopologyPanel {
    /// The refresh button's label.
    pub fn refresh_label(&self) -> (r: &'static str)
        ensures
            r@ == if self.busy {
                "Loading…"@
            } else {
                "Refresh"@
            },
    {
        if self.busy {
            "Loading…"
        } else {
            "Refresh"
        }
    }

    /// The card shown in place of an empty table after a refresh: a
    /// heading and a body, for a failed load or for a mesh without
    /// peers; `None` while there are rows or before the first refresh.
    pub fn empty_state(&self) -> (r: Option<(String, String)>)
        ensures
            r is Some <==> self.peers@.len() == 0 && self.last_run_at is Some,
            r matches Some((heading, body)) ==> match self.error {
                Some(e) => heading@ == "Couldn't load peers"@ && body@ == e@,
                None => heading@ == "No peers enrolled"@ && body@ == EMPTY_MESH_HINT@,
            },
    {
        if self.peers.len() > 0 || self.last_run_at.is_none() {
            return None;
        }
        match &self.error {
            Some(e) => Some((String::from_str("Couldn't load peers"), e.clone())),
            None => Some((String::from_str("No peers enrolled"), String::from_str(EMPTY_MESH_HINT))),
        }
    }
}

/// The body of the empty-mesh card.
pub const EMPTY_MESH_HINT: &'static str = "Enroll peers via mackes/birthright or mackesd's pair-request flow; rows appear here as mackesd's nodes table grows.";

/// How long ago `at` was, seen at `now`: seconds under a minute, minutes
/// under an hour, else hours; `—` when `at` lies in the future.
pub open spec fn age_text(at: int, now: int) -> Seq<char> {
    if now < at {
        "—"@
    } else {
        let secs = (now - at) as nat;
        if secs < 60 {
            dec(secs) + " s ago"@
        } else if secs < 3600 {
            dec(secs / 60) + " min ago"@
        } else {
            dec(secs / 3600) + " h ago"@
        }
    }
}

/// How long ago `at_secs` was at `now_secs`.
pub fn fmt_age(at_secs: u64, now_secs: u64) -> (r: String)
    ensures
        r@ == age_text(at_secs as int, now_secs as int),
{
    if now_secs < at_secs {
        return String::from_str("—");
    }
    let secs = now_secs - at_secs;
    if secs < 60 {
        let d = fmt_u64(secs);
        concat(d.as_str(), " s ago")
    } else if secs < 3600 {
        let d = fmt_u64(secs / 60);
        concat(d.as_str(), " min ago")
    } else {
        let d = fmt_u64(secs / 3600);
        concat(d.as_str(), " h ago")
    }
}

/// `insert_by_name` inserts `x` at some place.
proof fn lemma_insert_places(s: Seq<RowView>, x: RowView)
    ensures
        exists|k: int| 0 <= k <= s.len() && insert_by_name(s, x) == s.insert(k, x),
    decreases s.len(),
{
    if s.len() == 0 {
        assert(insert_by_name(s, x) == s.insert(0, x));
    } else if str_lt(x.0, s[0].0) {
        assert(insert_by_name(s, x) == s.insert(0, x));
    } else {
        let t = s.drop_first();
        lemma_insert_places(t, x);
        let k = choose|k: int| 0 <= k <= t.len() && insert_by_name(t, x) == t.insert(k, x);
        assert(seq![s[0]] + t.insert(k, x) =~= s.insert(k + 1, x));
    }
}

/// The sort by name keeps every row, as often as it occurs.
proof fn lemma_sort_same_rows(s: Seq<RowView>)
    ensures
        sort_by_name(s).to_multiset() == s.to_multiset(),
    decreases s.len(),
{
    broadcast use vstd::seq_lib::group_to_multiset_ensures;

    if s.len() == 0 {
        assert(sort_by_name(s) =~= s);
    } else {
        let d = s.drop_last();
        lemma_sort_same_rows(d);
        let sd = sort_by_name(d);
        lemma_insert_places(sd, s.last());
        let k = choose|k: int| 0 <= k <= sd.len() && insert_by_name(sd, s.last()) == sd.insert(k, s.last());
        assert(sd.insert(k, s.last()).to_multiset() == sd.to_multiset().insert(s.last()));
        assert(d.push(s.last()) =~= s);
    }
}

/// The rows are the kept entries' rows, each as often as it occurs,
/// sorted by name.
pub proof fn law_rows_sorted_by_name(es: Seq<Seq<Option<Seq<char>>>>)
    ensures
        names_sorted(peer_rows_spec(es)),
        peer_rows_spec(es).to_multiset() == kept_rows(es).to_multiset(),
{
    lemma_sort_sorted(kept_rows(es));
    lemma_sort_same_rows(kept_rows(es));
}

} // verus!
