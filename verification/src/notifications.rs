//! The notifications popover's mute list: which peers' notification
//! groups are hidden, toggled from the popover and kept in a small TOML
//! file (`[muted]` table, one `"<peer>" = true` row per muted peer).
use vstd::prelude::*;
use vstd::string::*;
use crate::order::{strs, string_eq, sorted_list, increasing, sorted_unique, lemma_sorted_list};
use crate::text::{chars_of, string_of, concat, dec, fmt_u64, slice_of};

verus! {

broadcast use vstd::seq_lib::group_seq_properties;

/// Popover width, in logical pixels.
pub const WIDTH: u32 = 480;

/// Popover height, in logical pixels.
pub const HEIGHT: u32 = 600;

/// What the popover reacts to.
#[derive(Debug, Clone)]
pub enum Message {
    /// Close the popover.
    Exit,
    /// Clear the notification cache, then close.
    ClearAll,
    /// Flip the mute state of a peer's group.
    ToggleMute(String),
}

// ───────────────────────── muting ─────────────────────────

/// Flip `peer` in the mute list: a muted peer is unmuted (every copy
/// removed), another is muted. Returns whether `peer` is muted now.
pub fn toggle_mute(muted: &mut Vec<String>, peer: &str) -> (now_muted: bool)
    ensures
        now_muted == !strs(old(muted)@).to_set().contains(peer@),
        strs(final(muted)@).to_set() == if now_muted {
            strs(old(muted)@).to_set().insert(peer@)
        } else {
            strs(old(muted)@).to_set().remove(peer@)
        },
{
    let ghost s0 = strs(muted@).to_set();
    let mut kept: Vec<String> = Vec::new();
    let mut found = false;
    let mut i: usize = 0;
    while i < muted.len()
        invariant
            i <= muted.len(),
            s0 == strs(muted@).to_set(),
            found == strs(muted@).take(i as int).contains(peer@),
            strs(kept@).to_set() == strs(muted@).take(i as int).to_set().remove(peer@),
        decreases muted.len() - i,
    {
        let ghost pre = strs(muted@).take(i as int);
        assert(strs(muted@).take(i + 1) =~= pre.push(muted@[i as int]@));
        if string_eq(muted[i].as_str(), peer) {
            found = true;
            assert(strs(kept@).to_set() =~= pre.push(peer@).to_set().remove(peer@));
        } else {
            let ghost before = strs(kept@);
            kept.push(muted[i].clone());
            assert(strs(kept@) =~= before.push(muted@[i as int]@));
            assert(muted@[i as int]@ != peer@);
            assert(strs(kept@).to_set() =~= before.to_set().insert(muted@[i as int]@));
            assert(pre.push(muted@[i as int]@).to_set() =~= pre.to_set().insert(muted@[i as int]@));
            assert(strs(kept@).to_set() =~= pre.push(muted@[i as int]@).to_set().remove(peer@));
        }
        i += 1;
    }
    assert(strs(muted@).take(muted.len() as int) =~= strs(muted@));
    if found {
        *muted = kept;
        false
    } else {
        let ghost before = strs(muted@);
        muted.push(String::from_str(peer));
        assert(strs(muted@) =~= before.push(peer@));
        assert(strs(muted@).to_set() =~= s0.insert(peer@));
        true
    }
}

/// Toggling a peer twice gives back the mute list it started from.
pub proof fn law_toggle_twice_restores(s: Set<Seq<char>>, peer: Seq<char>)
    ensures
        ({
            let once = if !s.contains(peer) {
                s.insert(peer)
            } else {
                s.remove(peer)
            };
            let twice = if !once.contains(peer) {
                once.insert(peer)
            } else {
                once.remove(peer)
            };
            twice == s
        }),
{
    if s.contains(peer) {
        assert(s.remove(peer).insert(peer) =~= s);
    } else {
        assert(s.insert(peer).remove(peer) =~= s);
    }
}

/// The groups of `gs` whose peer is not muted, in order.
pub open spec fn unmuted<T>(gs: Seq<(String, T)>, muted: Set<Seq<char>>) -> Seq<(String, T)>
    decreases gs.len(),
{
    if gs.len() == 0 {
        Seq::empty()
    } else {
        (if muted.contains(gs[0].0@) {
            Seq::empty()
        } else {
            seq![gs[0]]
        }) + unmuted(gs.drop_first(), muted)
    }
}

fn is_muted(muted: &Vec<String>, peer: &str) -> (r: bool)
    ensures
        r == strs(muted@).to_set().contains(peer@),
{
    let mut i: usize = 0;
    while i < muted.len()
        invariant
            i <= muted.len(),
            forall|j: int| 0 <= j < i ==> strs(muted@)[j] != peer@,
        decreases muted.len() - i,
    {
        if string_eq(muted[i].as_str(), peer) {
            assert(strs(muted@)[i as int] == peer@);
            return true;
        }
        i += 1;
    }
    false
}

/// The notification groups (peer, rows) the popover shows: those of
/// peers that are not muted, in their order.
pub fn visible_groups<T>(groups: Vec<(String, T)>, muted: &Vec<String>) -> (r: Vec<(String, T)>)
    ensures
        r@ == unmuted(groups@, strs(muted@).to_set()),
{
    let ghost m = strs(muted@).to_set();
    let ghost all = groups@;
    let mut rest = groups;
    let mut out: Vec<(String, T)> = Vec::new();
    while rest.len() > 0
        invariant
            m == strs(muted@).to_set(),
            out@ + unmuted(rest@, m) == unmuted(all, m),
        decreases rest.len(),
    {
        let ghost before = rest@;
        let g = rest.remove(0);
        assert(rest@ =~= before.drop_first());
        if is_muted(muted, g.0.as_str()) {
            assert(out@ + unmuted(rest@, m) =~= out@ + unmuted(before, m));
        } else {
            let ghost o = out@;
            out.push(g);
            assert(out@ + unmuted(rest@, m) =~= o + unmuted(before, m));
        }
    }
    assert(unmuted(rest@, m) =~= Seq::<(String, T)>::empty());
    assert(out@ + Seq::<(String, T)>::empty() =~= out@);
    out
}

// ───────────────────────── the list ─────────────────────────

/// Most rows shown per peer group.
pub const MAX_ROWS_PER_GROUP: usize = 40;

/// The heading of a peer's group: the peer's name, or `Local` for
/// notifications of this machine.
pub fn group_label(peer: &str) -> (r: String)
    ensures
        r@ == if peer@.len() == 0 {
            "Local"@
        } else {
            peer@
        },
{
    if peer.is_empty() {
        String::from_str("Local")
    } else {
        String::from_str(peer)
    }
}

/// How many of a group's `len` rows are shown: at most
/// [`MAX_ROWS_PER_GROUP`].
pub fn shown_rows(len: usize) -> (r: usize)
    ensures
        r == if len <= MAX_ROWS_PER_GROUP {
            len
        } else {
            MAX_ROWS_PER_GROUP
        },
{
    if len <= MAX_ROWS_PER_GROUP {
        len
    } else {
        MAX_ROWS_PER_GROUP
    }
}

/// The subhead counting every notification: `"<n> total"`.
pub fn total_label(total: usize) -> (r: String)
    ensures
        r@ == dec(total as nat) + " total"@,
{
    let n = fmt_u64(total as u64);
    concat(n.as_str(), " total")
}

/// The placeholder shown instead of the list when no group is left.
pub fn empty_list_text(groups: usize) -> (r: Option<&'static str>)
    ensures
        r is Some <==> groups == 0,
        r matches Some(t) ==> t@ == "No notifications"@,
{
    if groups == 0 {
        Some("No notifications")
    } else {
        None
    }
}

/// The "Clear all" button is offered only when there is something to
/// clear.
pub fn clear_all_shown(total: usize) -> (r: bool)
    ensures
        r == (total > 0),
{
    total > 0
}

/// A row's title line: a phone badge for rows that came from a phone,
/// else a bullet for unread rows, else blank padding, then the title.
pub fn row_title(phone_origin: bool, read: bool, title: &str) -> (r: String)
    ensures
        r@ == (if phone_origin {
            "📱 "@
        } else if !read {
            "• "@
        } else {
            "  "@
        }) + title@,
{
    let prefix = if phone_origin {
        "📱 "
    } else if !read {
        "• "
    } else {
        "  "
    };
    concat(prefix, title)
}

/// Most characters of a row's body shown.
pub const MAX_BODY_CHARS: usize = 120;

/// A row's body line: its first 120 characters.
pub fn row_body(body: &str) -> (r: String)
    ensures
        r@ == if body@.len() <= MAX_BODY_CHARS {
            body@
        } else {
            body@.take(MAX_BODY_CHARS as int)
        },
{
    let v = chars_of(body);
    if v.len() <= MAX_BODY_CHARS {
        string_of(v.as_slice())
    } else {
        let cut = slice_of(v.as_slice(), 0, MAX_BODY_CHARS);
        string_of(cut.as_slice())
    }
}

/// The number of rows of all groups.
pub open spec fn total_of<T>(gs: Seq<(String, Vec<T>)>) -> nat
    decreases gs.len(),
{
    if gs.len() == 0 {
        0
    } else {
        total_of(gs.drop_last()) + gs.last().1@.len()
    }
}

/// The number of notifications over all groups.
pub fn total_rows<T>(groups: &Vec<(String, Vec<T>)>) -> (n: usize)
    requires
        total_of(groups@) <= usize::MAX,
    ensures
        n == total_of(groups@),
{
    let mut n: usize = 0;
    let mut i: usize = 0;
    while i < groups.len()
        invariant
            i <= groups.len(),
            n == total_of(groups@.take(i as int)),
            total_of(groups@) <= usize::MAX,
        decreases groups.len() - i,
    {
        assert(groups@.take(i + 1).drop_last() =~= groups@.take(i as int));
        proof {
            lemma_total_prefix(groups@, i + 1);
        }
        n = n + groups[i].1.len();
        i += 1;
    }
    assert(groups@.take(groups.len() as int) =~= groups@);
    n
}

proof fn lemma_total_prefix<T>(gs: Seq<(String, Vec<T>)>, k: int)
    requires
        0 <= k <= gs.len(),
    ensures
        total_of(gs.take(k)) <= total_of(gs),
    decreases gs.len() - k,
{
    if k < gs.len() {
        lemma_total_prefix(gs, k + 1);
        assert(gs.take(k + 1).drop_last() =~= gs.take(k));
    } else {
        assert(gs.take(k) =~= gs);
    }
}

/// The strings of `ss` joined by `sep`.
pub open spec fn joined(ss: Seq<Seq<char>>, sep: Seq<char>) -> Seq<char>
    decreases ss.len(),
{
    if ss.len() == 0 {
        Seq::empty()
    } else if ss.len() == 1 {
        ss[0]
    } else {
        joined(ss.drop_last(), sep) + sep + ss.last()
    }
}

/// The footer naming the muted peers, in increasing order; `None` when
/// no peer is muted.
pub fn muted_line(muted: &Vec<String>) -> (r: Option<String>)
    ensures
        strs(muted@).len() == 0 ==> r is None,
        strs(muted@).len() > 0 ==> (r matches Some(line) && line@ == "Muted: "@ + joined(
            sorted_list(strs(muted@).to_set()),
            ", "@,
        )),
{
    if muted.len() == 0 {
        return None;
    }
    let peers = sorted_unique(muted);
    proof {
        lemma_sorted_list(strs(peers@));
        if peers@.len() == 0 {
            assert(strs(muted@)[0] == muted@[0]@);
            assert(strs(peers@).to_set().contains(muted@[0]@));
        }
    }
    let mut out = String::from_str("Muted: ");
    let mut i: usize = 0;
    assert(strs(peers@).take(0) =~= Seq::<Seq<char>>::empty());
    while i < peers.len()
        invariant
            i <= peers.len(),
            out@ == "Muted: "@ + joined(strs(peers@).take(i as int), ", "@),
        decreases peers.len() - i,
    {
        let ghost pre = strs(peers@).take(i as int);
        assert(strs(peers@).take(i + 1).drop_last() =~= pre);
        if i > 0 {
            out = concat(out.as_str(), ", ");
        }
        out = concat(out.as_str(), peers[i].as_str());
        proof {
            if i == 0 {
                assert(strs(peers@).take(1) =~= seq![peers@[0]@]);
                assert(pre =~= Seq::<Seq<char>>::empty());
            }
        }
        assert(out@ =~= "Muted: "@ + joined(strs(peers@).take(i + 1), ", "@));
        i += 1;
    }
    assert(strs(peers@).take(peers.len() as int) =~= strs(peers@));
    Some(out)
}

// ───────────────────────── the mute file ─────────────────────────

/// The header comment of the mute file.
pub open spec fn mutes_header() -> Seq<char> {
    "# mde-popover-notifications mute state — BUG-8.b\n[muted]\n"@
}

/// A peer name as a TOML basic-string body: `\` and `"` escaped.
pub open spec fn toml_escape(s: Seq<char>) -> Seq<char>
    decreases s.len(),
{
    if s.len() == 0 {
        Seq::empty()
    } else {
        toml_escape(s.drop_last()) + if s.last() == '\\' {
            seq!['\\', '\\']
        } else if s.last() == '"' {
            seq!['\\', '"']
        } else {
            seq![s.last()]
        }
    }
}

/// The rows of the `[muted]` table, one per peer in order.
pub open spec fn mute_rows(peers: Seq<Seq<char>>) -> Seq<char>
    decreases peers.len(),
{
    if peers.len() == 0 {
        Seq::empty()
    } else {
        mute_rows(peers.drop_last()) + seq!['"'] + toml_escape(peers.last()) + "\" = true\n"@
    }
}

/// The mute file for the set of muted peers: the header, then one row
/// per peer in increasing order.
pub open spec fn mutes_text(muted: Set<Seq<char>>) -> Seq<char> {
    mutes_header() + mute_rows(sorted_list(muted))
}

fn escape_toml(s: &str) -> (r: Vec<char>)
    ensures
        r@ == toml_escape(s@),
{
    let v = chars_of(s);
    let mut out: Vec<char> = Vec::new();
    let mut i: usize = 0;
    while i < v.len()
        invariant
            i <= v.len(),
            v@ == s@,
            out@ == toml_escape(v@.take(i as int)),
        decreases v.len() - i,
    {
        assert(v@.take(i + 1).drop_last() =~= v@.take(i as int));
        let c = v[i];
        if c == '\\' {
            out.push('\\');
            out.push('\\');
        } else if c == '"' {
            out.push('\\');
            out.push('"');
        } else {
            out.push(c);
        }
        assert(out@ =~= toml_escape(v@.take(i + 1)));
        i += 1;
    }
    assert(v@.take(v.len() as int) =~= v@);
    out
}

/// Serialise the muted peers to TOML: the header, then a `[muted]` row
/// per distinct peer, in increasing order.
pub fn serialize_mutes(muted: &Vec<String>) -> (r: String)
    ensures
        r@ == mutes_text(strs(muted@).to_set()),
{
    let peers = sorted_unique(muted);
    proof {
        lemma_sorted_list(strs(peers@));
    }
    let mut out = String::from_str("# mde-popover-notifications mute state — BUG-8.b\n[muted]\n");
    let mut i: usize = 0;
    assert(strs(peers@).take(0) =~= Seq::<Seq<char>>::empty());
    while i < peers.len()
        invariant
            i <= peers.len(),
            out@ == mutes_header() + mute_rows(strs(peers@).take(i as int)),
        decreases peers.len() - i,
    {
        assert(strs(peers@).take(i + 1).drop_last() =~= strs(peers@).take(i as int));
        let e = escape_toml(peers[i].as_str());
        let row = concat("\"", string_of(e.as_slice()).as_str());
        let row = concat(row.as_str(), "\" = true\n");
        proof {
            reveal_strlit("\"");
        }
        out = concat(out.as_str(), row.as_str());
        assert(out@ =~= mutes_header() + mute_rows(strs(peers@).take(i + 1)));
        i += 1;
    }
    assert(strs(peers@).take(peers.len() as int) =~= strs(peers@));
    out
}

/// The entries of table `table` of the TOML document `raw`, each with its
/// value when that value is a boolean, as the `toml` crate reads them:
/// `None` when `raw` is not TOML or has no such table.
pub uninterp spec fn toml_table_bools(raw: Seq<char>, table: Seq<char>) -> Option<
    Seq<(Seq<char>, Option<bool>)>,
>;

pub open spec fn key_bools(v: Seq<(String, Option<bool>)>) -> Seq<(Seq<char>, Option<bool>)> {
    v.map_values(|e: (String, Option<bool>)| (e.0@, e.1))
}

/// `toml::from_str::<toml::Value>` on `raw`, then `Value::get(table)`,
/// `Value::as_table`, and `Value::as_bool` on each entry.
#[verifier::external_body]
fn table_bools(raw: &str, table: &str) -> (r: Option<Vec<(String, Option<bool>)>>)
    ensures
        match r {
            Some(v) => toml_table_bools(raw@, table@) == Some(key_bools(v@)),
            None => toml_table_bools(raw@, table@) is None,
        },
{
    let value: toml::Value = match toml::from_str(raw) {
        Ok(v) => v,
        Err(_) => return None,
    };
    match value.get(table) {
        Some(t) => match t.as_table() {
            Some(tbl) => Some(tbl.iter().map(|(k, v)| (k.clone(), v.as_bool())).collect()),
            None => None,
        },
        None => None,
    }
}

/// The keys of `entries` whose value is `true`.
pub open spec fn true_keys(entries: Seq<(Seq<char>, Option<bool>)>) -> Set<Seq<char>>
    decreases entries.len(),
{
    if entries.len() == 0 {
        Set::empty()
    } else if entries.last().1 == Some(true) {
        true_keys(entries.drop_last()).insert(entries.last().0)
    } else {
        true_keys(entries.drop_last())
    }
}

/// The muted peers of a mute file: the keys of its `[muted]` table whose
/// value is `true`; none when the text is not TOML or has no such table.
pub open spec fn muted_in(raw: Seq<char>) -> Set<Seq<char>> {
    match toml_table_bools(raw, "muted"@) {
        Some(es) => true_keys(es),
        None => Set::empty(),
    }
}

/// The keys of a `[muted]` table's entries whose value is `true`, in
/// increasing order, each once.
pub fn muted_from_entries(entries: &Vec<(String, Option<bool>)>) -> (r: Vec<String>)
    ensures
        strs(r@) == sorted_list(true_keys(key_bools(entries@))),
{
    let ghost es = key_bools(entries@);
    let mut keys: Vec<String> = Vec::new();
    let mut i: usize = 0;
    assert(strs(keys@).to_set() =~= true_keys(es.take(0)));
    while i < entries.len()
        invariant
            i <= entries.len(),
            es == key_bools(entries@),
            strs(keys@).to_set() == true_keys(es.take(i as int)),
        decreases entries.len() - i,
    {
        assert(es.take(i + 1).drop_last() =~= es.take(i as int));
        assert(es.take(i + 1).last() == es[i as int]);
        if entries[i].1 == Some(true) {
            let ghost before = strs(keys@);
            keys.push(entries[i].0.clone());
            assert(strs(keys@) =~= before.push(entries@[i as int].0@));
            assert(strs(keys@).to_set() =~= before.to_set().insert(entries@[i as int].0@));
        }
        i += 1;
    }
    assert(es.take(entries.len() as int) =~= es);
    let r = sorted_unique(&keys);
    proof {
        lemma_sorted_list(strs(r@));
    }
    r
}

/// The peers whose `[muted]."<peer>" = true` row is present, in
/// increasing order.
pub fn parse_mutes(raw: &str) -> (r: Vec<String>)
    ensures
        strs(r@) == sorted_list(muted_in(raw@)),
{
    match table_bools(raw, "muted") {
        Some(entries) => muted_from_entries(&entries),
        None => {
            let keys: Vec<String> = Vec::new();
            assert(strs(keys@).to_set() =~= Set::<Seq<char>>::empty());
            let r = sorted_unique(&keys);
            proof {
                lemma_sorted_list(strs(r@));
            }
            r
        },
    }
}

/// The `[muted]` entries that mark each of `names` muted.
pub open spec fn mute_entries(names: Seq<Seq<char>>) -> Seq<(Seq<char>, Option<bool>)> {
    names.map_values(|n: Seq<char>| (n, Some(true)))
}

/// Reading back a `[muted]` table holding `name = true` for each of a set
/// of names gives exactly that set: the muted peers written out are the
/// muted peers read in.
pub proof fn law_mute_entries_round_trip(names: Seq<Seq<char>>)
    ensures
        true_keys(mute_entries(names)) == names.to_set(),
    decreases names.len(),
{
    if names.len() == 0 {
        assert(names.to_set() =~= Set::<Seq<char>>::empty());
    } else {
        let init = names.drop_last();
        law_mute_entries_round_trip(init);
        assert(mute_entries(names).drop_last() =~= mute_entries(init));
        assert(names =~= init.push(names.last()));
        init.lemma_push_to_set_commute(names.last());
        assert(names.to_set() =~= init.to_set().insert(names.last()));
    }
}

} // verus!
