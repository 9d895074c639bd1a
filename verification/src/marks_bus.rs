//! The mark store's Bus responder: one `action/marks/<verb>` request, given
//! as its verb and JSON body, applied to the store, answered with a JSON
//! reply and, for a mutation that changed the store, the delta to publish.
use vstd::prelude::*;
use vstd::string::*;
use crate::marks::{
    MarksStore, MarksView, add_changes, after_add, remove_changes, after_remove, marks_at,
    marked_with,
};
use crate::order::{strs, sorted_list, string_eq};
use crate::text::{concat, opt_str};
use crate::tags::TagManifest;
use crate::auto_mark::{auto_marks, auto_marks_for_class};
use crate::marks::after_note;
use crate::workspace::opt_manifests;

verus! {

/// A lower-case hex digit, `n` in `0..16`.
pub open spec fn hex_digit(n: int) -> char {
    "0123456789abcdef"@[n]
}

/// How JSON writes one character inside a string literal: `"` and `\`
/// behind a backslash, the five controls with a short escape as `\b`,
/// `\t`, `\n`, `\f`, `\r`, every other control below U+0020 as
/// `\u00XX`, and anything else as itself.
pub open spec fn json_char(c: char) -> Seq<char> {
    if c == '"' {
        seq!['\\', '"']
    } else if c == '\\' {
        seq!['\\', '\\']
    } else if c == '\u{8}' {
        seq!['\\', 'b']
    } else if c == '\t' {
        seq!['\\', 't']
    } else if c == '\n' {
        seq!['\\', 'n']
    } else if c == '\u{c}' {
        seq!['\\', 'f']
    } else if c == '\r' {
        seq!['\\', 'r']
    } else if (c as int) < 0x20 {
        seq!['\\', 'u', '0', '0', hex_digit(c as int / 16), hex_digit(c as int % 16)]
    } else {
        seq![c]
    }
}

/// The characters of `s`, each as JSON writes it inside a string.
pub open spec fn json_chars(s: Seq<char>) -> Seq<char>
    decreases s.len(),
{
    if s.len() == 0 {
        Seq::empty()
    } else {
        json_chars(s.drop_last()) + json_char(s.last())
    }
}

/// The JSON string literal for `s`: quoted, with JSON string escaping.
pub open spec fn json_str_text(s: Seq<char>) -> Seq<char> {
    seq!['"'] + json_chars(s) + seq!['"']
}

/// The string literals of `items`, separated by commas.
pub open spec fn json_items(items: Seq<Seq<char>>) -> Seq<char>
    decreases items.len(),
{
    if items.len() == 0 {
        Seq::empty()
    } else if items.len() == 1 {
        json_str_text(items[0])
    } else {
        json_items(items.drop_last()) + seq![','] + json_str_text(items.last())
    }
}

/// The compact JSON text of a list of strings: `["a","b"]`.
pub open spec fn json_array_text(items: Seq<Seq<char>>) -> Seq<char> {
    seq!['['] + json_items(items) + seq![']']
}

/// `serde_json::to_string` on a list of strings: the compact formatter
/// writes `[`, the string literals separated by `,`, and `]`, each string
/// escaped as `format_escaped_str` does. Serialising strings cannot fail,
/// so the error arm is never taken.
#[verifier::external_body]
fn array_text(items: &Vec<String>) -> (r: String)
    ensures
        r@ == json_array_text(strs(items@)),
{
    match serde_json::to_string(items) {
        Ok(s) => s,
        Err(_) => String::new(),
    }
}

/// `serde_json::to_string` on a string: quoted, each character escaped as
/// `format_escaped_str` does. Serialising a string cannot fail, so the
/// error arm is never taken.
#[verifier::external_body]
fn str_text(s: &str) -> (r: String)
    ensures
        r@ == json_str_text(s@),
{
    match serde_json::to_string(s) {
        Ok(t) => t,
        Err(_) => String::new(),
    }
}

/// `true` / `false` as JSON writes them.
pub open spec fn bool_text(b: bool) -> Seq<char> {
    if b {
        "true"@
    } else {
        "false"@
    }
}

/// The reply body every verb answers with:
/// `{"ok":..,"changed":..,"marks":[..],"addrs":[..]}`.
pub open spec fn reply_text(
    ok: bool,
    changed: bool,
    marks: Seq<Seq<char>>,
    addrs: Seq<Seq<char>>,
) -> Seq<char> {
    "{\"ok\":"@ + bool_text(ok) + ",\"changed\":"@ + bool_text(changed) + ",\"marks\":"@
        + json_array_text(marks) + ",\"addrs\":"@ + json_array_text(addrs) + "}"@
}

/// The reply to a request that could not be served.
pub open spec fn fail_reply() -> Seq<char> {
    reply_text(false, false, Seq::empty(), Seq::empty())
}

/// A delta to publish: address, verb, mark, and the window's marks after
/// the change.
pub type DeltaView = (Seq<char>, Seq<char>, Seq<char>, Seq<Seq<char>>);

/// Outcome of dispatching one Bus action against the store: the JSON
/// reply body + (for mutations) the delta to publish.
#[derive(Debug, PartialEq, Eq)]
pub struct DispatchOutcome {
    /// JSON reply to write to `reply/<ulid>`.
    pub reply_json: String,
    /// `Some((addr, op, mark, marks))` when a delta should publish.
    pub delta: Option<(String, String, String, Vec<String>)>,
}

/// The view of an optional delta.
pub open spec fn delta_view(d: Option<(String, String, String, Vec<String>)>) -> Option<DeltaView> {
    match d {
        Some(t) => Some((t.0@, t.1@, t.2@, strs(t.3@))),
        None => None,
    }
}

/// The request shape each verb's body is read as: `add` and `remove` take
/// an address and a mark, `list` an address, `match` a mark.
#[derive(Debug, Clone, Copy, PartialEq, Eq, Structural)]
pub enum RequestShape {
    AddrMark,
    Addr,
    Mark,
}

/// The shape of `verb`'s request, or `None` for a verb the responder does
/// not serve.
pub open spec fn shape_of(verb: Seq<char>) -> Option<RequestShape> {
    if verb == "add"@ || verb == "remove"@ {
        Some(RequestShape::AddrMark)
    } else if verb == "list"@ {
        Some(RequestShape::Addr)
    } else if verb == "match"@ {
        Some(RequestShape::Mark)
    } else {
        None
    }
}

/// The request body shape to read for `verb`.
pub fn request_shape(verb: &str) -> (r: Option<RequestShape>)
    ensures
        r == shape_of(verb@),
{
    proof {
        reveal_strlit("add");
        reveal_strlit("remove");
        reveal_strlit("list");
        reveal_strlit("match");
    }
    if string_eq(verb, "add") || string_eq(verb, "remove") {
        Some(RequestShape::AddrMark)
    } else if string_eq(verb, "list") {
        Some(RequestShape::Addr)
    } else if string_eq(verb, "match") {
        Some(RequestShape::Mark)
    } else {
        None
    }
}

/// A request body read into its shape: `{addr, mark}`, `{addr}` or
/// `{mark}`.
#[derive(Debug, Clone, PartialEq, Eq)]
pub enum MarkRequest {
    AddrMark { addr: String, mark: String },
    Addr { addr: String },
    Mark { mark: String },
}

impl MarkRequest {
    /// A copy of the request.
    pub fn duplicate(&self) -> (r: Self)
        ensures
            r == *self,
    {
        match self {
            MarkRequest::AddrMark { addr, mark } => MarkRequest::AddrMark {
                addr: addr.clone(),
                mark: mark.clone(),
            },
            MarkRequest::Addr { addr } => MarkRequest::Addr { addr: addr.clone() },
            MarkRequest::Mark { mark } => MarkRequest::Mark { mark: mark.clone() },
        }
    }
}

/// What dispatching `verb` with request `req` (`None` when the body could
/// not be read as the verb's request) does to a store holding `v`: the
/// store afterwards, the reply text, and the delta.
///
/// * `add` / `remove` with `{addr, mark}`: apply the mutation; the reply
///   lists the window's marks and says whether the store changed; a
///   change publishes a delta.
/// * `list` with `{addr}`: the window's marks (`changed` is `true` for
///   every verb but add / remove).
/// * `match` with `{mark}`: the windows carrying it (`changed` `true`).
/// * anything else: an `ok:false` reply, the store unchanged.
pub open spec fn dispatched(v: MarksView, verb: Seq<char>, req: Option<MarkRequest>) -> (
    MarksView,
    Seq<char>,
    Option<DeltaView>,
) {
    match req {
        Some(MarkRequest::AddrMark { addr, mark }) if verb == "add"@ || verb == "remove"@ => {
            let (a, m) = (addr@, mark@);
            let changed = if verb == "add"@ {
                add_changes(v, a, m)
            } else {
                remove_changes(v, a, m)
            };
            let v1 = if verb == "add"@ {
                after_add(v, a, m)
            } else {
                after_remove(v, a, m)
            };
            let listed = sorted_list(marks_at(v1, a));
            (
                v1,
                reply_text(true, changed, listed, Seq::empty()),
                if changed {
                    Some((a, verb, m, listed))
                } else {
                    None
                },
            )
        },
        Some(MarkRequest::Addr { addr }) if verb == "list"@ => (
            v,
            reply_text(true, true, sorted_list(marks_at(v, addr@)), Seq::empty()),
            None,
        ),
        Some(MarkRequest::Mark { mark }) if verb == "match"@ => (
            v,
            reply_text(true, true, Seq::empty(), sorted_list(marked_with(v, mark@))),
            None,
        ),
        _ => (v, fail_reply(), None),
    }
}

fn render_reply(ok: bool, changed: bool, marks: &Vec<String>, addrs: &Vec<String>) -> (r: String)
    ensures
        r@ == reply_text(ok, changed, strs(marks@), strs(addrs@)),
{
    let s = concat("{\"ok\":", if ok { "true" } else { "false" });
    let s = concat(s.as_str(), ",\"changed\":");
    let s = concat(s.as_str(), if changed { "true" } else { "false" });
    let s = concat(s.as_str(), ",\"marks\":");
    let mt = array_text(marks);
    let s = concat(s.as_str(), mt.as_str());
    let s = concat(s.as_str(), ",\"addrs\":");
    let at = array_text(addrs);
    let s = concat(s.as_str(), at.as_str());
    let r = concat(s.as_str(), "}");
    proof {
        reveal_strlit("true");
        reveal_strlit("false");
    }
    r
}

fn fail_outcome() -> (out: DispatchOutcome)
    ensures
        out.reply_json@ == fail_reply(),
        out.delta is None,
{
    let none: Vec<String> = Vec::new();
    proof {
        assert(strs(none@) =~= Seq::<Seq<char>>::empty());
    }
    DispatchOutcome { reply_json: render_reply(false, false, &none, &none), delta: None }
}

/// Dispatch one action verb against `store`, mutating it for
/// add/remove. `verb` is the topic tail (`add` / `remove` / `list` /
/// `match`); `req` is the request body read as the verb's shape (see
/// [`request_shape`]), `None` when it could not be. Unknown verbs and
/// unreadable or mismatched requests produce an `ok:false` reply, no
/// delta, and leave the store as it was.
pub fn dispatch_request(store: &mut MarksStore, verb: &str, req: Option<MarkRequest>) -> (out:
    DispatchOutcome)
    requires
        old(store).wf(),
    ensures
        final(store).wf(),
        (final(store)@, out.reply_json@, delta_view(out.delta)) == dispatched(
            old(store)@,
            verb@,
            req,
        ),
{
    let is_add = string_eq(verb, "add");
    let is_remove = string_eq(verb, "remove");
    let none: Vec<String> = Vec::new();
    proof {
        assert(strs(none@) =~= Seq::<Seq<char>>::empty());
        reveal_strlit("add");
        reveal_strlit("remove");
        reveal_strlit("list");
        reveal_strlit("match");
        assert("add"@.len() == 3 && "remove"@.len() == 6);
        assert("list"@.len() == 4 && "match"@.len() == 5);
    }
    match req {
        Some(MarkRequest::AddrMark { addr, mark }) => {
            if !(is_add || is_remove) {
                return fail_outcome();
            }
            let changed = if is_add {
                store.add_mark(addr.as_str(), mark.as_str())
            } else {
                store.remove_mark(addr.as_str(), mark.as_str())
            };
            let listed = store.list_marks(addr.as_str());
            let reply_json = render_reply(true, changed, &listed, &none);
            let delta = if changed {
                let again = store.list_marks(addr.as_str());
                Some((addr, verb.to_owned(), mark, again))
            } else {
                None
            };
            DispatchOutcome { reply_json, delta }
        },
        Some(MarkRequest::Addr { addr }) => {
            if !string_eq(verb, "list") {
                return fail_outcome();
            }
            let listed = store.list_marks(addr.as_str());
            DispatchOutcome { reply_json: render_reply(true, true, &listed, &none), delta: None }
        },
        Some(MarkRequest::Mark { mark }) => {
            if !string_eq(verb, "match") {
                return fail_outcome();
            }
            let hits = store.match_marks(mark.as_str());
            DispatchOutcome { reply_json: render_reply(true, true, &none, &hits), delta: None }
        },
        None => fail_outcome(),
    }
}

/// The topic a window's mark deltas are published on.
pub open spec fn delta_topic(addr: Seq<char>) -> Seq<char> {
    "event/marks/"@ + addr
}

/// The body of a published delta:
/// `{"addr":..,"op":..,"mark":..,"marks":[..]}`.
pub open spec fn delta_text(addr: Seq<char>, op: Seq<char>, mark: Seq<char>, marks: Seq<Seq<char>>) -> Seq<
    char,
> {
    "{\"addr\":"@ + json_str_text(addr) + ",\"op\":"@ + json_str_text(op) + ",\"mark\":"@
        + json_str_text(mark) + ",\"marks\":"@ + json_array_text(marks) + "}"@
}

/// The topic and JSON body that publish the delta `(addr, op, mark,
/// marks)`.
pub fn delta_message(addr: &str, op: &str, mark: &str, marks: &Vec<String>) -> (r: (String, String))
    ensures
        r.0@ == delta_topic(addr@),
        r.1@ == delta_text(addr@, op@, mark@, strs(marks@)),
{
    let topic = concat("event/marks/", addr);
    let a = str_text(addr);
    let o = str_text(op);
    let m = str_text(mark);
    let ms = array_text(marks);
    let b = concat("{\"addr\":", a.as_str());
    let b = concat(b.as_str(), ",\"op\":");
    let b = concat(b.as_str(), o.as_str());
    let b = concat(b.as_str(), ",\"mark\":");
    let b = concat(b.as_str(), m.as_str());
    let b = concat(b.as_str(), ",\"marks\":");
    let b = concat(b.as_str(), ms.as_str());
    (topic, concat(b.as_str(), "}"))
}

// ───────────────────────── window events ─────────────────────────

/// The compositor events the mark store follows.
#[derive(Debug, Clone, PartialEq, Eq)]
pub enum WindowEvent {
    /// A window opened (address, class, title).
    Opened { addr: String, class: String, title: String },
    /// A window closed.
    Closed { addr: String },
    /// A window took focus (address, class, title).
    Focused { addr: String, class: String, title: String },
    /// Anything else.
    Other,
}

/// The store after adding marks `ms` to window `a`, one after the other.
pub open spec fn after_adds(v: MarksView, a: Seq<char>, ms: Seq<Seq<char>>) -> MarksView
    decreases ms.len(),
{
    if ms.len() == 0 {
        v
    } else {
        after_add(after_adds(v, a, ms.drop_last()), a, ms.last())
    }
}

/// The deltas those adds publish: one per mark that changed the store.
pub open spec fn add_deltas(v: MarksView, a: Seq<char>, ms: Seq<Seq<char>>) -> Seq<DeltaView>
    decreases ms.len(),
{
    if ms.len() == 0 {
        Seq::empty()
    } else {
        let before = after_adds(v, a, ms.drop_last());
        let m = ms.last();
        add_deltas(v, a, ms.drop_last()) + if add_changes(before, a, m) {
            seq![(a, "add"@, m, sorted_list(marks_at(after_add(before, a, m), a)))]
        } else {
            Seq::empty()
        }
    }
}

pub open spec fn deltas_view(d: Seq<(String, String, String, Vec<String>)>) -> Seq<DeltaView> {
    d.map_values(|t: (String, String, String, Vec<String>)| (t.0@, t.1@, t.2@, strs(t.3@)))
}

/// React to one compositor event: an opened window is recorded and
/// seeded with its class's marks (each change publishing a delta); a
/// closed window is forgotten; a focused window's identity is refreshed.
/// Returns the deltas to publish, in order.
pub fn handle_event(store: &mut MarksStore, ev: &WindowEvent, manifests: Option<&[TagManifest]>) -> (r:
    Vec<(String, String, String, Vec<String>)>)
    requires
        old(store).wf(),
    ensures
        final(store).wf(),
        match *ev {
            WindowEvent::Opened { addr, class, title } => {
                let v1 = after_note(old(store)@, addr@, class@, title@);
                let ms = auto_marks(class@, opt_manifests(manifests));
                final(store)@ == after_adds(v1, addr@, ms) && deltas_view(r@) == add_deltas(
                    v1,
                    addr@,
                    ms,
                )
            },
            WindowEvent::Closed { addr } => final(store)@ == crate::marks::after_drop(
                old(store)@,
                addr@,
            ) && r@.len() == 0,
            WindowEvent::Focused { addr, class, title } => final(store)@ == after_note(
                old(store)@,
                addr@,
                class@,
                title@,
            ) && r@.len() == 0,
            WindowEvent::Other => final(store)@ == old(store)@ && r@.len() == 0,
        },
{
    let mut out: Vec<(String, String, String, Vec<String>)> = Vec::new();
    match ev {
        WindowEvent::Opened { addr, class, title } => {
            store.note_window(addr.as_str(), class.as_str(), title.as_str());
            let ghost v1 = store@;
            let marks = auto_marks_for_class(class.as_str(), manifests);
            let ghost ms = strs(marks@);
            let mut i: usize = 0;
            assert(ms.take(0) =~= Seq::<Seq<char>>::empty());
            assert(deltas_view(out@) =~= Seq::<DeltaView>::empty());
            while i < marks.len()
                invariant
                    store.wf(),
                    i <= marks.len(),
                    ms == strs(marks@),
                    store@ == after_adds(v1, addr@, ms.take(i as int)),
                    deltas_view(out@) == add_deltas(v1, addr@, ms.take(i as int)),
                decreases marks.len() - i,
            {
                assert(ms.take(i + 1).drop_last() =~= ms.take(i as int));
                assert(ms.take(i + 1).last() == marks@[i as int]@);
                if store.add_mark(addr.as_str(), marks[i].as_str()) {
                    let listed = store.list_marks(addr.as_str());
                    let ghost before = deltas_view(out@);
                    out.push((addr.clone(), String::from_str("add"), marks[i].clone(), listed));
                    assert(deltas_view(out@) =~= before.push(
                        (addr@, "add"@, marks@[i as int]@, strs(listed@)),
                    ));
                }
                i += 1;
            }
            assert(ms.take(marks.len() as int) =~= ms);
        },
        WindowEvent::Closed { addr } => {
            store.drop_window(addr.as_str());
        },
        WindowEvent::Focused { addr, class, title } => {
            store.note_window(addr.as_str(), class.as_str(), title.as_str());
        },
        WindowEvent::Other => {},
    }
    out
}

/// The mark-state worker; what it keeps between inputs, and what it does
/// with each, is `crate::marks_worker::MarksWorkerState`.
pub struct MarksStateWorker;

impl MarksStateWorker {
    /// Construct a fresh worker.
    pub fn new() -> (r: Self) {
        MarksStateWorker
    }
}

/// The shape a read request has.
pub open spec fn shape_of_request(r: MarkRequest) -> RequestShape {
    match r {
        MarkRequest::AddrMark { .. } => RequestShape::AddrMark,
        MarkRequest::Addr { .. } => RequestShape::Addr,
        MarkRequest::Mark { .. } => RequestShape::Mark,
    }
}

/// A dispatched request publishes a delta exactly when it changed the
/// store; every request other than an applied `add` / `remove` leaves the
/// store as it was; and a request that could not be read, or is not of
/// its verb's shape, is answered `ok:false` with nothing changed.
pub proof fn law_delta_iff_changed(store: MarksStore, verb: Seq<char>, req: Option<MarkRequest>)
    requires
        store.wf(),
    ensures
        dispatched(store@, verb, req).2 is Some <==> dispatched(store@, verb, req).0 != store@,
        !(verb == "add"@ || verb == "remove"@) ==> dispatched(store@, verb, req).0 == store@,
        (req is None || shape_of(verb) != Some(shape_of_request(req->0))) ==> dispatched(
            store@,
            verb,
            req,
        ) == (store@, fail_reply(), None::<DeltaView>),
{
    store.lemma_wf();
    reveal_strlit("add");
    reveal_strlit("remove");
    reveal_strlit("list");
    reveal_strlit("match");
    assert("add"@.len() == 3 && "remove"@.len() == 6);
    assert("list"@.len() == 4 && "match"@.len() == 5);
    let v = store@;
    match req {
        Some(MarkRequest::AddrMark { addr, mark }) => {
            if verb == "add"@ {
                if add_changes(v, addr@, mark@) {
                    assert(marks_at(after_add(v, addr@, mark@), addr@).contains(mark@));
                }
            } else if verb == "remove"@ {
                if remove_changes(v, addr@, mark@) {
                    assert(!marks_at(after_remove(v, addr@, mark@), addr@).contains(mark@));
                }
            }
        },
        _ => {},
    }
}

} // verus!
