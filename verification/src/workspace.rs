//! Workspace naming and routing: the name a workspace should carry given
//! its focused window (and the tag manifests that group apps), when the
//! current name may be overwritten, and which output a freshly created
//! workspace belongs on.
use vstd::prelude::*;
use vstd::string::*;
use crate::order::{strs, string_eq};
use crate::tags::{TagManifest, TagStore, Tag, TagMember};
use crate::text::{
    dec_int, fmt_i32, concat, has_prefix, starts_with, chars_of, trim, trim_chars, opt_str,
    opt_strref,
};

verus! {

// ───────────────────────── focused window ─────────────────────────

/// One window as the compositor lists it: its class, the workspace it
/// lives on, and its place in the global focus history (`0` is the
/// focused window).
#[derive(Debug, Clone, PartialEq, Eq)]
pub struct ClientInfo {
    pub class: String,
    pub workspace_id: i32,
    pub focus_history_id: i32,
}

/// The class of the first window of `cs` on workspace `ws` that holds
/// focus.
pub open spec fn focused_class(cs: Seq<ClientInfo>, ws: i32) -> Option<Seq<char>>
    decreases cs.len(),
{
    if cs.len() == 0 {
        None
    } else if cs[0].workspace_id == ws && cs[0].focus_history_id == 0 {
        Some(cs[0].class@)
    } else {
        focused_class(cs.drop_first(), ws)
    }
}

/// The class of the first window of `cs` on workspace `ws`.
pub open spec fn first_class(cs: Seq<ClientInfo>, ws: i32) -> Option<Seq<char>>
    decreases cs.len(),
{
    if cs.len() == 0 {
        None
    } else if cs[0].workspace_id == ws {
        Some(cs[0].class@)
    } else {
        first_class(cs.drop_first(), ws)
    }
}

/// The focused window's class on `ws`, else the first window's; `None`
/// when the workspace is empty or that class is empty.
pub open spec fn focused_app_id(cs: Seq<ClientInfo>, ws: i32) -> Option<Seq<char>> {
    let c = match focused_class(cs, ws) {
        Some(x) => Some(x),
        None => first_class(cs, ws),
    };
    match c {
        Some(x) => if x.len() > 0 {
            Some(x)
        } else {
            None
        },
        None => None,
    }
}

/// Return the window class of the focused window on workspace
/// `target_ws`, or the first window's class if none on that
/// workspace currently holds focus. Returns `None` for an empty
/// workspace (or one whose chosen window reports an empty class).
pub fn focused_window_app_id(clients: &[ClientInfo], target_ws: i32) -> (r: Option<String>)
    ensures
        opt_str(r) == focused_app_id(clients@, target_ws),
{
    let pick = match find_client(clients, target_ws, true) {
        Some(k) => Some(k),
        None => find_client(clients, target_ws, false),
    };
    match pick {
        Some(k) => {
            if !clients[k].class.as_str().is_empty() {
                Some(clients[k].class.clone())
            } else {
                None
            }
        },
        None => None,
    }
}

/// The first window of `clients` on `ws` (that holds focus, when
/// `focused_only`).
fn find_client(clients: &[ClientInfo], ws: i32, focused_only: bool) -> (r: Option<usize>)
    ensures
        match r {
            Some(k) => k < clients@.len() && (if focused_only {
                focused_class(clients@, ws)
            } else {
                first_class(clients@, ws)
            }) == Some(clients@[k as int].class@),
            None => (if focused_only {
                focused_class(clients@, ws)
            } else {
                first_class(clients@, ws)
            }) is None,
        },
{
    let n = clients.len();
    let mut i: usize = 0;
    assert(clients@.subrange(0, n as int) =~= clients@);
    while i < n
        invariant
            n == clients.len(),
            i <= n,
            focused_only ==> focused_class(clients@, ws) == focused_class(
                clients@.subrange(i as int, n as int),
                ws,
            ),
            !focused_only ==> first_class(clients@, ws) == first_class(
                clients@.subrange(i as int, n as int),
                ws,
            ),
        decreases n - i,
    {
        let ghost rest = clients@.subrange(i as int, n as int);
        assert(rest.drop_first() =~= clients@.subrange(i + 1, n as int));
        assert(rest[0] == clients@[i as int]);
        if clients[i].workspace_id == ws && (!focused_only || clients[i].focus_history_id == 0) {
            return Some(i);
        }
        i += 1;
    }
    assert(clients@.subrange(n as int, n as int) =~= Seq::<ClientInfo>::empty());
    None
}

// ───────────────────────── naming ─────────────────────────

/// `": "`, the separator between a workspace's number and its label.
pub open spec fn sep() -> Seq<char> {
    seq![':', ' ']
}

/// The app ids a manifest groups.
pub open spec fn apps_of(m: TagManifest) -> Seq<Seq<char>> {
    strs(m.apps@)
}

/// The name of the first manifest of `ms` that lists `id` among its apps
/// and has a non-empty name.
pub open spec fn manifest_label(ms: Seq<TagManifest>, id: Seq<char>) -> Option<Seq<char>>
    decreases ms.len(),
{
    if ms.len() == 0 {
        None
    } else if apps_of(ms[0]).contains(id) && ms[0].name@.len() > 0 {
        Some(ms[0].name@)
    } else {
        manifest_label(ms.drop_first(), id)
    }
}

/// An optional manifest snapshot as a sequence.
pub open spec fn opt_manifests(m: Option<&[TagManifest]>) -> Option<Seq<TagManifest>> {
    match m {
        Some(s) => Some(s@),
        None => None,
    }
}

/// The preferred name of workspace `num` whose focused-or-first app id is
/// `app`: `"<num>"` without an app id; else `"<num>: <label>"`, where the
/// label is the name of the first manifest claiming the app, or the app
/// id itself.
pub open spec fn derived_name(num: int, app: Option<Seq<char>>, ms: Option<Seq<TagManifest>>) -> Seq<
    char,
> {
    match app {
        None => dec_int(num),
        Some(id) => if id.len() == 0 {
            dec_int(num)
        } else {
            let label = match ms {
                Some(l) => manifest_label(l, id),
                None => None,
            };
            dec_int(num) + sep() + match label {
                Some(name) => name,
                None => id,
            }
        },
    }
}

/// A name the namer itself writes for workspace `num`: exactly `"<num>"`,
/// or starting with `"<num>: "`.
pub open spec fn auto_derived(num: int, name: Seq<char>) -> bool {
    name == dec_int(num) || has_prefix(name, dec_int(num) + sep())
}

/// `true` when some app id of `apps` is `id`.
pub(crate) fn lists_app(apps: &Vec<String>, id: &str) -> (r: bool)
    ensures
        r == strs(apps@).contains(id@),
{
    let mut i: usize = 0;
    while i < apps.len()
        invariant
            i <= apps.len(),
            forall|j: int| 0 <= j < i ==> strs(apps@)[j] != id@,
        decreases apps.len() - i,
    {
        if string_eq(apps[i].as_str(), id) {
            assert(strs(apps@)[i as int] == id@);
            return true;
        }
        i += 1;
    }
    false
}

/// Produce the preferred name for a workspace whose number is `num`
/// and whose focused-or-first app_id is `app_id`, with no manifest
/// snapshot.
///
/// * `Some(non-empty)` → `"<num>: <app_id>"`
/// * `Some("")` or `None` → `"<num>"` (numeric-only, the empty state)
pub fn derive_workspace_name(num: i32, app_id: Option<&str>) -> (r: String)
    ensures
        r@ == derived_name(num as int, opt_strref(app_id), None),
{
    derive_workspace_name_with_manifests(num, app_id, None)
}

/// Same as [`derive_workspace_name`] but with an explicit tag-manifest
/// snapshot. Resolution precedence:
///
/// 1. the `name` of the first manifest whose `apps[]` lists the app id
///    and whose `name` is non-empty;
/// 2. the literal app id;
/// 3. numeric-only when the app id is `None` or empty.
pub fn derive_workspace_name_with_manifests(
    num: i32,
    app_id: Option<&str>,
    manifests: Option<&[TagManifest]>,
) -> (r: String)
    ensures
        r@ == derived_name(num as int, opt_strref(app_id), opt_manifests(manifests)),
{
    let numeric = fmt_i32(num);
    let id = match app_id {
        Some(s) => s,
        None => {
            return numeric;
        },
    };
    if id.is_empty() {
        return numeric;
    }
    let prefix = concat(numeric.as_str(), ": ");
    proof {
        reveal_strlit(": ");
        assert(": "@ =~= sep());
    }
    let label = match manifests {
        Some(ms) => manifest_label_of(ms, id),
        None => None,
    };
    match label {
        Some(name) => concat(prefix.as_str(), name.as_str()),
        None => concat(prefix.as_str(), id),
    }
}

/// The name of the first manifest of `ms` that claims app `id` and has a
/// non-empty name.
fn manifest_label_of(ms: &[TagManifest], id: &str) -> (r: Option<String>)
    ensures
        opt_str(r) == manifest_label(ms@, id@),
{
    let n = ms.len();
    let mut i: usize = 0;
    assert(ms@.subrange(0, n as int) =~= ms@);
    while i < n
        invariant
            n == ms.len(),
            i <= n,
            manifest_label(ms@, id@) == manifest_label(ms@.subrange(i as int, n as int), id@),
        decreases n - i,
    {
        let ghost rest = ms@.subrange(i as int, n as int);
        assert(rest.drop_first() =~= ms@.subrange(i + 1, n as int));
        assert(rest[0] == ms@[i as int]);
        if lists_app(&ms[i].apps, id) && !ms[i].name.as_str().is_empty() {
            return Some(ms[i].name.clone());
        }
        i += 1;
    }
    assert(ms@.subrange(n as int, n as int) =~= Seq::<TagManifest>::empty());
    None
}


/// `true` if `current_name` matches the pattern the namer writes
/// (`<num>` or `<num>: …`) and is therefore safe to overwrite. Other
/// names are operator-curated and preserved verbatim.
pub fn is_auto_derived(num: i32, current_name: &str) -> (r: bool)
    ensures
        r == auto_derived(num as int, current_name@),
{
    let numeric = fmt_i32(num);
    if string_eq(current_name, numeric.as_str()) {
        return true;
    }
    let prefix = concat(numeric.as_str(), ": ");
    proof {
        reveal_strlit(": ");
        assert(": "@ =~= sep());
    }
    let cv = chars_of(current_name);
    let pv = chars_of(prefix.as_str());
    starts_with(cv.as_slice(), pv.as_slice())
}

/// What one rename pass does for the active workspace `id` named `name`:
/// rename it to its preferred name, unless the current name is
/// operator-curated or already the preferred one.
pub open spec fn rename_plan(
    id: i32,
    name: Seq<char>,
    cs: Seq<ClientInfo>,
    ms: Option<Seq<TagManifest>>,
) -> Option<Seq<char>> {
    let desired = derived_name(id as int, focused_app_id(cs, id), ms);
    if !auto_derived(id as int, name) || name == desired {
        None
    } else {
        Some(desired)
    }
}

/// The decision of one rename pass against the active workspace
/// (`active_id`, `active_name`), the client list and the manifest
/// snapshot: `Some(new name)` when a rename should be dispatched.
pub fn plan_rename(
    active_id: i32,
    active_name: &str,
    clients: &[ClientInfo],
    manifests: Option<&[TagManifest]>,
) -> (r: Option<String>)
    ensures
        opt_str(r) == rename_plan(active_id, active_name@, clients@, opt_manifests(manifests)),
{
    let app_id = focused_window_app_id(clients, active_id);
    let desired = match &app_id {
        Some(a) => derive_workspace_name_with_manifests(active_id, Some(a.as_str()), manifests),
        None => derive_workspace_name_with_manifests(active_id, None, manifests),
    };
    if !is_auto_derived(active_id, active_name) {
        return None;
    }
    if string_eq(active_name, desired.as_str()) {
        return None;
    }
    Some(desired)
}

/// Every preferred name is one the namer may later overwrite: it is
/// auto-derived for its own workspace.
pub proof fn law_derived_name_is_auto(num: int, app: Option<Seq<char>>, ms: Option<Seq<TagManifest>>)
    ensures
        auto_derived(num, derived_name(num, app, ms)),
{
    let d = derived_name(num, app, ms);
    let p = dec_int(num) + sep();
    if d != dec_int(num) {
        assert(d.subrange(0, p.len() as int) =~= p);
    }
}

/// Operator-set names are never overwritten.
pub proof fn law_operator_names_kept(
    id: i32,
    name: Seq<char>,
    cs: Seq<ClientInfo>,
    ms: Option<Seq<TagManifest>>,
)
    requires
        !auto_derived(id as int, name),
    ensures
        rename_plan(id, name, cs, ms) is None,
{
}

/// Renaming converges: once a pass has renamed a workspace, a pass over
/// the same windows renames nothing.
pub proof fn law_rename_converges(
    id: i32,
    name: Seq<char>,
    cs: Seq<ClientInfo>,
    ms: Option<Seq<TagManifest>>,
)
    requires
        rename_plan(id, name, cs, ms) is Some,
    ensures
        rename_plan(id, rename_plan(id, name, cs, ms)->0, cs, ms) is None,
{
}

// ───────────────────────── debounce ─────────────────────────

/// Trailing-edge debounce window of the rename worker, in milliseconds.
pub const DEBOUNCE_WINDOW_MS: u64 = 200;

/// The compositor events the namer distinguishes.
#[derive(Debug, Clone, Copy, PartialEq, Eq, Structural)]
pub enum DesktopEvent {
    WindowOpened,
    WindowClosed,
    WindowMoved,
    ActiveWindowChanged,
    WorkspaceChanged,
    WorkspaceAdded,
    /// Layer surfaces, monitor add/remove, submap changes, …
    Other,
}

/// `true` for the events that can change a workspace's window set or
/// which window holds focus.
pub fn triggers_rename(ev: &DesktopEvent) -> (r: bool)
    ensures
        r == !(*ev is Other),
{
    match ev {
        DesktopEvent::Other => false,
        _ => true,
    }
}

/// What the namer's loop reacts to: a (re)connection to the compositor,
/// a compositor event, or a full debounce window of quiet while a rename
/// is pending.
#[derive(Debug, Clone, Copy, PartialEq, Eq, Structural)]
pub enum NamerInput {
    Connected,
    Event(DesktopEvent),
    QuietElapsed,
}

/// One step of the namer's loop: the new `pending` flag, and whether a
/// rename pass runs now. Every (re)connection runs one pass at once,
/// before any event, with nothing pending; an event that can change the
/// name arms the pass; a quiet window while armed runs it once.
pub fn namer_step(pending: bool, input: NamerInput) -> (r: (bool, bool))
    ensures
        match input {
            NamerInput::Connected => r == (false, true),
            NamerInput::Event(ev) => r == (pending || !(ev is Other), false),
            NamerInput::QuietElapsed => r == (false, pending),
        },
{
    match input {
        NamerInput::Connected => (false, true),
        NamerInput::Event(ev) => (pending || triggers_rename(&ev), false),
        NamerInput::QuietElapsed => (false, pending),
    }
}

// ───────────────────────── routing ─────────────────────────

/// Member `m` is workspace `ws`.
pub open spec fn member_is_ws(m: TagMember, ws: i32) -> bool {
    m matches TagMember::Workspace { num } && num == ws
}

/// Tag `t` owns workspace `ws`.
pub open spec fn owns(t: Tag, ws: i32) -> bool {
    exists|k: int| 0 <= k < t.members@.len() && member_is_ws(#[trigger] t.members@[k], ws)
}

/// `i` is the first tag of `tags` that owns `ws`.
pub open spec fn first_owner(tags: Seq<Tag>, ws: i32, i: int) -> bool {
    &&& 0 <= i < tags.len()
    &&& owns(tags[i], ws)
    &&& forall|j: int| 0 <= j < i ==> !owns(#[trigger] tags[j], ws)
}

/// The output the first manifest named `name` asks for, when it asks for
/// one that is not blank.
pub open spec fn manifest_output(ms: Seq<TagManifest>, name: Seq<char>) -> Option<Seq<char>>
    decreases ms.len(),
{
    if ms.len() == 0 {
        None
    } else if ms[0].name@ == name {
        match ms[0].output {
            Some(o) => if trim(o@).len() > 0 {
                Some(o@)
            } else {
                None
            },
            None => None,
        }
    } else {
        manifest_output(ms.drop_first(), name)
    }
}

/// The output workspace `ws` should live on: none without an owning tag;
/// else the owning tag's manifest output, or the tag's own preferred
/// output.
pub open spec fn preferred_output(tags: Seq<Tag>, ws: i32, ms: Option<Seq<TagManifest>>) -> Option<
    Seq<char>,
> {
    if exists|i: int| first_owner(tags, ws, i) {
        let t = tags[choose|i: int| first_owner(tags, ws, i)];
        let from_manifest = match ms {
            Some(l) => manifest_output(l, t.name@),
            None => None,
        };
        match from_manifest {
            Some(o) => Some(o),
            None => opt_str(t.preferred_output),
        }
    } else {
        None
    }
}

fn tag_owns(t: &Tag, ws: i32) -> (r: bool)
    ensures
        r == owns(*t, ws),
{
    let mut k: usize = 0;
    while k < t.members.len()
        invariant
            k <= t.members.len(),
            forall|j: int| 0 <= j < k ==> !member_is_ws(#[trigger] t.members@[j], ws),
        decreases t.members.len() - k,
    {
        match &t.members[k] {
            TagMember::Workspace { num } => {
                if *num == ws {
                    assert(member_is_ws(t.members@[k as int], ws));
                    return true;
                }
            },
            _ => {},
        }
        k += 1;
    }
    false
}

/// Find the tag that owns workspace number `ws_num` (one whose
/// `members` includes `TagMember::Workspace { num: ws_num }`).
/// Returns the first match in store order.
pub fn find_owning_tag(store: &TagStore, ws_num: i32) -> (r: Option<&Tag>)
    ensures
        r is None <==> !(exists|i: int| first_owner(store.tags@, ws_num, i)),
        r is Some ==> exists|i: int|
            first_owner(store.tags@, ws_num, i) && *(r->0) == store.tags@[i],
{
    let mut i: usize = 0;
    while i < store.tags.len()
        invariant
            i <= store.tags.len(),
            forall|j: int| 0 <= j < i ==> !owns(#[trigger] store.tags@[j], ws_num),
        decreases store.tags.len() - i,
    {
        if tag_owns(&store.tags[i], ws_num) {
            assert(first_owner(store.tags@, ws_num, i as int));
            return Some(&store.tags[i]);
        }
        i += 1;
    }
    proof {
        assert forall|k: int| !first_owner(store.tags@, ws_num, k) by {
            if 0 <= k < store.tags@.len() {
                assert(!owns(store.tags@[k], ws_num));
            }
        }
    }
    None
}

/// Only one tag can be the first owner of a workspace.
proof fn lemma_first_owner_unique(tags: Seq<Tag>, ws: i32, i: int, k: int)
    requires
        first_owner(tags, ws, i),
        first_owner(tags, ws, k),
    ensures
        i == k,
{
    if i < k {
        assert(!owns(tags[i], ws));
    } else if k < i {
        assert(!owns(tags[k], ws));
    }
}

/// Resolve the `preferred_output` for workspace number `ws_num`
/// from the tag store alone.
pub fn preferred_output_for_workspace(store: &TagStore, ws_num: i32) -> (r: Option<String>)
    ensures
        opt_str(r) == preferred_output(store.tags@, ws_num, None),
{
    preferred_output_for_workspace_with_manifests(store, ws_num, None)
}

/// Same as [`preferred_output_for_workspace`] but with an explicit
/// tag-manifest snapshot. Resolution precedence:
///
/// 1. the non-blank `output` of the first manifest named like the
///    owning tag;
/// 2. the owning tag's `preferred_output`;
/// 3. `None` — no owning tag.
pub fn preferred_output_for_workspace_with_manifests(
    store: &TagStore,
    ws_num: i32,
    manifests: Option<&[TagManifest]>,
) -> (r: Option<String>)
    ensures
        opt_str(r) == preferred_output(store.tags@, ws_num, opt_manifests(manifests)),
{
    let owning = match find_owning_tag(store, ws_num) {
        Some(t) => t,
        None => {
            return None;
        },
    };
    let ghost oi = choose|i: int| first_owner(store.tags@, ws_num, i) && *owning == store.tags@[i];
    proof {
        let c = choose|i: int| first_owner(store.tags@, ws_num, i);
        lemma_first_owner_unique(store.tags@, ws_num, oi, c);
    }
    let from_manifest = match manifests {
        Some(ms) => manifest_output_of(ms, owning.name.as_str()),
        None => None,
    };
    if from_manifest.is_some() {
        return from_manifest;
    }
    match &owning.preferred_output {
        Some(s) => Some(s.clone()),
        None => None,
    }
}

/// The non-blank output of the first manifest of `ms` named `name`.
fn manifest_output_of(ms: &[TagManifest], name: &str) -> (r: Option<String>)
    ensures
        opt_str(r) == manifest_output(ms@, name@),
{
    let n = ms.len();
    let mut i: usize = 0;
    assert(ms@.subrange(0, n as int) =~= ms@);
    while i < n
        invariant
            n == ms.len(),
            i <= n,
            manifest_output(ms@, name@) == manifest_output(ms@.subrange(i as int, n as int), name@),
        decreases n - i,
    {
        let ghost rest = ms@.subrange(i as int, n as int);
        assert(rest.drop_first() =~= ms@.subrange(i + 1, n as int));
        assert(rest[0] == ms@[i as int]);
        if string_eq(ms[i].name.as_str(), name) {
            return match &ms[i].output {
                Some(o) => {
                    let ov = chars_of(o.as_str());
                    let t = trim_chars(ov.as_slice());
                    if t.len() > 0 {
                        Some(o.clone())
                    } else {
                        None
                    }
                },
                None => None,
            };
        }
        i += 1;
    }
    assert(ms@.subrange(n as int, n as int) =~= Seq::<TagManifest>::empty());
    None
}

/// The output a newly created workspace `num` is moved to: none for the
/// special (non-positive) workspaces, else its preferred output.
pub fn init_target(store: &TagStore, num: i32, manifests: Option<&[TagManifest]>) -> (r: Option<
    String,
>)
    ensures
        num <= 0 ==> r is None,
        num > 0 ==> opt_str(r) == preferred_output(store.tags@, num, opt_manifests(manifests)),
{
    if num <= 0 {
        return None;
    }
    preferred_output_for_workspace_with_manifests(store, num, manifests)
}

// ───────────────────────── workers ─────────────────────────

/// The workspace namer; all its state lives in the loop that drives it.
pub struct WorkspaceNamerWorker;

impl WorkspaceNamerWorker {
    /// Construct a fresh worker.
    pub fn new() -> (r: Self) {
        WorkspaceNamerWorker
    }
}

/// The workspace router; all its state lives in the loop that drives it.
pub struct WorkspaceRouterWorker;

impl WorkspaceRouterWorker {
    /// Construct a fresh worker.
    pub fn new() -> (r: Self) {
        WorkspaceRouterWorker
    }
}

} // verus!
