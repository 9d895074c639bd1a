//! Session restore: the workspace structure (number, name, output,
//! layout) recorded from the compositor, and which workspaces a restore
//! pins back to their outputs.
use vstd::prelude::*;
use vstd::string::*;

verus! {

/// Schema version for the session snapshot file.
pub const SCHEMA_VERSION: u32 = 1;

/// Layout recorded for every workspace: the compositor has no
/// per-workspace layout, so this is the global layout's name.
pub const DEFAULT_LAYOUT: &'static str = "mde";

/// Workspace number of the parked workspace, an ephemeral platform slot
/// that a restore leaves alone.
pub const PARKED_WORKSPACE: i32 = 99;

/// One workspace's structural state.
#[derive(Debug, Clone, PartialEq, Eq)]
pub struct WorkspaceSnapshot {
    /// Workspace number.
    pub workspace_num: i32,
    /// Workspace name as displayed.
    pub name: String,
    /// Output the workspace lives on (e.g. `HDMI-A-1`).
    pub output: String,
    /// Container layout (always [`DEFAULT_LAYOUT`] when recorded here).
    pub layout: String,
}

/// Top-level session snapshot: the workspaces, with a schema version.
#[derive(Debug, Clone, PartialEq, Eq)]
pub struct SessionSnapshot {
    pub schema_version: u32,
    pub workspaces: Vec<WorkspaceSnapshot>,
}

impl Default for SessionSnapshot {
    fn default() -> (r: Self)
        ensures
            r.schema_version == SCHEMA_VERSION,
            r.workspaces@.len() == 0,
    {
        SessionSnapshot { schema_version: SCHEMA_VERSION, workspaces: Vec::new() }
    }
}

/// Readers refuse snapshots of a newer schema than they know and accept
/// the current and older ones (whose missing fields take defaults):
/// `Some(snap)` exactly when `snap` is of a known schema.
pub fn accept_snapshot(snap: SessionSnapshot) -> (r: Option<SessionSnapshot>)
    ensures
        r is Some <==> snap.schema_version <= SCHEMA_VERSION,
        r matches Some(x) ==> x == snap,
{
    if snap.schema_version <= SCHEMA_VERSION {
        Some(snap)
    } else {
        None
    }
}

/// One workspace as the compositor lists it.
#[derive(Debug, Clone, PartialEq, Eq)]
pub struct WorkspaceInfo {
    /// Workspace id; negative for special workspaces (scratchpad, …).
    pub id: i32,
    pub name: String,
    /// The monitor the workspace is on.
    pub monitor: String,
}

/// What a recorded workspace holds: number, name, output, layout.
pub type WsView = (i32, Seq<char>, Seq<char>, Seq<char>);

pub open spec fn ws_view(w: WorkspaceSnapshot) -> WsView {
    (w.workspace_num, w.name@, w.output@, w.layout@)
}

pub open spec fn ws_views(ws: Seq<WorkspaceSnapshot>) -> Seq<WsView> {
    ws.map_values(|w: WorkspaceSnapshot| ws_view(w))
}

/// The recorded workspaces of a compositor listing: every workspace with
/// a non-negative id, in listing order, with the default layout.
pub open spec fn recorded(ws: Seq<WorkspaceInfo>) -> Seq<WsView>
    decreases ws.len(),
{
    if ws.len() == 0 {
        Seq::empty()
    } else {
        recorded(ws.drop_last()) + if ws.last().id >= 0 {
            seq![(ws.last().id, ws.last().name@, ws.last().monitor@, DEFAULT_LAYOUT@)]
        } else {
            Seq::empty()
        }
    }
}

/// Build a snapshot from the compositor's workspace listing, skipping the
/// special (negative-id) workspaces.
pub fn snapshot_of_workspaces(workspaces: &[WorkspaceInfo]) -> (r: SessionSnapshot)
    ensures
        r.schema_version == SCHEMA_VERSION,
        ws_views(r.workspaces@) == recorded(workspaces@),
{
    let mut out = SessionSnapshot::default();
    let mut i: usize = 0;
    assert(ws_views(out.workspaces@) =~= recorded(workspaces@.take(0)));
    while i < workspaces.len()
        invariant
            i <= workspaces.len(),
            out.schema_version == SCHEMA_VERSION,
            ws_views(out.workspaces@) == recorded(workspaces@.take(i as int)),
        decreases workspaces.len() - i,
    {
        let ghost prev = workspaces@.take(i as int);
        assert(workspaces@.take(i + 1).drop_last() =~= prev);
        assert(workspaces@.take(i + 1).last() == workspaces@[i as int]);
        let w = &workspaces[i];
        if w.id >= 0 {
            let ghost before = ws_views(out.workspaces@);
            out.workspaces.push(
                WorkspaceSnapshot {
                    workspace_num: w.id,
                    name: w.name.clone(),
                    output: w.monitor.clone(),
                    layout: String::from_str(DEFAULT_LAYOUT),
                },
            );
            assert(ws_views(out.workspaces@) =~= before.push(
                (w.id, w.name@, w.monitor@, DEFAULT_LAYOUT@),
            ));
        } else {
            assert(recorded(workspaces@.take(i + 1)) =~= recorded(prev));
        }
        i += 1;
    }
    assert(workspaces@.take(workspaces.len() as int) =~= workspaces@);
    out
}

/// A recorded workspace a restore pins to its output: a real, not parked
/// workspace with a known output.
pub open spec fn restorable(num: i32, output: Seq<char>) -> bool {
    num != PARKED_WORKSPACE && num >= 0 && output.len() > 0
}

/// The moves a restore makes: each restorable workspace, to its output,
/// in snapshot order.
pub open spec fn restore_moves_spec(ws: Seq<WsView>) -> Seq<(i32, Seq<char>)>
    decreases ws.len(),
{
    if ws.len() == 0 {
        Seq::empty()
    } else {
        restore_moves_spec(ws.drop_last()) + if restorable(ws.last().0, ws.last().2) {
            seq![(ws.last().0, ws.last().2)]
        } else {
            Seq::empty()
        }
    }
}

pub open spec fn move_views(v: Seq<(i32, String)>) -> Seq<(i32, Seq<char>)> {
    v.map_values(|m: (i32, String)| (m.0, m.1@))
}

/// The (workspace, output) moves that restoring `snap` dispatches.
pub fn restore_moves(snap: &SessionSnapshot) -> (r: Vec<(i32, String)>)
    ensures
        move_views(r@) == restore_moves_spec(ws_views(snap.workspaces@)),
{
    let ghost ws = ws_views(snap.workspaces@);
    let mut out: Vec<(i32, String)> = Vec::new();
    let mut i: usize = 0;
    assert(move_views(out@) =~= restore_moves_spec(ws.take(0)));
    while i < snap.workspaces.len()
        invariant
            i <= snap.workspaces.len(),
            ws == ws_views(snap.workspaces@),
            move_views(out@) == restore_moves_spec(ws.take(i as int)),
        decreases snap.workspaces.len() - i,
    {
        let ghost prev = ws.take(i as int);
        assert(ws.take(i + 1).drop_last() =~= prev);
        assert(ws.take(i + 1).last() == ws[i as int]);
        let w = &snap.workspaces[i];
        if w.workspace_num != PARKED_WORKSPACE && w.workspace_num >= 0
            && !w.output.as_str().is_empty() {
            let ghost before = move_views(out@);
            out.push((w.workspace_num, w.output.clone()));
            assert(move_views(out@) =~= before.push((w.workspace_num, w.output@)));
        } else {
            assert(restore_moves_spec(ws.take(i + 1)) =~= restore_moves_spec(prev));
        }
        i += 1;
    }
    assert(ws.take(snap.workspaces.len() as int) =~= ws);
    out
}

/// The moves that restoring the snapshot of a listing makes, read off
/// the listing directly.
pub open spec fn listing_moves(ws: Seq<WorkspaceInfo>) -> Seq<(i32, Seq<char>)>
    decreases ws.len(),
{
    if ws.len() == 0 {
        Seq::empty()
    } else {
        listing_moves(ws.drop_last()) + if restorable(ws.last().id, ws.last().monitor@) {
            seq![(ws.last().id, ws.last().monitor@)]
        } else {
            Seq::empty()
        }
    }
}

/// Restoring a recorded session pins every workspace of the recorded
/// listing that is real, not parked and on a known monitor to that
/// monitor, in listing order, and nothing else.
pub proof fn law_restore_pins_recorded_outputs(ws: Seq<WorkspaceInfo>)
    ensures
        restore_moves_spec(recorded(ws)) == listing_moves(ws),
    decreases ws.len(),
{
    if ws.len() > 0 {
        law_restore_pins_recorded_outputs(ws.drop_last());
        let r0 = recorded(ws.drop_last());
        let w = ws.last();
        if w.id >= 0 {
            let e = (w.id, w.name@, w.monitor@, DEFAULT_LAYOUT@);
            assert(recorded(ws) == r0.push(e));
            assert(r0.push(e).drop_last() =~= r0);
        } else {
            assert(recorded(ws) =~= r0);
        }
    }
}

/// Session-persist worker state: whether the one restore pass of this
/// daemon lifetime has been made.
pub struct SessionPersistWorker {
    restored: bool,
}

impl SessionPersistWorker {
    /// A fresh worker, restore pending.
    pub fn new() -> (r: Self)
        ensures
            !r.restored(),
    {
        SessionPersistWorker { restored: false }
    }

    /// The restore pass has been made.
    pub closed spec fn restored(&self) -> bool {
        self.restored
    }

    /// Called when the worker (re)connects: `true` exactly the first time,
    /// when the restore pass should run; later reconnects keep the live
    /// session.
    pub fn begin_session(&mut self) -> (restore_now: bool)
        ensures
            restore_now == !old(self).restored(),
            final(self).restored(),
    {
        let first = !self.restored;
        self.restored = true;
        first
    }
}

} // verus!
