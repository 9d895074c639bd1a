use mde_shell::session::{
    accept_snapshot, restore_moves, snapshot_of_workspaces, SessionPersistWorker, SessionSnapshot, WorkspaceInfo,
    WorkspaceSnapshot, DEFAULT_LAYOUT, SCHEMA_VERSION,
};

#[test]
fn snapshot_layout_is_mde_sentinel() {
    assert_eq!(DEFAULT_LAYOUT, "mde");
}

fn ws(id: i32, name: &str, monitor: &str) -> WorkspaceInfo {
    WorkspaceInfo { id, name: name.to_string(), monitor: monitor.to_string() }
}

#[test]
fn snapshot_skips_special_workspaces() {
    let snap = snapshot_of_workspaces(&[ws(1, "1: firefox", "HDMI-A-1"), ws(-98, "special", "eDP-1"), ws(2, "2", "eDP-1")]);
    assert_eq!(snap.schema_version, SCHEMA_VERSION);
    assert_eq!(
        snap.workspaces,
        vec![
            WorkspaceSnapshot { workspace_num: 1, name: "1: firefox".into(), output: "HDMI-A-1".into(), layout: "mde".into() },
            WorkspaceSnapshot { workspace_num: 2, name: "2".into(), output: "eDP-1".into(), layout: "mde".into() },
        ]
    );
}

#[test]
fn restore_skips_parked_special_and_unplaced_workspaces() {
    let snap = SessionSnapshot {
        schema_version: SCHEMA_VERSION,
        workspaces: vec![
            WorkspaceSnapshot { workspace_num: 1, name: "1".into(), output: "HDMI-A-1".into(), layout: "splith".into() },
            WorkspaceSnapshot { workspace_num: 99, name: "99".into(), output: "HDMI-A-1".into(), layout: "mde".into() },
            WorkspaceSnapshot { workspace_num: -1, name: "s".into(), output: "HDMI-A-1".into(), layout: "mde".into() },
            WorkspaceSnapshot { workspace_num: 3, name: "3".into(), output: "".into(), layout: "mde".into() },
            WorkspaceSnapshot { workspace_num: 2, name: "2".into(), output: "eDP-1".into(), layout: "tabbed".into() },
        ],
    };
    assert_eq!(restore_moves(&snap), vec![(1, "HDMI-A-1".to_string()), (2, "eDP-1".to_string())]);
    assert!(restore_moves(&SessionSnapshot::default()).is_empty());
}

#[test]
fn restore_runs_once_per_worker() {
    let mut w = SessionPersistWorker::new();
    assert!(w.begin_session());
    assert!(!w.begin_session());
    let snap = snapshot_of_workspaces(&[ws(4, "4", "DP-1"), ws(99, "99", "DP-1")]);
    assert_eq!(restore_moves(&snap), vec![(4, "DP-1".to_string())]);
}

#[test]
fn newer_schema_snapshots_are_refused() {
    let current = SessionSnapshot::default();
    assert_eq!(accept_snapshot(current.clone()), Some(current));
    let old = SessionSnapshot { schema_version: 0, workspaces: Vec::new() };
    assert!(accept_snapshot(old).is_some());
    let newer = SessionSnapshot { schema_version: SCHEMA_VERSION + 1, workspaces: Vec::new() };
    assert_eq!(accept_snapshot(newer), None);
}
