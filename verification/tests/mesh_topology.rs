use mde_shell::mesh_topology::{
    fmt_age, parse_nodes, peer_rows, MeshTopologyPanel, Message, PeerRow, PeerStatus,
};

#[test]
fn peer_status_from_str_known_values() {
    assert_eq!(PeerStatus::from_str("online"), PeerStatus::Online);
    assert_eq!(PeerStatus::from_str("HEALTHY"), PeerStatus::Online);
    assert_eq!(PeerStatus::from_str("idle"), PeerStatus::Idle);
    assert_eq!(PeerStatus::from_str("degraded"), PeerStatus::Idle);
    assert_eq!(PeerStatus::from_str("offline"), PeerStatus::Offline);
    assert_eq!(PeerStatus::from_str("unreachable"), PeerStatus::Offline);
    assert_eq!(PeerStatus::from_str("???"), PeerStatus::Unknown);
}

#[test]
fn parse_nodes_decodes_array() {
    let raw = r#"[
        {"node_id": "peer:pine", "name": "pine", "public_key": "k1",
         "role": "peer", "health": "healthy", "region": "us-west"},
        {"node_id": "peer:birch", "name": "birch", "public_key": "k2",
         "role": "host", "health": "degraded", "region": null}
    ]"#;
    let rows = parse_nodes(raw);
    assert_eq!(rows.len(), 2);
    assert_eq!(rows[0].name, "birch");
    assert_eq!(rows[0].status, PeerStatus::Idle);
    assert_eq!(rows[0].addr, "—");
    assert_eq!(rows[1].name, "pine");
    assert_eq!(rows[1].status, PeerStatus::Online);
    assert_eq!(rows[1].addr, "us-west");
}

#[test]
fn parse_nodes_returns_empty_for_garbage() {
    assert!(parse_nodes("not json").is_empty());
    assert!(parse_nodes("").is_empty());
}

#[test]
fn parse_nodes_skips_entries_without_node_id() {
    let raw = r#"[{"name": "no-id-here"}]"#;
    assert!(parse_nodes(raw).is_empty());
}

#[test]
fn parse_nodes_defaults_and_stable_order() {
    let raw = r#"[{"node_id": "z"}, {"node_id": "b", "name": "same", "role": "first"},
                  {"node_id": "c", "name": "same", "role": "second"}, {"node_id": ""}]"#;
    let rows = parse_nodes(raw);
    assert_eq!(rows.len(), 3);
    assert_eq!(rows[0].kind, "first");
    assert_eq!(rows[1].kind, "second");
    assert_eq!(rows[2].name, "z");
    assert_eq!(rows[2].kind, "peer");
    assert_eq!(rows[2].status, PeerStatus::Unknown);
}

#[test]
fn peer_rows_from_decoded_fields() {
    let entries = vec![
        vec![Some("id-1".to_string()), None, Some("eu".to_string()), None, Some("Offline".to_string())],
        vec![None, Some("ghost".to_string())],
    ];
    let rows = peer_rows(&entries);
    assert_eq!(
        rows,
        vec![PeerRow {
            name: "id-1".into(),
            addr: "eu".into(),
            kind: "peer".into(),
            status: PeerStatus::Offline,
        }]
    );
    assert_eq!(PeerStatus::Online.label(), "ONLINE");
    assert_eq!(PeerStatus::Unknown.label(), "UNKNOWN");
}

#[test]
fn panel_refresh_cycle() {
    let mut p = MeshTopologyPanel::new();
    assert_eq!(p.subtitle(100), "click Refresh to probe");
    assert!(p.update(Message::RefreshClicked, 100));
    assert!(p.busy);
    let row = PeerRow { name: "pine".into(), addr: "us-west".into(), kind: "peer".into(), status: PeerStatus::Online };
    assert!(!p.update(Message::Loaded(Ok(vec![row])), 100));
    assert!(!p.busy);
    assert_eq!(p.subtitle(130), "1 peer · last refresh 30 s ago");
    assert!(!p.update(Message::Loaded(Err("mackesd not installed".into())), 200));
    assert!(p.peers.is_empty());
    assert_eq!(p.error.as_deref(), Some("mackesd not installed"));
    assert_eq!(p.subtitle(200 + 7200), "0 peers · last refresh 2 h ago");
}

#[test]
fn age_labels() {
    assert_eq!(fmt_age(100, 159), "59 s ago");
    assert_eq!(fmt_age(100, 160), "1 min ago");
    assert_eq!(fmt_age(0, 3599), "59 min ago");
    assert_eq!(fmt_age(0, 3600), "1 h ago");
    assert_eq!(fmt_age(10, 5), "—");
}

#[test]
fn refresh_label_and_empty_state() {
    let mut p = MeshTopologyPanel::new();
    assert_eq!(p.refresh_label(), "Refresh");
    assert!(p.empty_state().is_none());
    p.update(Message::RefreshClicked, 5);
    assert_eq!(p.refresh_label(), "Loading…");
    p.update(Message::Loaded(Ok(Vec::new())), 6);
    let (heading, _) = p.empty_state().expect("empty mesh card");
    assert_eq!(heading, "No peers enrolled");
    p.update(Message::Loaded(Err("boom".into())), 7);
    assert_eq!(p.empty_state(), Some(("Couldn't load peers".to_string(), "boom".to_string())));
}
