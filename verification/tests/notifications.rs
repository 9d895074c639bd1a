use std::collections::HashSet;

use mde_shell::notifications::{
    clear_all_shown, empty_list_text, group_label, muted_from_entries, muted_line, parse_mutes, row_body, row_title,
    serialize_mutes, shown_rows, toggle_mute, total_label, total_rows, visible_groups, HEIGHT,
    MAX_ROWS_PER_GROUP, WIDTH,
};

#[test]
fn dimensions_pinned_for_visual_consistency() {
    assert_eq!(WIDTH, 480);
    assert_eq!(HEIGHT, 600);
}

#[test]
fn parse_mutes_decodes_known_shape() {
    let raw = r#"
        [muted]
        "pine.mesh" = true
        "birch.mesh" = true
        "oak.mesh" = false
    "#;
    let muted = parse_mutes(raw);
    assert_eq!(muted.len(), 2);
    assert!(muted.contains(&"pine.mesh".to_string()));
    assert!(muted.contains(&"birch.mesh".to_string()));
    assert!(!muted.contains(&"oak.mesh".to_string()));
}

#[test]
fn parse_mutes_returns_empty_for_garbage() {
    assert!(parse_mutes("not toml").is_empty());
}

#[test]
fn serialize_mutes_round_trips_through_parse() {
    let m: Vec<String> = vec!["pine.mesh".into(), "birch.mesh".into()];
    let raw = serialize_mutes(&m);
    let back = parse_mutes(&raw);
    let back: HashSet<String> = back.into_iter().collect();
    let m: HashSet<String> = m.into_iter().collect();
    assert_eq!(back, m);
}

#[test]
fn serialize_mutes_handles_peers_with_quotes_in_name() {
    let m: Vec<String> = vec![r#"odd"name"#.to_string()];
    let raw = serialize_mutes(&m);
    let back = parse_mutes(&raw);
    let back: HashSet<String> = back.into_iter().collect();
    let m: HashSet<String> = m.into_iter().collect();
    assert_eq!(back, m);
}

#[test]
fn serialize_mutes_exact_text() {
    let m: Vec<String> = vec!["pine".into(), "a\\b".into(), "pine".into()];
    assert_eq!(
        serialize_mutes(&m),
        "# mde-popover-notifications mute state — BUG-8.b\n[muted]\n\"a\\\\b\" = true\n\"pine\" = true\n"
    );
    assert_eq!(
        serialize_mutes(&Vec::new()),
        "# mde-popover-notifications mute state — BUG-8.b\n[muted]\n"
    );
}

#[test]
fn parse_mutes_is_sorted_and_ignores_other_tables() {
    let raw = "[other]\n\"x\" = true\n[muted]\n\"zeta\" = true\n\"alpha\" = true\n\"n\" = 1\n";
    assert_eq!(parse_mutes(raw), vec!["alpha", "zeta"]);
    assert!(parse_mutes("[muted]\n").is_empty());
    assert!(parse_mutes("muted = 3\n").is_empty());
}

#[test]
fn toggle_mute_twice_restores() {
    let mut muted: Vec<String> = vec!["pine".into()];
    assert!(toggle_mute(&mut muted, "oak"));
    assert!(muted.contains(&"oak".to_string()));
    assert!(!toggle_mute(&mut muted, "oak"));
    assert_eq!(muted, vec!["pine"]);
    assert!(!toggle_mute(&mut muted, "pine"));
    assert!(muted.is_empty());
}

#[test]
fn muted_peers_groups_are_hidden() {
    let groups = vec![
        ("pine".to_string(), vec![1, 2]),
        ("oak".to_string(), vec![3]),
        ("birch".to_string(), vec![]),
    ];
    let muted = vec!["oak".to_string()];
    let shown = visible_groups(groups, &muted);
    assert_eq!(shown, vec![("pine".to_string(), vec![1, 2]), ("birch".to_string(), vec![])]);
}

#[test]
fn list_texts() {
    assert_eq!(group_label(""), "Local");
    assert_eq!(group_label("pine"), "pine");
    let groups = vec![("a".to_string(), vec![1, 2, 3]), ("b".to_string(), vec![4])];
    assert_eq!(total_rows(&groups), 4);
    assert_eq!(total_rows::<u8>(&Vec::new()), 0);
    assert_eq!(muted_line(&Vec::new()), None);
    let muted = vec!["pine".to_string(), "birch".to_string(), "pine".to_string()];
    assert_eq!(muted_line(&muted).as_deref(), Some("Muted: birch, pine"));
    assert_eq!(MAX_ROWS_PER_GROUP, 40);
}

#[test]
fn list_view_decisions() {
    assert_eq!(shown_rows(3), 3);
    assert_eq!(shown_rows(40), 40);
    assert_eq!(shown_rows(41), 40);
    assert_eq!(total_label(7), "7 total");
    assert_eq!(empty_list_text(0), Some("No notifications"));
    assert_eq!(empty_list_text(2), None);
    assert!(!clear_all_shown(0));
    assert!(clear_all_shown(1));
    assert_eq!(row_title(true, false, "Call"), "📱 Call");
    assert_eq!(row_title(false, false, "Mail"), "• Mail");
    assert_eq!(row_title(false, true, "Old"), "  Old");
    let long: String = "é".repeat(130);
    assert_eq!(row_body(&long).chars().count(), 120);
    assert_eq!(row_body("short"), "short");
}

#[test]
fn muted_entries_read_back_as_the_muted_set() {
    let entries = vec![
        ("pine.mesh".to_string(), Some(true)),
        ("oak.mesh".to_string(), Some(false)),
        ("birch.mesh".to_string(), Some(true)),
        ("elm.mesh".to_string(), None),
        ("pine.mesh".to_string(), Some(true)),
    ];
    assert_eq!(muted_from_entries(&entries), vec!["birch.mesh", "pine.mesh"]);
    assert!(muted_from_entries(&Vec::new()).is_empty());
}
