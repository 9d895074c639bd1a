use mde_shell::app_switcher::{
    card_caption, collect_windows, grid_rows, parse_tree, truncate_for_card, App, Message, SwayNode,
    SwitcherAction, WindowCard,
};

fn container(name: &str, nodes: Vec<SwayNode>, floating: Vec<SwayNode>) -> SwayNode {
    SwayNode {
        name: Some(name.to_string()),
        has_pid: false,
        id: None,
        app_id: None,
        window_class: None,
        nodes,
        floating_nodes: floating,
    }
}

fn window(id: u64, app_id: Option<&str>, class: Option<&str>, name: &str) -> SwayNode {
    SwayNode {
        name: Some(name.to_string()),
        has_pid: true,
        id: Some(id),
        app_id: app_id.map(|s| s.to_string()),
        window_class: class.map(|s| s.to_string()),
        nodes: Vec::new(),
        floating_nodes: Vec::new(),
    }
}

fn root(nodes: Vec<SwayNode>) -> SwayNode {
    SwayNode {
        name: None,
        has_pid: false,
        id: None,
        app_id: None,
        window_class: None,
        nodes,
        floating_nodes: Vec::new(),
    }
}

#[test]
fn parse_tree_collects_window_with_pid() {
    let raw = r#"{
        "nodes": [{
            "name": "workspace 1",
            "nodes": [
                {"id": 7, "pid": 1234, "app_id": "foot", "name": "shell",
                 "nodes": [], "floating_nodes": []}
            ],
            "floating_nodes": []
        }]
    }"#;
    let cards = parse_tree(raw);
    assert_eq!(cards.len(), 1);
    assert_eq!(cards[0].con_id, 7);
    assert_eq!(cards[0].app_id, "foot");
    assert_eq!(cards[0].title, "shell");
}

#[test]
fn parse_tree_skips_scratchpad_windows() {
    let raw = r#"{
        "nodes": [
            {
                "name": "__i3_scratch",
                "nodes": [],
                "floating_nodes": [
                    {"id": 1, "pid": 100, "app_id": "foot", "name": "hidden",
                     "nodes": [], "floating_nodes": []}
                ]
            },
            {
                "name": "workspace 1",
                "nodes": [
                    {"id": 2, "pid": 101, "app_id": "firefox", "name": "fox",
                     "nodes": [], "floating_nodes": []}
                ],
                "floating_nodes": []
            }
        ]
    }"#;
    let cards = parse_tree(raw);
    assert_eq!(cards.len(), 1);
    assert_eq!(cards[0].app_id, "firefox");
}

#[test]
fn parse_tree_handles_xwayland_window_properties_class() {
    let raw = r#"{
        "nodes": [{
            "name": "workspace 1",
            "nodes": [
                {"id": 9, "pid": 200, "name": "Gimp",
                 "window_properties": {"class": "Gimp-2.10"},
                 "nodes": [], "floating_nodes": []}
            ],
            "floating_nodes": []
        }]
    }"#;
    let cards = parse_tree(raw);
    assert_eq!(cards[0].app_id, "Gimp-2.10");
}

#[test]
fn parse_tree_returns_empty_for_garbage() {
    assert!(parse_tree("not json").is_empty());
    assert!(parse_tree("").is_empty());
}

#[test]
fn parse_tree_skips_nodes_without_pid() {
    let raw = r#"{
        "nodes": [{
            "name": "workspace 1",
            "nodes": [],
            "floating_nodes": []
        }]
    }"#;
    assert!(parse_tree(raw).is_empty());
}

#[test]
fn tree_walk_over_built_nodes() {
    let tree = root(vec![
        container("__i3_scratch", vec![], vec![window(1, Some("foot"), None, "hidden")]),
        container("workspace 1", vec![window(2, Some("firefox"), None, "fox")], vec![]),
    ]);
    let cards = collect_windows(&tree);
    assert_eq!(cards.len(), 1);
    assert_eq!(cards[0].app_id, "firefox");
    let null_pid = r#"{"nodes": [{"id": 3, "pid": null, "app_id": "x", "name": "x"}]}"#;
    assert!(parse_tree(null_pid).is_empty());
}

#[test]
fn next_wraps_at_end() {
    let mut app = App {
        cards: vec![
            WindowCard { con_id: 1, app_id: "a".into(), title: "A".into() },
            WindowCard { con_id: 2, app_id: "b".into(), title: "B".into() },
        ],
        selected: 1,
    };
    let _ = app.update(Message::Next);
    assert_eq!(app.selected, 0);
}

#[test]
fn prev_wraps_at_start() {
    let mut app = App {
        cards: vec![
            WindowCard { con_id: 1, app_id: "a".into(), title: "A".into() },
            WindowCard { con_id: 2, app_id: "b".into(), title: "B".into() },
        ],
        selected: 0,
    };
    let _ = app.update(Message::Prev);
    assert_eq!(app.selected, 1);
}

#[test]
fn default_selection_is_second_card_for_alt_tab_idiom() {
    let app = App::with_cards(Vec::new());
    assert_eq!(app.selected, 0);
    assert_eq!(app.placeholder(), Some("No windows"));
    let cards = vec![
        WindowCard { con_id: 1, app_id: "a".into(), title: "A".into() },
        WindowCard { con_id: 2, app_id: "b".into(), title: "B".into() },
        WindowCard { con_id: 3, app_id: "c".into(), title: "C".into() },
    ];
    let app = App::with_cards(cards);
    assert_eq!(app.selected, 1);
}

#[test]
fn truncate_handles_short_titles() {
    assert_eq!(truncate_for_card("hello"), "hello");
}

#[test]
fn truncate_caps_long_titles() {
    let long = "this is a really long window title that exceeds the cap";
    let t = truncate_for_card(long);
    assert!(t.chars().count() <= 22);
    assert!(t.ends_with('…'));
}

#[test]
fn truncate_keeps_first_line_and_exact_cap() {
    assert_eq!(truncate_for_card("line one\nline two"), "line one");
    assert_eq!(truncate_for_card(""), "");
    let exactly = "abcdefghijklmnopqrstuv";
    assert_eq!(truncate_for_card(exactly), exactly);
    assert_eq!(truncate_for_card("abcdefghijklmnopqrstuvw"), "abcdefghijklmnopqrstu…");
}

#[test]
fn commit_select_and_cancel_close_the_switcher() {
    let mut app = App::with_cards(vec![
        WindowCard { con_id: 10, app_id: "a".into(), title: "A".into() },
        WindowCard { con_id: 20, app_id: "b".into(), title: "B".into() },
    ]);
    assert_eq!(app.update(Message::Commit), SwitcherAction::Close(Some(20)));
    assert_eq!(app.update(Message::Select(0)), SwitcherAction::Close(Some(10)));
    assert_eq!(app.selected, 0);
    assert_eq!(app.update(Message::Select(5)), SwitcherAction::Stay);
    assert_eq!(app.update(Message::Cancel), SwitcherAction::Close(None));
    // Tab then Shift+Tab comes back.
    let _ = app.update(Message::Next);
    let _ = app.update(Message::Prev);
    assert_eq!(app.selected, 0);
    let mut empty = App::with_cards(Vec::new());
    assert_eq!(empty.update(Message::Commit), SwitcherAction::Close(None));
    assert_eq!(empty.update(Message::Next), SwitcherAction::Stay);
    empty.selected = usize::MAX;
    assert_eq!(empty.update(Message::Next), SwitcherAction::Stay);
    assert_eq!(empty.selected, usize::MAX);
}

#[test]
fn windows_with_zero_id_or_inside_scratch_are_skipped() {
    let mut scratch_child = container("__i3_scratch", vec![], vec![]);
    scratch_child.nodes.push(container("deep", vec![window(3, Some("x"), None, "x")], vec![]));
    let tree = root(vec![
        container("ws", vec![window(0, Some("zero"), None, "z"), window(4, None, None, "t")], vec![]),
        scratch_child,
    ]);
    let cards = collect_windows(&tree);
    assert_eq!(cards.len(), 1);
    assert_eq!(cards[0].con_id, 4);
    assert_eq!(cards[0].app_id, "");
}

#[test]
fn header_caption_and_grid() {
    let app = App::with_cards(vec![
        WindowCard { con_id: 1, app_id: "foot".into(), title: "shell\nsecond".into() },
        WindowCard { con_id: 2, app_id: "firefox".into(), title: "".into() },
    ]);
    assert_eq!(app.header(), "2 of 2: ");
    let first = App { cards: app.cards.clone(), selected: 0 };
    assert_eq!(first.header(), "1 of 2: shell");
    assert_eq!(card_caption(&app.cards[1]), "firefox");
    assert_eq!(card_caption(&app.cards[0]), "shell");
    assert_eq!(grid_rows(0), vec![]);
    assert_eq!(grid_rows(3), vec![(0, 3)]);
    assert_eq!(grid_rows(7), vec![(0, 3), (3, 6), (6, 7)]);
}
