use mde_shell::watermark::{parse_count, parse_os_release_field, read_build_meta, WatermarkState};

#[test]
fn render_empty_when_no_pending_updates() {
    let state = WatermarkState::default();
    assert!(state.render_line().is_empty());
}

#[test]
fn render_includes_every_field_when_updates_pending() {
    let state = WatermarkState {
        mde_version: "2.0.3".into(),
        fedora_release: "44".into(),
        build_hash: Some("abc123".into()),
        build_date: Some("2026-05-22".into()),
        hostname: "lab-01".into(),
        pending_updates: 12,
    };
    let line = state.render_line();
    assert!(line.contains("MDE 2.0.3"));
    assert!(line.contains("abc123"));
    assert!(line.contains("Built 2026-05-22"));
    assert!(line.contains("Fedora 44"));
    assert!(line.contains("lab-01"));
    assert!(line.contains("12 updates pending"));
}

#[test]
fn render_omits_hash_when_unset() {
    let state = WatermarkState {
        mde_version: "2.0.3".into(),
        fedora_release: "44".into(),
        build_hash: None,
        build_date: None,
        hostname: "lab-01".into(),
        pending_updates: 1,
    };
    let line = state.render_line();
    assert!(!line.contains("·  ·"));
    assert!(line.starts_with("MDE 2.0.3 · Fedora 44"));
    assert!(!line.contains("Built"));
}

#[test]
fn render_includes_build_date_separately_from_hash() {
    let state = WatermarkState {
        mde_version: "2.0.3".into(),
        fedora_release: "44".into(),
        build_hash: Some("abc123".into()),
        build_date: Some("2026-05-22".into()),
        hostname: "lab-01".into(),
        pending_updates: 1,
    };
    let line = state.render_line();
    let hash_idx = line.find("abc123").expect("hash present");
    let date_idx = line.find("2026-05-22").expect("date present");
    let fedora_idx = line.find("Fedora").expect("fedora present");
    assert!(hash_idx < date_idx, "hash must come before date in {line}");
    assert!(date_idx < fedora_idx, "date must come before Fedora in {line}");
}

#[test]
fn render_handles_only_date_no_hash() {
    let state = WatermarkState {
        mde_version: "2.0.3".into(),
        fedora_release: "44".into(),
        build_hash: None,
        build_date: Some("2026-05-22".into()),
        hostname: "lab-01".into(),
        pending_updates: 1,
    };
    let line = state.render_line();
    assert!(line.contains("Built 2026-05-22"));
    assert!(line.starts_with("MDE 2.0.3 · Built 2026-05-22"));
}

#[test]
fn parse_os_release_extracts_field() {
    let content = r#"
NAME="Fedora Linux"
VERSION="44 (Workstation)"
VERSION_ID=44
PRETTY_NAME="Fedora Linux 44"
"#;
    assert_eq!(parse_os_release_field(content, "VERSION_ID"), Some("44".into()));
    assert_eq!(
        parse_os_release_field(content, "NAME"),
        Some("Fedora Linux".into())
    );
}

#[test]
fn parse_os_release_returns_none_for_missing_key() {
    let content = "NAME=Fedora\n";
    assert_eq!(parse_os_release_field(content, "MISSING"), None);
}

#[test]
fn load_does_not_panic() {
    // A system without any of the source files still yields a state.
    let state = WatermarkState::from_sources("2.0.3", None, None, &[None, None], &[None], None, None);
    assert_eq!(state.fedora_release, "");
    assert_eq!(state.hostname, "");
    assert_eq!(state.pending_updates, 0);
    assert_eq!(state.build_hash, None);
    assert!(state.render_line().is_empty());
}

#[test]
fn render_exact_line() {
    let state = WatermarkState {
        mde_version: "2.0.3".into(),
        fedora_release: "44".into(),
        build_hash: Some("abc123".into()),
        build_date: None,
        hostname: "lab-01".into(),
        pending_updates: 3,
    };
    assert_eq!(
        state.render_line(),
        "MDE 2.0.3 · abc123 · Fedora 44 · lab-01 · 3 updates pending"
    );
}

#[test]
fn build_meta_takes_first_non_blank_candidate() {
    assert_eq!(read_build_meta(&[None]), None);
    assert_eq!(
        read_build_meta(&[Some("   \n".into()), None, Some("2026-05-22\n".into())]),
        Some("2026-05-22".to_string())
    );
}

#[test]
fn count_file_parsing() {
    assert_eq!(parse_count("42\n"), 42);
    assert_eq!(parse_count("not a number"), 0);
    assert_eq!(parse_count("+7"), 7);
    assert_eq!(parse_count("-7"), 0);
    assert_eq!(parse_count(""), 0);
    assert_eq!(parse_count("4294967295"), 4294967295);
    assert_eq!(parse_count("4294967296"), 0);
}

#[test]
fn sources_feed_every_field() {
    let os = "NAME=\"Fedora Linux\"\nVERSION_ID=\"43\"\n";
    let state = WatermarkState::from_sources(
        "2.1.0",
        Some(os),
        None,
        &[Some("  ".into()), Some("deadbee\n".into())],
        &[Some("2026-01-02".into())],
        Some(" lab-02 \n"),
        Some("5"),
    );
    assert_eq!(state.fedora_release, "43");
    assert_eq!(state.build_hash.as_deref(), Some("deadbee"));
    assert_eq!(state.build_date.as_deref(), Some("2026-01-02"));
    assert_eq!(state.hostname, "lab-02");
    assert_eq!(state.pending_updates, 5);
    let env_wins = WatermarkState::from_sources("2.1.0", None, Some("live"), &[Some("file".into())], &[], None, None);
    assert_eq!(env_wins.build_hash.as_deref(), Some("live"));
}
