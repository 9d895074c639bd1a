use mde_shell::top_bar::{
    seconds_until_next_minute, AppletKind, FallbackGeometry, TopBarState, TOP_BAR_HEIGHT_PX,
    ZONE_PADDING_X,
};

#[test]
fn top_bar_height_is_40px_per_1_1_0_lock() {
    assert_eq!(TOP_BAR_HEIGHT_PX, 40);
}

#[test]
fn zone_padding_is_symmetric_12px() {
    assert_eq!(ZONE_PADDING_X, 12);
}

#[test]
fn loading_state_populates_every_field() {
    let state = TopBarState::loading();
    assert!(!state.start_label.is_empty());
    assert!(!state.clock_text.is_empty());
    assert!(!state.audio_text.is_empty());
}

#[test]
fn set_applet_text_routes_to_correct_field() {
    let mut state = TopBarState::default();
    state.set_applet_text(AppletKind::Clock, "12:34".into());
    assert_eq!(state.clock_text, "12:34");
    state.set_applet_text(AppletKind::Audio, "🔈 50%".into());
    assert_eq!(state.audio_text, "🔈 50%");
    state.set_applet_text(AppletKind::Network, "Wi-Fi: home".into());
    assert_eq!(state.network_text, "Wi-Fi: home");
    state.set_applet_text(AppletKind::MeshStatus, "✓ 4".into());
    assert_eq!(state.mesh_text, "✓ 4");
    state.set_applet_text(AppletKind::StatusCluster, "⚡ 99%".into());
    assert_eq!(state.status_text, "⚡ 99%");
    state.set_applet_text(AppletKind::SwayCluster, "H def #1".into());
    assert_eq!(state.cluster_text, "H def #1");
    state.set_applet_text(AppletKind::Dock, "[▶ foot]".into());
    assert_eq!(state.dock_text, "[▶ foot]");
    state.set_applet_text(AppletKind::NotificationBell, "3".into());
    assert_eq!(state.bell_text, "3");
}

#[test]
fn demo_state_and_untouched_cells() {
    let mut state = TopBarState::demo();
    assert_eq!(state.clock_text, "11:42");
    assert_eq!(state.bell_text, "0");
    state.set_applet_text(AppletKind::Clock, "09:00".into());
    assert_eq!(state.clock_text, "09:00");
    assert_eq!(state.start_label, "M");
    assert_eq!(state.dock_text, "[▶ foot]");
    assert_eq!(TopBarState::loading().bell_text, "");
}

#[test]
fn clock_waits_for_next_minute() {
    assert_eq!(seconds_until_next_minute(0), 60);
    assert_eq!(seconds_until_next_minute(59), 1);
    assert_eq!(seconds_until_next_minute(60), 1);
    assert_eq!(seconds_until_next_minute(17), 43);
}

#[test]
fn fallback_geometry_is_full_hd() {
    let g = FallbackGeometry::default();
    assert_eq!((g.x, g.y, g.width, g.height), (0, 0, 1920, 1080));
}

#[test]
fn bell_label_falls_back_to_ring() {
    let mut state = TopBarState::loading();
    assert_eq!(state.bell_label(), "○");
    state.set_applet_text(AppletKind::NotificationBell, "2".into());
    assert_eq!(state.bell_label(), "2");
}
