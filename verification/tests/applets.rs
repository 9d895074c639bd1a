use mde_shell::mesh_status::{format_chip as mesh_chip, health_glyph, HealthReport};
use mde_shell::network_applet::{format_chip, parse_active, type_glyph, ActiveConnection};

#[test]
fn health_glyph_maps_canonical_states() {
    assert_eq!(health_glyph("healthy"), "\u{25CF}");
    assert_eq!(health_glyph("degraded"), "\u{25D0}");
    assert_eq!(health_glyph("unreachable"), "\u{25CB}");
    assert_eq!(health_glyph("unknown"), "?");
    assert_eq!(health_glyph("anything-else"), "?");
}

#[test]
fn format_chip_renders_count_only() {
    let r = HealthReport {
        state: "healthy".into(),
        peer_count: 7,
    };
    let chip = mesh_chip(&r);
    assert_eq!(chip, "7");
    assert!(!chip.contains("\u{25CF}"));
}

#[test]
fn default_health_report_is_unknown() {
    let r = HealthReport::default();
    assert_eq!(r.state, "unknown");
    assert_eq!(r.peer_count, 0);
    assert_eq!(mesh_chip(&r), "0");
}

#[test]
fn parse_active_extracts_first_wifi_row() {
    let raw = "home-wifi:wifi:wlan0:activated\nwired:ethernet:eno1:activated\n";
    let c = parse_active(raw).unwrap();
    assert_eq!(c.name, "home-wifi");
    assert_eq!(c.kind, "wifi");
}

#[test]
fn parse_active_extracts_ethernet_when_no_wifi() {
    let raw = "wired:802-3-ethernet:eno1:activated\n";
    let c = parse_active(raw).unwrap();
    assert_eq!(c.kind, "802-3-ethernet");
}

#[test]
fn parse_active_skips_inactive_rows() {
    let raw = "home-wifi:wifi:wlan0:deactivated\nwork-vpn:vpn:tun0:activated\n";
    assert!(parse_active(raw).is_none());
}

#[test]
fn parse_active_returns_none_on_empty() {
    assert!(parse_active("").is_none());
}

#[test]
fn type_glyph_maps_wifi_and_ethernet() {
    assert_eq!(type_glyph("wifi"), "\u{25EF}");
    assert_eq!(type_glyph("ethernet"), "\u{2261}");
    assert_eq!(type_glyph("802-3-ethernet"), "\u{2261}");
    assert_eq!(type_glyph("vpn"), "?");
}

#[test]
fn format_chip_disconnected_when_none() {
    assert_eq!(format_chip(None), "Disconnected");
}

#[test]
fn format_chip_combines_glyph_and_name() {
    let c = ActiveConnection {
        name: "home-wifi".into(),
        kind: "wifi".into(),
    };
    let chip = format_chip(Some(&c));
    assert!(chip.contains("home-wifi"));
    assert!(chip.contains("\u{25EF}"));
}
