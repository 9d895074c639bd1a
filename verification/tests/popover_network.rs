use mde_shell::popover_network::{
    active_detail, device_detail, device_title, nmcli_split, parse_active_connections,
    parse_devices, subtitle,
};

#[test]
fn parse_active_round_trips_wired() {
    let raw = "Wired connection 1:enp0s31f6:ethernet:activated\n";
    let parsed = parse_active_connections(raw);
    assert_eq!(parsed.len(), 1);
    assert_eq!(parsed[0].name, "Wired connection 1");
    assert_eq!(parsed[0].interface, "enp0s31f6");
    assert_eq!(parsed[0].conn_type, "ethernet");
    assert_eq!(parsed[0].state, "activated");
}

#[test]
fn parse_active_handles_wifi_with_colons_in_ssid() {
    let raw = "Café\\:test:wlp2s0:wifi:activated";
    let parsed = parse_active_connections(raw);
    assert_eq!(parsed.len(), 1);
    assert_eq!(parsed[0].name, "Café:test");
    assert_eq!(parsed[0].interface, "wlp2s0");
}

#[test]
fn parse_active_ignores_empty_lines() {
    let raw = "\n\nWired:eth0:ethernet:activated\n\n";
    let parsed = parse_active_connections(raw);
    assert_eq!(parsed.len(), 1);
}

#[test]
fn parse_active_ignores_short_rows() {
    let raw = "only-two:fields\n";
    assert!(parse_active_connections(raw).is_empty());
}

#[test]
fn parse_devices_filters_loopback() {
    let raw = "enp0s31f6:ethernet:connected:Wired connection 1\nlo:loopback:unmanaged:--\n";
    let devs = parse_devices(raw);
    assert_eq!(devs.len(), 1);
    assert_eq!(devs[0].interface, "enp0s31f6");
}

#[test]
fn parse_devices_replaces_dash_connection_with_empty() {
    let raw = "wlp2s0:wifi:disconnected:--\n";
    let devs = parse_devices(raw);
    assert_eq!(devs[0].connection, "");
}

#[test]
fn parse_devices_filters_p2p_helpers() {
    let raw = "wlp2s0:wifi:connected:home\np2p-dev-wlp2s0:wifi-p2p:disconnected:--\n";
    let devs = parse_devices(raw);
    assert_eq!(devs.len(), 1);
    assert_eq!(devs[0].interface, "wlp2s0");
}

#[test]
fn nmcli_split_handles_escaped_backslash() {
    let fields = nmcli_split("a\\\\b:c");
    assert_eq!(fields.len(), 2);
    assert_eq!(fields[0], "a\\b");
    assert_eq!(fields[1], "c");
}

#[test]
fn nmcli_split_keeps_lone_backslash_and_trailing_empty_field() {
    assert_eq!(nmcli_split("a\\b:"), vec!["a\\b", ""]);
    assert_eq!(nmcli_split(""), vec![""]);
}

#[test]
fn card_texts() {
    assert_eq!(subtitle(1, 1), "1 active · 1 device");
    assert_eq!(subtitle(0, 3), "0 active · 3 devices");
    let c = &parse_active_connections("Home:wlp2s0:wifi:activated\n")[0];
    assert_eq!(active_detail(c), "wlp2s0 · wifi · activated");
    let devs = parse_devices("wlp2s0:wifi:connected:home\neno1:ethernet:unavailable:--\n");
    assert_eq!(device_title(&devs[0]), "wlp2s0 (wifi)");
    assert_eq!(device_detail(&devs[0]), "connected · home");
    assert_eq!(device_detail(&devs[1]), "unavailable");
}

#[test]
fn nmcli_split_undoes_an_escaped_join() {
    let fields = vec!["Home:5G", "a\\b", "", "plain"];
    let line: Vec<String> = fields
        .iter()
        .map(|f| f.replace('\\', "\\\\").replace(':', "\\:"))
        .collect();
    assert_eq!(nmcli_split(&line.join(":")), fields);
}
