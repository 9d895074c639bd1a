use std::time::Duration;
use std::time::Duration as StdDur;

use mde_shell::tags::{Tag, TagFlavor, TagManifest, TagMember, TagStore};
use mde_shell::workspace::{
    derive_workspace_name, derive_workspace_name_with_manifests, find_owning_tag,
    focused_window_app_id, init_target, is_auto_derived, namer_step, plan_rename,
    preferred_output_for_workspace, preferred_output_for_workspace_with_manifests,
    triggers_rename, ClientInfo, DesktopEvent, NamerInput, DEBOUNCE_WINDOW_MS,
};

#[test]
fn app_id_empty_fallback_returns_numeric_only() {
    assert_eq!(derive_workspace_name(5, None), "5");
    assert_eq!(derive_workspace_name(5, Some("")), "5");
    assert_eq!(derive_workspace_name(0, None), "0");
}

#[test]
fn manual_name_preserved_blocks_rename() {
    assert!(!is_auto_derived(5, "Mail"));
    assert!(!is_auto_derived(5, "work"));
    assert!(!is_auto_derived(5, "7"));
    assert!(!is_auto_derived(5, "5b"));
    assert!(!is_auto_derived(5, "5-monitor"));
    assert!(is_auto_derived(5, "5"));
    assert!(is_auto_derived(5, "5: firefox"));
}

#[test]
fn multi_focus_debounce_collapses_rapid_events() {
    let debounce_window = StdDur::from_millis(DEBOUNCE_WINDOW_MS);
    let burst: Vec<StdDur> = vec![
        StdDur::from_millis(50),
        StdDur::from_millis(100),
        StdDur::from_millis(150),
    ];
    let mut pending = false;
    let mut last_event_at = StdDur::from_millis(0);
    let mut fired = 0_u32;
    for evt_at in &burst {
        let gap = *evt_at - last_event_at;
        if pending && gap >= debounce_window {
            fired += 1;
            pending = false;
        }
        pending = true;
        last_event_at = *evt_at;
    }
    let quiet_gap = StdDur::from_millis(200);
    if pending && quiet_gap >= debounce_window {
        fired += 1;
        pending = false;
    }
    assert_eq!(
        fired, 1,
        "three rapid events within DEBOUNCE_WINDOW must collapse to one rename pass"
    );
    assert!(!pending, "pending flag clears after firing");
    assert_eq!(debounce_window, StdDur::from_millis(200));
}

#[test]
fn numeric_only_when_workspace_has_no_windows() {
    let empty_app_id: Option<&str> = None;
    assert_eq!(derive_workspace_name(3, empty_app_id), "3");
    let preferred = derive_workspace_name(3, empty_app_id);
    assert!(!preferred.contains(':'));
}

#[test]
fn rename_fires_when_last_window_closes() {
    let num = 5;
    let current = "5: firefox";
    let preferred = derive_workspace_name(num, None);
    assert_eq!(preferred, "5");
    assert!(is_auto_derived(num, current));
    assert_ne!(preferred, current);
}

fn manifest_with(name: &str, apps: &[&str]) -> TagManifest {
    TagManifest {
        name: name.to_string(),
        apps: apps.iter().map(|s| s.to_string()).collect(),
        ..TagManifest::default()
    }
}

#[test]
fn manifest_name_wins_when_apps_match() {
    let manifests = vec![manifest_with("voip", &["org.mde.voice.hud", "linphone"])];
    assert_eq!(
        derive_workspace_name_with_manifests(3, Some("linphone"), Some(&manifests)),
        "3: voip"
    );
    assert_eq!(
        derive_workspace_name_with_manifests(7, Some("org.mde.voice.hud"), Some(&manifests)),
        "7: voip"
    );
}

#[test]
fn manifest_no_match_falls_through_to_app_id() {
    let manifests = vec![manifest_with("voip", &["linphone"])];
    assert_eq!(
        derive_workspace_name_with_manifests(2, Some("firefox"), Some(&manifests)),
        "2: firefox"
    );
}

#[test]
fn manifest_match_with_empty_name_falls_through() {
    let manifests = vec![manifest_with("", &["firefox"])];
    assert_eq!(
        derive_workspace_name_with_manifests(4, Some("firefox"), Some(&manifests)),
        "4: firefox"
    );
}

#[test]
fn first_matching_manifest_wins_deterministic() {
    let manifests = vec![
        manifest_with("alpha", &["chromium"]),
        manifest_with("beta", &["chromium"]),
    ];
    assert_eq!(
        derive_workspace_name_with_manifests(1, Some("chromium"), Some(&manifests)),
        "1: alpha"
    );
}

#[test]
fn none_manifests_match_legacy_shim() {
    assert_eq!(
        derive_workspace_name_with_manifests(5, Some("firefox"), None),
        "5: firefox"
    );
    assert_eq!(
        derive_workspace_name_with_manifests(5, Some("firefox"), None),
        derive_workspace_name(5, Some("firefox"))
    );
}

#[test]
fn empty_app_id_returns_numeric_only_with_manifests() {
    let manifests = vec![manifest_with("voip", &[""])];
    assert_eq!(
        derive_workspace_name_with_manifests(8, None, Some(&manifests)),
        "8"
    );
    assert_eq!(
        derive_workspace_name_with_manifests(8, Some(""), Some(&manifests)),
        "8"
    );
}

#[test]
fn empty_manifest_list_falls_through() {
    let manifests: Vec<TagManifest> = Vec::new();
    assert_eq!(
        derive_workspace_name_with_manifests(6, Some("firefox"), Some(&manifests)),
        "6: firefox"
    );
}

#[test]
fn manifest_named_form_is_still_auto_derived() {
    assert!(is_auto_derived(3, "3: voip"));
    assert!(is_auto_derived(3, "3: firefox"));
    assert!(!is_auto_derived(3, "VoIP Calls"));
}

fn dev_tag_on_hdmi(ws_nums: &[i32]) -> Tag {
    let members = ws_nums
        .iter()
        .map(|&num| TagMember::Workspace { num })
        .collect();
    Tag {
        name: "Dev".to_string(),
        flavor: TagFlavor::Manual,
        members,
        group_color: None,
        preferred_output: Some("HDMI-A-1".to_string()),
        default_layout: None,
        autostart: Vec::new(),
    }
}

#[test]
fn empty_store_returns_no_preferred_output() {
    let store = TagStore::default();
    assert!(preferred_output_for_workspace(&store, 1).is_none());
}

#[test]
fn untagged_workspace_returns_no_preferred_output() {
    let mut store = TagStore::default();
    store.add(dev_tag_on_hdmi(&[2, 3])).unwrap();
    assert!(preferred_output_for_workspace(&store, 1).is_none());
}

#[test]
fn owning_tag_without_preferred_output_returns_none() {
    let mut store = TagStore::default();
    let mut t = dev_tag_on_hdmi(&[1]);
    t.preferred_output = None;
    store.add(t).unwrap();
    assert!(preferred_output_for_workspace(&store, 1).is_none());
}

#[test]
fn owning_tag_with_preferred_output_returns_target() {
    let mut store = TagStore::default();
    store.add(dev_tag_on_hdmi(&[1, 2])).unwrap();
    assert_eq!(
        preferred_output_for_workspace(&store, 1).as_deref(),
        Some("HDMI-A-1")
    );
    assert_eq!(
        preferred_output_for_workspace(&store, 2).as_deref(),
        Some("HDMI-A-1")
    );
}

#[test]
fn first_owning_tag_wins_on_conflict() {
    let mut store = TagStore::default();
    store.add(dev_tag_on_hdmi(&[1])).unwrap();
    let mut second = dev_tag_on_hdmi(&[1]);
    second.name = "Personal".to_string();
    second.preferred_output = Some("DP-2".to_string());
    store.add(second).unwrap();
    assert_eq!(
        preferred_output_for_workspace(&store, 1).as_deref(),
        Some("HDMI-A-1")
    );
}

#[test]
fn non_workspace_members_dont_match() {
    let mut store = TagStore::default();
    store
        .add(Tag {
            name: "Apps".to_string(),
            flavor: TagFlavor::Manual,
            members: vec![
                TagMember::App {
                    app_id: "firefox".to_string(),
                },
                TagMember::Peer {
                    hostname: "fedora".to_string(),
                },
            ],
            group_color: None,
            preferred_output: Some("HDMI-A-1".to_string()),
            default_layout: None,
            autostart: Vec::new(),
        })
        .unwrap();
    assert!(preferred_output_for_workspace(&store, 1).is_none());
}

fn dev_manifest_with(output: Option<&str>) -> TagManifest {
    TagManifest {
        name: "Dev".to_string(),
        output: output.map(|s| s.to_string()),
        ..TagManifest::default()
    }
}

#[test]
fn manifest_output_overrides_tagstore_preferred() {
    let mut store = TagStore::default();
    store.add(dev_tag_on_hdmi(&[1])).unwrap();
    let manifests = vec![dev_manifest_with(Some("DP-2"))];
    let out = preferred_output_for_workspace_with_manifests(&store, 1, Some(&manifests));
    assert_eq!(out.as_deref(), Some("DP-2"));
}

#[test]
fn manifest_without_output_falls_through_to_tagstore() {
    let mut store = TagStore::default();
    store.add(dev_tag_on_hdmi(&[1])).unwrap();
    let manifests = vec![dev_manifest_with(None)];
    let out = preferred_output_for_workspace_with_manifests(&store, 1, Some(&manifests));
    assert_eq!(out.as_deref(), Some("HDMI-A-1"));
}

#[test]
fn manifest_with_empty_output_falls_through() {
    let mut store = TagStore::default();
    store.add(dev_tag_on_hdmi(&[1])).unwrap();
    let manifests = vec![dev_manifest_with(Some("  "))];
    let out = preferred_output_for_workspace_with_manifests(&store, 1, Some(&manifests));
    assert_eq!(out.as_deref(), Some("HDMI-A-1"));
}

#[test]
fn none_manifests_means_tagstore_only() {
    let mut store = TagStore::default();
    store.add(dev_tag_on_hdmi(&[1])).unwrap();
    let out = preferred_output_for_workspace_with_manifests(&store, 1, None);
    assert_eq!(out.as_deref(), Some("HDMI-A-1"));
}

#[test]
fn manifest_for_different_tag_is_ignored() {
    let mut store = TagStore::default();
    store.add(dev_tag_on_hdmi(&[1])).unwrap();
    let manifests = vec![TagManifest {
        name: "Other".to_string(),
        output: Some("DP-2".to_string()),
        ..TagManifest::default()
    }];
    let out = preferred_output_for_workspace_with_manifests(&store, 1, Some(&manifests));
    assert_eq!(out.as_deref(), Some("HDMI-A-1"));
}

// ── further cases ──

fn client(class: &str, ws: i32, focus: i32) -> ClientInfo {
    ClientInfo { class: class.to_string(), workspace_id: ws, focus_history_id: focus }
}

#[test]
fn focused_window_wins_over_first_window() {
    let clients = vec![client("foot", 2, 3), client("kitty", 1, 4), client("firefox", 2, 0)];
    assert_eq!(focused_window_app_id(&clients, 2).as_deref(), Some("firefox"));
    assert_eq!(focused_window_app_id(&clients, 1).as_deref(), Some("kitty"));
    assert_eq!(focused_window_app_id(&clients, 9), None);
    let blank = vec![client("", 4, 0), client("foot", 4, 1)];
    assert_eq!(focused_window_app_id(&blank, 4), None);
}

#[test]
fn rename_plan_renames_auto_names_and_converges() {
    let clients = vec![client("firefox", 5, 0)];
    let plan = plan_rename(5, "5", &clients, None);
    assert_eq!(plan.as_deref(), Some("5: firefox"));
    assert_eq!(plan_rename(5, "5: firefox", &clients, None), None);
    assert_eq!(plan_rename(5, "Mail", &clients, None), None);
    assert_eq!(plan_rename(5, "5: firefox", &[], None).as_deref(), Some("5"));
    assert_eq!(derive_workspace_name(-3, Some("foot")), "-3: foot");
    assert!(is_auto_derived(-3, "-3"));
}

#[test]
fn namer_debounce_steps() {
    assert!(triggers_rename(&DesktopEvent::WindowOpened));
    assert!(!triggers_rename(&DesktopEvent::Other));
    assert_eq!(namer_step(false, NamerInput::Event(DesktopEvent::Other)), (false, false));
    assert_eq!(namer_step(false, NamerInput::Event(DesktopEvent::WindowMoved)), (true, false));
    assert_eq!(namer_step(true, NamerInput::Event(DesktopEvent::Other)), (true, false));
    assert_eq!(namer_step(true, NamerInput::QuietElapsed), (false, true));
    assert_eq!(namer_step(false, NamerInput::QuietElapsed), (false, false));
    assert_eq!(namer_step(true, NamerInput::Connected), (false, true));
    assert_eq!(namer_step(false, NamerInput::Connected), (false, true));
    assert_eq!(Duration::from_millis(DEBOUNCE_WINDOW_MS), Duration::from_millis(200));
}

#[test]
fn special_workspaces_are_never_routed() {
    let mut store = TagStore::default();
    store.add(dev_tag_on_hdmi(&[-1, 0, 1])).unwrap();
    assert_eq!(init_target(&store, -1, None), None);
    assert_eq!(init_target(&store, 0, None), None);
    assert_eq!(init_target(&store, 1, None).as_deref(), Some("HDMI-A-1"));
    assert_eq!(find_owning_tag(&store, 1).map(|t| t.name.as_str()), Some("Dev"));
    assert!(find_owning_tag(&store, 2).is_none());
}

#[test]
fn duplicate_tag_names_are_refused() {
    let mut store = TagStore::default();
    store.add(dev_tag_on_hdmi(&[1])).unwrap();
    assert!(store.add(dev_tag_on_hdmi(&[2])).is_err());
    assert_eq!(store.tags.len(), 1);
}
