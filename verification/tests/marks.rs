use mde_shell::auto_mark::{auto_marks_for_class, taxonomy_for_app_id};
use mde_shell::marks::MarksStore;
use mde_shell::marks_bus::{
    delta_message, dispatch_request, handle_event, request_shape, MarkRequest, RequestShape,
    WindowEvent,
};
use mde_shell::tags::TagManifest;

#[test]
fn add_mark_is_idempotent_and_sorted() {
    let mut s = MarksStore::default();
    assert!(s.add_mark("0x1", "web"));
    assert!(!s.add_mark("0x1", "web")); // dup → no change
    assert!(s.add_mark("0x1", "dev"));
    assert_eq!(s.list_marks("0x1"), vec!["dev", "web"]); // sorted
}

#[test]
fn remove_mark_reports_change_and_prunes_empty() {
    let mut s = MarksStore::default();
    s.add_mark("0x1", "web");
    assert!(s.remove_mark("0x1", "web"));
    assert!(!s.remove_mark("0x1", "web")); // already gone
    assert!(s.list_marks("0x1").is_empty());
    assert!(!s.remove_mark("0xdead", "web")); // unknown addr
}

#[test]
fn match_marks_finds_every_addr_sorted() {
    let mut s = MarksStore::default();
    s.add_mark("0x2", "web");
    s.add_mark("0x1", "web");
    s.add_mark("0x3", "dev");
    assert_eq!(s.match_marks("web"), vec!["0x1", "0x2"]);
    assert_eq!(s.match_marks("dev"), vec!["0x3"]);
    assert!(s.match_marks("none").is_empty());
}

#[test]
fn drop_window_clears_marks_and_identity() {
    let mut s = MarksStore::default();
    s.note_window("0x1", "firefox", "Mozilla");
    s.add_mark("0x1", "web");
    s.drop_window("0x1");
    assert!(s.list_marks("0x1").is_empty());
    assert!(s.match_marks("web").is_empty());
}

#[test]
fn snapshot_round_trip_preserves_marks_and_identity() {
    let mut s = MarksStore::default();
    s.note_window("0x1", "firefox", "Mozilla Firefox");
    s.add_mark("0x1", "web");
    s.add_mark("0x1", "priority");
    let snap = s.to_snapshot();
    let restored = MarksStore::from_snapshot(&snap);
    assert_eq!(restored.list_marks("0x1"), vec!["priority", "web"]);
    // Re-serialize → identical snapshot.
    assert_eq!(restored.to_snapshot(), snap);
}

#[test]
fn snapshot_skips_windows_without_marks() {
    let mut s = MarksStore::default();
    s.note_window("0x1", "foot", "shell"); // identity but no marks
    let snap = s.to_snapshot();
    assert!(snap.windows.is_empty());
}

#[test]
fn auto_marks_combines_taxonomy_and_manifest() {
    let manifests = vec![TagManifest {
        name: "voip".into(),
        apps: vec!["firefox".into()],
        marks_default: "priority,call".into(),
        ..TagManifest::default()
    }];
    // firefox is taxonomy `web` + manifest marks priority,call.
    let marks = auto_marks_for_class("firefox", Some(&manifests));
    assert!(marks.contains(&"web".to_string()));
    assert!(marks.contains(&"priority".to_string()));
    assert!(marks.contains(&"call".to_string()));
}

#[test]
fn auto_marks_unknown_class_no_manifest_is_empty() {
    assert!(auto_marks_for_class("some-obscure-app", None).is_empty());
}

#[test]
fn request_add_returns_changed_and_delta() {
    let mut s = MarksStore::default();
    let out = dispatch_request(&mut s, "add", Some(MarkRequest::AddrMark { addr: "0x1".into(), mark: "web".into() }));
    assert!(out.reply_json.contains("\"ok\":true"));
    assert!(out.reply_json.contains("\"changed\":true"));
    let (addr, op, mark, marks) = out.delta.expect("delta on change");
    assert_eq!((addr.as_str(), op.as_str(), mark.as_str()), ("0x1", "add", "web"));
    assert_eq!(marks, vec!["web"]);
}

#[test]
fn request_add_dup_has_no_delta() {
    let mut s = MarksStore::default();
    s.add_mark("0x1", "web");
    let out = dispatch_request(&mut s, "add", Some(MarkRequest::AddrMark { addr: "0x1".into(), mark: "web".into() }));
    assert!(out.delta.is_none()); // no change → no delta
}

#[test]
fn request_list_and_match() {
    let mut s = MarksStore::default();
    s.add_mark("0x1", "web");
    let list = dispatch_request(&mut s, "list", Some(MarkRequest::Addr { addr: "0x1".into() }));
    assert!(list.reply_json.contains("web"));
    let m = dispatch_request(&mut s, "match", Some(MarkRequest::Mark { mark: "web".into() }));
    assert!(m.reply_json.contains("0x1"));
}

#[test]
fn list_and_match_replies_report_changed_true() {
    let mut s = MarksStore::default();
    s.add_mark("0x1", "web");
    let list = dispatch_request(&mut s, "list", Some(MarkRequest::Addr { addr: "0x1".into() }));
    assert_eq!(list.reply_json, r#"{"ok":true,"changed":true,"marks":["web"],"addrs":[]}"#);
    let m = dispatch_request(&mut s, "match", Some(MarkRequest::Mark { mark: "web".into() }));
    assert_eq!(m.reply_json, r#"{"ok":true,"changed":true,"marks":[],"addrs":["0x1"]}"#);
    assert!(m.delta.is_none());
}

#[test]
fn request_malformed_body_fails_cleanly() {
    let mut s = MarksStore::default();
    let out = dispatch_request(&mut s, "add", None);
    assert!(out.reply_json.contains("\"ok\":false"));
    assert!(out.delta.is_none());
}

#[test]
fn request_unknown_verb_fails() {
    let mut s = MarksStore::default();
    let out = dispatch_request(&mut s, "frobnicate", Some(MarkRequest::Mark { mark: "web".into() }));
    assert!(out.reply_json.contains("\"ok\":false"));
}

#[test]
fn dispatch_replies_are_exact_json() {
    let mut s = MarksStore::default();
    let out = dispatch_request(&mut s, "add", Some(MarkRequest::AddrMark { addr: "0x1".into(), mark: "web".into() }));
    assert_eq!(out.reply_json, r#"{"ok":true,"changed":true,"marks":["web"],"addrs":[]}"#);
    let out = dispatch_request(&mut s, "remove", Some(MarkRequest::AddrMark { addr: "0x1".into(), mark: "web".into() }));
    assert_eq!(out.reply_json, r#"{"ok":true,"changed":true,"marks":[],"addrs":[]}"#);
    assert_eq!(
        out.delta,
        Some(("0x1".to_string(), "remove".to_string(), "web".to_string(), Vec::new()))
    );
    let out = dispatch_request(&mut s, "remove", Some(MarkRequest::Addr { addr: "0x1".into() }));
    assert_eq!(out.reply_json, r#"{"ok":false,"changed":false,"marks":[],"addrs":[]}"#);
    assert!(out.delta.is_none());
}

#[test]
fn dispatch_refused_request_leaves_store_unchanged() {
    let mut s = MarksStore::default();
    s.add_mark("0x1", "web");
    let out = dispatch_request(&mut s, "add", None);
    assert!(out.reply_json.contains("\"ok\":false"));
    assert_eq!(s.list_marks("0x1"), vec!["web"]);
}

#[test]
fn dispatch_reply_escapes_marks() {
    let mut s = MarksStore::default();
    let out = dispatch_request(&mut s, "add", Some(MarkRequest::AddrMark { addr: "0x1".into(), mark: "say \"hi\"".into() }));
    assert_eq!(
        out.reply_json,
        r#"{"ok":true,"changed":true,"marks":["say \"hi\""],"addrs":[]}"#
    );
}

#[test]
fn taxonomy_buckets_known_classes() {
    assert_eq!(taxonomy_for_app_id("firefox"), Some("web"));
    assert_eq!(taxonomy_for_app_id("kitty"), Some("shell"));
    assert_eq!(taxonomy_for_app_id("thunderbird"), Some("mail"));
    assert_eq!(taxonomy_for_app_id("code"), Some("editor"));
    assert_eq!(taxonomy_for_app_id("discord"), Some("chat"));
    assert_eq!(taxonomy_for_app_id("some-obscure-app"), None);
}

#[test]
fn auto_marks_are_ordered_trimmed_and_distinct() {
    let manifests = vec![
        TagManifest {
            name: "voip".into(),
            apps: vec!["firefox".into()],
            marks_default: " priority , web,,call ".into(),
            ..TagManifest::default()
        },
        TagManifest {
            name: "other".into(),
            apps: vec!["kitty".into()],
            marks_default: "ignored".into(),
            ..TagManifest::default()
        },
        TagManifest {
            name: "late".into(),
            apps: vec!["firefox".into()],
            marks_default: "call,late".into(),
            ..TagManifest::default()
        },
    ];
    assert_eq!(
        auto_marks_for_class("firefox", Some(&manifests)),
        vec!["web", "priority", "call", "late"]
    );
}

#[test]
fn opened_window_is_seeded_and_publishes_deltas() {
    let mut s = MarksStore::default();
    let deltas = handle_event(
        &mut s,
        &WindowEvent::Opened { addr: "0x1".into(), class: "firefox".into(), title: "Mozilla".into() },
        None,
    );
    assert_eq!(deltas.len(), 1);
    assert_eq!(deltas[0].0, "0x1");
    assert_eq!(deltas[0].1, "add");
    assert_eq!(deltas[0].2, "web");
    assert_eq!(s.list_marks("0x1"), vec!["web"]);
    // Opening the same window again changes nothing and publishes nothing.
    let again = handle_event(
        &mut s,
        &WindowEvent::Opened { addr: "0x1".into(), class: "firefox".into(), title: "Mozilla".into() },
        None,
    );
    assert!(again.is_empty());
    let closed = handle_event(&mut s, &WindowEvent::Closed { addr: "0x1".into() }, None);
    assert!(closed.is_empty());
    assert!(s.list_marks("0x1").is_empty());
}

#[test]
fn remove_after_add_restores_empty_store() {
    let mut s = MarksStore::default();
    s.note_window("0x9", "foot", "shell");
    let before = s.to_snapshot();
    assert!(s.add_mark("0x9", "dev"));
    assert!(s.remove_mark("0x9", "dev"));
    assert_eq!(s.to_snapshot(), before);
    assert!(!s.add_mark("0x9", ""));
}

#[test]
fn delta_message_topic_and_body() {
    let (topic, body) = delta_message("0x1", "add", "web", &vec!["dev".to_string(), "web".to_string()]);
    assert_eq!(topic, "event/marks/0x1");
    assert_eq!(body, r#"{"addr":"0x1","op":"add","mark":"web","marks":["dev","web"]}"#);
    let (_, body) = delta_message("0x2", "remove", "a\"b", &Vec::new());
    assert_eq!(body, r#"{"addr":"0x2","op":"remove","mark":"a\"b","marks":[]}"#);
}

#[test]
fn delta_message_escapes_json_strings() {
    let (topic, body) = delta_message("0x1", "add", "a\"b\\c\nd\u{1}", &vec!["t\tx".to_string()]);
    assert_eq!(topic, "event/marks/0x1");
    assert_eq!(
        body,
        "{\"addr\":\"0x1\",\"op\":\"add\",\"mark\":\"a\\\"b\\\\c\\nd\\u0001\",\"marks\":[\"t\\tx\"]}"
    );
}

#[test]
fn request_shapes_follow_the_verb() {
    assert_eq!(request_shape("add"), Some(RequestShape::AddrMark));
    assert_eq!(request_shape("remove"), Some(RequestShape::AddrMark));
    assert_eq!(request_shape("list"), Some(RequestShape::Addr));
    assert_eq!(request_shape("match"), Some(RequestShape::Mark));
    assert_eq!(request_shape("frobnicate"), None);
}

#[test]
fn request_of_another_shape_is_refused() {
    let mut s = MarksStore::default();
    s.add_mark("0x1", "web");
    let out = dispatch_request(&mut s, "add", Some(MarkRequest::Addr { addr: "0x1".into() }));
    assert_eq!(out.reply_json, r#"{"ok":false,"changed":false,"marks":[],"addrs":[]}"#);
    assert!(out.delta.is_none());
    let out = dispatch_request(&mut s, "list", Some(MarkRequest::Mark { mark: "web".into() }));
    assert_eq!(out.reply_json, r#"{"ok":false,"changed":false,"marks":[],"addrs":[]}"#);
    let out = dispatch_request(
        &mut s,
        "match",
        Some(MarkRequest::AddrMark { addr: "0x1".into(), mark: "web".into() }),
    );
    assert!(out.reply_json.contains("\"ok\":false"));
    assert_eq!(s.list_marks("0x1"), vec!["web"]);
}
