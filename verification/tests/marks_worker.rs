use mde_shell::marks::{MarksSnapshot, SnapshotEntry};
use mde_shell::marks_worker::{
    action_topic, action_verbs, reply_topic, MarksAction, MarksInput, MarksWorkerState,
};
use mde_shell::marks_bus::{MarkRequest, WindowEvent};

fn add(ulid: &str, addr: &str, mark: &str) -> (String, Option<MarkRequest>) {
    (ulid.to_string(), Some(MarkRequest::AddrMark { addr: addr.into(), mark: mark.into() }))
}

fn write(topic: &str, body: &str) -> MarksAction {
    MarksAction::Write { topic: topic.to_string(), body: body.to_string() }
}

#[test]
fn worker_stays_idle_without_a_bus() {
    assert!(MarksWorkerState::start(false, None).is_none());
    assert!(MarksWorkerState::start(true, None).is_some());
}

#[test]
fn topics_and_verbs() {
    assert_eq!(action_topic("add"), "action/marks/add");
    assert_eq!(reply_topic("01J00"), "reply/01J00");
    assert_eq!(action_verbs(), vec!["add", "remove", "list", "match"]);
}

#[test]
fn requests_are_answered_on_their_reply_topic_with_deltas() {
    let mut w = MarksWorkerState::start(true, None).unwrap();
    assert_eq!(w.cursor_for("add"), None);
    let out = w.step(
        MarksInput::Requests {
            verb: "add".to_string(),
            msgs: vec![
                add("u1", "0x1", "web"),
                add("u2", "0x1", "web"),
            ],
        },
        None,
    );
    assert_eq!(
        out,
        vec![
            write("reply/u1", r#"{"ok":true,"changed":true,"marks":["web"],"addrs":[]}"#),
            write("event/marks/0x1", r#"{"addr":"0x1","op":"add","mark":"web","marks":["web"]}"#),
            write("reply/u2", r#"{"ok":true,"changed":false,"marks":["web"],"addrs":[]}"#),
        ]
    );
    assert_eq!(w.cursor_for("add"), Some("u2".to_string()));
    assert_eq!(w.cursor_for("list"), None);
}

#[test]
fn an_unreadable_request_is_refused() {
    let mut w = MarksWorkerState::start(true, None).unwrap();
    let out = w.step(
        MarksInput::Requests { verb: "list".to_string(), msgs: vec![("u9".to_string(), None)] },
        None,
    );
    assert_eq!(out, vec![write("reply/u9", r#"{"ok":false,"changed":false,"marks":[],"addrs":[]}"#)]);
    assert_eq!(w.cursor_for("list"), Some("u9".to_string()));
}

#[test]
fn an_empty_poll_keeps_the_cursor() {
    let mut w = MarksWorkerState::start(true, None).unwrap();
    w.step(
        MarksInput::Requests { verb: "match".to_string(), msgs: vec![("a".to_string(), None)] },
        None,
    );
    let out = w.step(MarksInput::Requests { verb: "match".to_string(), msgs: vec![] }, None);
    assert!(out.is_empty());
    assert_eq!(w.cursor_for("match"), Some("a".to_string()));
}

#[test]
fn opened_window_publishes_its_auto_marks() {
    let mut w = MarksWorkerState::start(true, None).unwrap();
    let ev = WindowEvent::Opened {
        addr: "0xa".to_string(),
        class: "firefox".to_string(),
        title: "Mozilla".to_string(),
    };
    let out = w.step(MarksInput::Window(ev), None);
    assert_eq!(
        out,
        vec![write("event/marks/0xa", r#"{"addr":"0xa","op":"add","mark":"web","marks":["web"]}"#)]
    );
    let out = w.step(MarksInput::Window(WindowEvent::Closed { addr: "0xa".to_string() }), None);
    assert!(out.is_empty());
    let out = w.step(MarksInput::SnapshotTick, None);
    assert_eq!(out, vec![MarksAction::SaveSnapshot(MarksSnapshot { windows: vec![] })]);
}

#[test]
fn shutdown_saves_then_stops_and_restart_restores() {
    let snap = MarksSnapshot {
        windows: vec![(
            "0x1".to_string(),
            SnapshotEntry {
                class: "kitty".to_string(),
                title: "sh".to_string(),
                marks: vec!["dev".to_string()],
            },
        )],
    };
    let mut w = MarksWorkerState::start(true, Some(&snap)).unwrap();
    let out = w.step(MarksInput::Shutdown, None);
    assert_eq!(out.len(), 2);
    assert_eq!(out[1], MarksAction::Stop);
    let saved = match &out[0] {
        MarksAction::SaveSnapshot(s) => s,
        other => panic!("expected a snapshot, got {other:?}"),
    };
    assert_eq!(saved, &snap);
    let mut again = MarksWorkerState::start(true, Some(saved)).unwrap();
    let out = again.step(
        MarksInput::Requests {
            verb: "list".to_string(),
            msgs: vec![("r".to_string(), Some(MarkRequest::Addr { addr: "0x1".into() }))],
        },
        None,
    );
    assert_eq!(out, vec![write("reply/r", r#"{"ok":true,"changed":true,"marks":["dev"],"addrs":[]}"#)]);
}
