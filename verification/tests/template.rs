use mde_shell::template::{batch_payload, TemplateSpec};

fn spec(workspace: i32, apps: &[&str]) -> TemplateSpec {
    TemplateSpec {
        workspace,
        apps: apps.iter().map(|s| (*s).to_string()).collect(),
    }
}

#[test]
fn empty_template_emits_workspace_switch_only() {
    assert_eq!(batch_payload(&spec(3, &[])), "dispatch workspace 3");
}

#[test]
fn single_app_appends_one_exec() {
    assert_eq!(
        batch_payload(&spec(3, &["firefox"])),
        "dispatch workspace 3 ; dispatch exec firefox"
    );
}

#[test]
fn multi_app_preserves_order() {
    assert_eq!(
        batch_payload(&spec(5, &["foot", "firefox", "org.mde.voice.hud"])),
        "dispatch workspace 5 ; dispatch exec foot ; \
         dispatch exec firefox ; dispatch exec org.mde.voice.hud"
    );
}

#[test]
fn workspace_switch_is_always_first() {
    let payload = batch_payload(&spec(2, &["kitty"]));
    assert!(payload.starts_with("dispatch workspace 2 ; "));
}

#[test]
fn exec_commands_pass_through_verbatim() {
    assert_eq!(
        batch_payload(&spec(1, &["/usr/bin/foo --flag bar"])),
        "dispatch workspace 1 ; dispatch exec /usr/bin/foo --flag bar"
    );
}

#[test]
fn negative_workspace_ids_render_with_sign() {
    assert_eq!(batch_payload(&spec(-2, &[])), "dispatch workspace -2");
}
