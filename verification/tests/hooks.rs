use localgpt::hooks::{
    confirmed, is_valid_event, run, valid_events_list, AddArgs, DisableArgs, EnableArgs, HookConfig,
    HookError, HookOutcome, HooksArgs, HooksCommands, RemoveArgs, TestArgs,
};

fn hook(name: &str, event: &str, enabled: bool) -> HookConfig {
    HookConfig {
        name: name.to_string(),
        event: event.to_string(),
        command: format!("echo {name}"),
        filter: None,
        enabled,
    }
}

fn cmd(c: HooksCommands) -> HooksArgs {
    HooksArgs { command: c }
}


const STAMP: &str = "20240102-030405";

#[test]
fn valid_events_are_recognized() {
    assert!(is_valid_event("onMessage"));
    assert!(is_valid_event("onError"));
    assert!(!is_valid_event("onmessage"));
    assert_eq!(
        valid_events_list(),
        "onMessage, onToolCall, onSessionStart, onSessionEnd, beforeToolCall, afterToolCall, onHeartbeat, onError"
    );
}

#[test]
fn add_hook_with_name() {
    let mut hooks = vec![hook("a", "onMessage", true)];
    let r = run(
        cmd(HooksCommands::Add(AddArgs {
            event: "onToolCall".to_string(),
            command: "notify".to_string(),
            name: Some("b".to_string()),
            filter: Some("tool:bash".to_string()),
        })),
        STAMP,
        &mut hooks,
    );
    match r {
        Ok(HookOutcome::Added { name }) => assert_eq!(name, "b"),
        _ => panic!("expected Added"),
    }
    assert_eq!(hooks.len(), 2);
    assert_eq!(hooks[1].name, "b");
    assert_eq!(hooks[1].event, "onToolCall");
    assert_eq!(hooks[1].command, "notify");
    assert_eq!(hooks[1].filter.as_deref(), Some("tool:bash"));
    assert!(hooks[1].enabled);
}

#[test]
fn add_hook_generates_name() {
    let mut hooks = Vec::new();
    let r = run(
        cmd(HooksCommands::Add(AddArgs {
            event: "onSessionStart".to_string(),
            command: "x".to_string(),
            name: None,
            filter: None,
        })),
        STAMP,
        &mut hooks,
    );
    let name = match r {
        Ok(HookOutcome::Added { name }) => name,
        _ => panic!("expected Added"),
    };
    assert_eq!(name, "hook-onsessionstart-20240102-030405");
    assert_eq!(hooks[0].name, name);
}

#[test]
fn add_hook_rejects_invalid_event_and_duplicates() {
    let mut hooks = vec![hook("a", "onMessage", true)];
    let e = run(
        cmd(HooksCommands::Add(AddArgs {
            event: "onWhatever".to_string(),
            command: "x".to_string(),
            name: Some("z".to_string()),
            filter: None,
        })),
        STAMP,
        &mut hooks,
    )
    .err()
    .unwrap();
    assert!(matches!(e, HookError::InvalidEvent { .. }));
    assert_eq!(
        e.message(),
        "Invalid event type 'onWhatever'. Valid events: onMessage, onToolCall, onSessionStart, onSessionEnd, beforeToolCall, afterToolCall, onHeartbeat, onError"
    );
    let e = run(
        cmd(HooksCommands::Add(AddArgs {
            event: "onError".to_string(),
            command: "x".to_string(),
            name: Some("a".to_string()),
            filter: None,
        })),
        STAMP,
        &mut hooks,
    )
    .err()
    .unwrap();
    assert_eq!(
        e.message(),
        "A hook named 'a' already exists. Use a different name with --name."
    );
    assert_eq!(hooks.len(), 1);
}

#[test]
fn remove_hook_needs_confirmation_unless_forced() {
    let mut hooks = vec![hook("a", "onMessage", true), hook("b", "onError", true)];
    let r = run(
        cmd(HooksCommands::Remove(RemoveArgs { name: "b".to_string(), force: false })),
        STAMP,
        &mut hooks,
    );
    assert!(matches!(r, Ok(HookOutcome::ConfirmRemoval { index: 1 })));
    assert_eq!(hooks.len(), 2);
    let r = run(
        cmd(HooksCommands::Remove(RemoveArgs { name: "b".to_string(), force: true })),
        STAMP,
        &mut hooks,
    );
    assert!(matches!(r, Ok(HookOutcome::Removed { .. })));
    assert_eq!(hooks.len(), 1);
    assert_eq!(hooks[0].name, "a");
    let e = run(
        cmd(HooksCommands::Remove(RemoveArgs { name: "b".to_string(), force: true })),
        STAMP,
        &mut hooks,
    )
    .err()
    .unwrap();
    assert_eq!(e.message(), "Hook 'b' not found");
}

#[test]
fn enable_and_disable_hooks() {
    let mut hooks = vec![hook("a", "onMessage", false)];
    let r = run(cmd(HooksCommands::Enable(EnableArgs { name: "a".to_string() })), STAMP, &mut hooks);
    assert!(matches!(r, Ok(HookOutcome::Enabled { .. })));
    assert!(r.as_ref().ok().unwrap().changes_config());
    assert!(hooks[0].enabled);
    let r = run(cmd(HooksCommands::Enable(EnableArgs { name: "a".to_string() })), STAMP, &mut hooks);
    assert!(matches!(r, Ok(HookOutcome::AlreadyEnabled { .. })));
    assert!(!r.ok().unwrap().changes_config());
    let r = run(cmd(HooksCommands::Disable(DisableArgs { name: "a".to_string() })), STAMP, &mut hooks);
    assert!(matches!(r, Ok(HookOutcome::Disabled { .. })));
    assert!(!hooks[0].enabled);
    let r = run(cmd(HooksCommands::Disable(DisableArgs { name: "a".to_string() })), STAMP, &mut hooks);
    assert!(matches!(r, Ok(HookOutcome::AlreadyDisabled { .. })));
    let r = run(cmd(HooksCommands::Disable(DisableArgs { name: "q".to_string() })), STAMP, &mut hooks);
    assert!(matches!(r, Err(HookError::NotFound { .. })));
}

#[test]
fn test_hook_uses_default_payload() {
    let mut hooks = vec![hook("a", "onMessage", true)];
    match run(cmd(HooksCommands::Test(TestArgs { name: "a".to_string(), payload: None })), STAMP, &mut hooks) {
        Ok(HookOutcome::Test { name, event, command, payload }) => {
            assert_eq!(name, "a");
            assert_eq!(event, "onMessage");
            assert_eq!(command, "echo a");
            assert_eq!(payload, r#"{"test": true}"#);
        }
        _ => panic!("expected Test"),
    }
    match run(
        cmd(HooksCommands::Test(TestArgs { name: "a".to_string(), payload: Some("{}".to_string()) })),
        STAMP,
        &mut hooks,
    ) {
        Ok(HookOutcome::Test { payload, .. }) => assert_eq!(payload, "{}"),
        _ => panic!("expected Test"),
    }
    assert!(matches!(run(cmd(HooksCommands::List), STAMP, &mut hooks), Ok(HookOutcome::Listed)));
}

#[test]
fn removal_confirmation() {
    assert!(confirmed("y\n"));
    assert!(confirmed("  Y "));
    assert!(!confirmed("yes"));
    assert!(!confirmed(""));
    assert!(!confirmed("n"));
}
