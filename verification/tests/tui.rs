use localgpt::tui::{
    session_choice, App, AppMessage, Key, KeyAction, Role, SessionChoice, SessionMessage,
    StreamEvent, ToolCallRecord, TuiArgs,
};

fn text(m: &AppMessage) -> (&str, &str) {
    match m {
        AppMessage::Text { role, content } => (role.as_str(), content.as_str()),
        _ => panic!("expected text"),
    }
}

#[test]
fn new_app_shows_header() {
    let app = App::new("main", "llama3", 42, true, "0.3.1");
    assert_eq!(app.messages.len(), 2);
    assert_eq!(
        text(&app.messages[0]),
        (
            "System",
            "LocalGPT v0.3.1 | Agent: main | Model: llama3 | Memory: 42 chunks | Embeddings: enabled"
        )
    );
    assert_eq!(
        text(&app.messages[1]).1,
        "Use Up/Down to select, Ctrl+O to expand tools. Esc/Ctrl+C to quit."
    );
    let app = App::new("a", "m", 0, false, "1");
    assert_eq!(text(&app.messages[0]).1, "LocalGPT v1 | Agent: a | Model: m | Memory: 0 chunks");
    assert!(app.selected_index.is_none());
    assert!(!app.is_generating);
}

#[test]
fn typing_and_submitting() {
    let mut app = App::new("a", "m", 0, false, "1");
    for c in " hi ".chars() {
        assert!(matches!(app.handle_key(Key::Char(c)), KeyAction::Redraw));
    }
    app.handle_key(Key::Char('x'));
    app.handle_key(Key::Backspace);
    assert_eq!(app.input, " hi ");
    match app.handle_key(Key::Enter) {
        KeyAction::Submit(m) => assert_eq!(m, "hi"),
        _ => panic!("expected Submit"),
    }
    assert_eq!(app.input, "");
    assert!(app.is_generating);
    assert_eq!(app.messages.len(), 4);
    assert_eq!(text(&app.messages[2]), ("You", "hi"));
    assert_eq!(text(&app.messages[3]), ("Assistant", ""));
    assert_eq!(app.selected_index, Some(3));
    // Typing is ignored while generating.
    app.handle_key(Key::Char('z'));
    assert_eq!(app.input, "");
    assert!(matches!(app.handle_key(Key::Enter), KeyAction::Redraw));
    assert!(matches!(app.handle_key(Key::Esc), KeyAction::Quit));
    assert!(matches!(app.handle_key(Key::CtrlC), KeyAction::Quit));
}

#[test]
fn blank_input_is_not_submitted() {
    let mut app = App::new("a", "m", 0, false, "1");
    app.handle_key(Key::Char(' '));
    assert!(matches!(app.handle_key(Key::Enter), KeyAction::Redraw));
    assert_eq!(app.input, "");
    assert_eq!(app.messages.len(), 2);
}

#[test]
fn selection_moves_and_wraps() {
    let mut app = App::new("a", "m", 0, false, "1");
    app.handle_key(Key::Down);
    assert_eq!(app.selected_index, None);
    app.handle_key(Key::Up);
    assert_eq!(app.selected_index, Some(1));
    app.handle_key(Key::Up);
    assert_eq!(app.selected_index, Some(0));
    app.handle_key(Key::Up);
    assert_eq!(app.selected_index, Some(1));
    app.handle_key(Key::Down);
    assert_eq!(app.selected_index, Some(1));
}

#[test]
fn streaming_builds_messages() {
    let mut app = App::new("a", "m", 0, false, "1");
    app.handle_key(Key::Char('q'));
    app.handle_key(Key::Enter);
    assert!(!app.apply_stream_event(StreamEvent::Content("Hel".to_string())));
    assert!(!app.apply_stream_event(StreamEvent::Content("lo".to_string())));
    assert_eq!(text(&app.messages[3]), ("Assistant", "Hello"));
    app.apply_stream_event(StreamEvent::ToolCallStart {
        name: "bash".to_string(),
        arguments: "{}".to_string(),
    });
    assert_eq!(app.selected_index, Some(4));
    app.apply_stream_event(StreamEvent::ToolCallEnd { output: "ok".to_string() });
    match &app.messages[4] {
        AppMessage::ToolCall { output, is_expanded, .. } => {
            assert_eq!(output.as_deref(), Some("ok"));
            assert!(!is_expanded);
        }
        _ => panic!("expected tool call"),
    }
    app.handle_key(Key::CtrlO);
    assert!(matches!(&app.messages[4], AppMessage::ToolCall { is_expanded: true, .. }));
    app.apply_stream_event(StreamEvent::Content("done".to_string()));
    assert_eq!(text(&app.messages[5]), ("Assistant", "done"));
    assert!(app.apply_stream_event(StreamEvent::Error("net".to_string())));
    assert_eq!(text(&app.messages[6]), ("System", "[Error: net]"));
    app.stream_failed("x");
    assert_eq!(text(&app.messages[7]), ("System", "Error starting stream: x"));
    app.finish_generation();
    assert!(!app.is_generating);
    assert_eq!(app.selected_index, Some(7));
}

fn msg(role: Role, content: &str) -> SessionMessage {
    SessionMessage { role, content: content.to_string(), tool_call_id: None, tool_calls: None }
}

#[test]
fn resumed_history_is_shown() {
    let mut app = App::new("a", "m", 0, false, "1");
    let call = ToolCallRecord { id: "c1".to_string(), name: "bash".to_string(), arguments: "ls".to_string() };
    let history = vec![
        msg(Role::System, "secret system prompt"),
        msg(Role::User, "list files"),
        SessionMessage {
            role: Role::Assistant,
            content: String::new(),
            tool_call_id: None,
            tool_calls: Some(vec![call]),
        },
        SessionMessage {
            role: Role::Tool,
            content: "a.txt".to_string(),
            tool_call_id: Some("c1".to_string()),
            tool_calls: None,
        },
        msg(Role::Assistant, "There is a.txt"),
    ];
    app.load_history(&history);
    assert_eq!(app.messages.len(), 5);
    assert_eq!(text(&app.messages[2]), ("You", "list files"));
    match &app.messages[3] {
        AppMessage::ToolCall { name, arguments, output, .. } => {
            assert_eq!(name, "bash");
            assert_eq!(arguments, "ls");
            assert_eq!(output.as_deref(), Some("a.txt"));
        }
        _ => panic!("expected tool call"),
    }
    assert_eq!(text(&app.messages[4]), ("Assistant", "There is a.txt"));
    assert_eq!(app.selected_index, Some(4));
}

#[test]
fn session_choice_prefers_named_session() {
    let c = session_choice(TuiArgs { model: None, session: Some("s1".to_string()), resume: true });
    assert!(matches!(c, SessionChoice::Resume(ref s) if s == "s1"));
    let c = session_choice(TuiArgs { model: None, session: None, resume: true });
    assert!(matches!(c, SessionChoice::ResumeLast));
    let c = session_choice(TuiArgs { model: None, session: None, resume: false });
    assert!(matches!(c, SessionChoice::New));
}
