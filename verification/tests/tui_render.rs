use localgpt::tui::{App, AppMessage, Key, StreamEvent};
use localgpt::tui_render::{
    chat_title, hidden_lines, lines_exec, render_lines, split_lines_raw, RoleColor, Segment,
    SegmentStyle,
};

fn texts(line: &[Segment]) -> Vec<&str> {
    line.iter().map(|s| s.text.as_str()).collect()
}

#[test]
fn renders_text_messages() {
    let mut app = App::new("a", "m", 1, false, "1");
    app.messages = vec![AppMessage::Text { role: "You".to_string(), content: "one\ntwo".to_string() }];
    app.selected_index = Some(0);
    let lines = render_lines(&app);
    assert_eq!(lines.len(), 2);
    assert_eq!(texts(&lines[0]), vec!["> ", "You: ", "one"]);
    assert_eq!(lines[0][0].style, SegmentStyle::Prefix { bold: true });
    assert_eq!(lines[0][1].style, SegmentStyle::Role(RoleColor::Cyan));
    assert_eq!(texts(&lines[1]), vec!["  ", "  two"]);
}

#[test]
fn renders_tool_calls() {
    let mut app = App::new("a", "m", 1, false, "1");
    app.messages = vec![AppMessage::ToolCall {
        name: "bash".to_string(),
        arguments: " ls ".to_string(),
        output: Some("a\r\nb\n\n".to_string()),
        is_expanded: true,
    }];
    let lines = render_lines(&app);
    assert_eq!(texts(&lines[0]), vec!["  ", "[-] ", "Tool: bash [Done]"]);
    assert_eq!(texts(&lines[1]), vec!["    ", "Input: ", "ls"]);
    assert_eq!(texts(&lines[2]), vec!["    ", "Output: "]);
    assert_eq!(texts(&lines[3]), vec!["      ", "a"]);
    assert_eq!(texts(&lines[4]), vec!["      ", "b"]);
    assert_eq!(lines.len(), 5);
    app.handle_key(Key::Up);
    app.handle_key(Key::CtrlO);
    let lines = render_lines(&app);
    assert_eq!(lines.len(), 1);
    assert_eq!(texts(&lines[0]), vec!["> ", "[+] ", "Tool: bash [Done]"]);
    app.apply_stream_event(StreamEvent::ToolCallStart { name: "x".to_string(), arguments: String::new() });
    let lines = render_lines(&app);
    assert_eq!(texts(&lines[1]), vec!["> ", "[+] ", "Tool: x [Running...]"]);
}

#[test]
fn line_splitting() {
    assert_eq!(split_lines_raw("a\n\nb"), vec!["a", "", "b"]);
    assert_eq!(split_lines_raw(""), vec![""]);
    assert_eq!(lines_exec("a\r\nb\r"), vec!["a", "b\r"]);
    assert_eq!(lines_exec("x\n"), vec!["x"]);
    assert!(lines_exec("").is_empty());
}

#[test]
fn scrolling_and_title() {
    assert_eq!(hidden_lines(10, 5), 7);
    assert_eq!(hidden_lines(2, 5), 0);
    assert_eq!(hidden_lines(4, 1), 4);
    assert_eq!(chat_title(true), " Chat (Generating...) ");
    assert_eq!(chat_title(false), " Chat ");
}
