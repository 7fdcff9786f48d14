use localgpt::gen_repl::{
    classify_control_line, classify_line, parse_gen_command, resume_match, starts_with,
    ControlAction, GenCommand, LineAction, ResumeMatch,
};

#[test]
fn parses_simple_commands() {
    assert!(matches!(parse_gen_command("/quit"), GenCommand::Quit));
    assert!(matches!(parse_gen_command("/q"), GenCommand::Quit));
    assert!(matches!(parse_gen_command("/?"), GenCommand::Help));
    assert!(matches!(parse_gen_command("/model"), GenCommand::ShowModel));
    assert!(matches!(parse_gen_command("/skills"), GenCommand::Skills));
    assert!(matches!(parse_gen_command("/export"), GenCommand::ExportShow));
    assert!(matches!(parse_gen_command("/memory"), GenCommand::MemoryUsage));
}

#[test]
fn parses_command_arguments() {
    match parse_gen_command("/model   ollama/llama3 extra") {
        GenCommand::SetModel(m) => assert_eq!(m, "ollama/llama3"),
        _ => panic!("expected SetModel"),
    }
    match parse_gen_command("/memory  red \t cube  ") {
        GenCommand::Memory(q) => assert_eq!(q, "red cube"),
        _ => panic!("expected Memory"),
    }
    match parse_gen_command("/export ~/my file.md") {
        GenCommand::ExportTo(p) => assert_eq!(p, "~/my file.md"),
        _ => panic!("expected ExportTo"),
    }
    match parse_gen_command("/resume abc def") {
        GenCommand::Resume(id) => assert_eq!(id, "abc"),
        _ => panic!("expected Resume"),
    }
}

#[test]
fn unknown_commands_are_sent() {
    match parse_gen_command("/dance now") {
        GenCommand::Send(m) => assert_eq!(m, "/dance now"),
        _ => panic!("expected Send"),
    }
}

#[test]
fn classifies_lines() {
    assert!(matches!(classify_line("   \n"), LineAction::Skip));
    match classify_line("  hello there  ") {
        LineAction::Chat(m) => assert_eq!(m, "hello there"),
        _ => panic!("expected Chat"),
    }
    assert!(matches!(classify_line(" /status "), LineAction::Command(GenCommand::Status)));
    assert!(matches!(classify_control_line(" /exit"), ControlAction::Quit));
    assert!(matches!(classify_control_line(""), ControlAction::Skip));
    match classify_control_line("/help") {
        ControlAction::Chat(m) => assert_eq!(m, "/help"),
        _ => panic!("expected Chat"),
    }
}

#[test]
fn resume_prefix_matching() {
    let ids = vec!["abc123".to_string(), "abd456".to_string(), "xyz".to_string()];
    assert!(matches!(resume_match(&ids, "abc"), ResumeMatch::One(0)));
    assert!(matches!(resume_match(&ids, "ab"), ResumeMatch::Many));
    assert!(matches!(resume_match(&ids, "q"), ResumeMatch::NoMatch));
    assert!(matches!(resume_match(&ids, "xyz"), ResumeMatch::One(2)));
    assert!(starts_with("hello", ""));
    assert!(!starts_with("he", "hello"));
}
