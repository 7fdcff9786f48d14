use localgpt::document::{
    get_install_hint, loader_failure_message, loader_result, sanitize_path, DocumentError, DocumentLoaders,
};
use std::time::Duration;

fn pairs(items: &[(&str, &str)]) -> Vec<(String, String)> {
    items.iter().map(|(a, b)| (a.to_string(), b.to_string())).collect()
}

#[test]
fn test_default_loaders() {
    let loaders = DocumentLoaders::new();

    assert!(loaders.has_loader("pdf"));
    assert!(loaders.has_loader("PDF")); // case insensitive
    assert!(loaders.has_loader("docx"));
    assert!(loaders.has_loader("epub"));
    assert!(loaders.has_loader("html"));

    assert!(!loaders.has_loader("xyz"));
}

#[test]
fn test_custom_loaders() {
    let custom = pairs(&[("xyz", "xyz-converter $1")]);

    let loaders = DocumentLoaders::with_custom(&custom);

    // Custom loader added
    assert!(loaders.has_loader("xyz"));

    // Default loaders preserved
    assert!(loaders.has_loader("pdf"));
}

#[test]
fn test_custom_loader_overrides_default() {
    let custom = pairs(&[("pdf", "my-custom-pdf-tool $1")]);

    let loaders = DocumentLoaders::with_custom(&custom);

    // Custom loader should override default
    assert!(loaders.get_loader("pdf").unwrap().contains("my-custom-pdf-tool"));
}

#[test]
fn test_sanitize_path_simple() {
    let sanitized = sanitize_path("/home/user/document.pdf").ok().unwrap();
    assert_eq!(sanitized, "'/home/user/document.pdf'");
}

#[test]
fn test_sanitize_path_with_spaces() {
    let sanitized = sanitize_path("/home/user/My Document.pdf").ok().unwrap();
    assert_eq!(sanitized, "'/home/user/My Document.pdf'");
}

#[test]
fn test_sanitize_path_with_single_quote() {
    let sanitized = sanitize_path("/home/user/O'Reilly.pdf").ok().unwrap();
    assert_eq!(sanitized, "'/home/user/O'\\''Reilly.pdf'");
}

#[test]
fn test_sanitize_path_rejects_command_injection() {
    let dangerous_paths = vec![
        "/home/user/$(whoami).pdf",
        "/home/user/`id`.pdf",
        "/home/user/;rm -rf /.pdf",
        "/home/user/|cat /etc/passwd.pdf",
    ];

    for path_str in dangerous_paths {
        assert!(sanitize_path(path_str).is_err(), "Should reject: {}", path_str);
    }
}

#[test]
fn test_supported_extensions() {
    let loaders = DocumentLoaders::new();
    let exts = loaders.supported_extensions();

    assert!(exts.contains(&"docx"));
    assert!(exts.contains(&"epub"));
    assert!(exts.contains(&"html"));
    assert!(exts.contains(&"pdf"));
}

#[test]
fn test_set_and_remove_loader() {
    let mut loaders = DocumentLoaders::new();

    // Add custom loader
    loaders.set_loader("xyz", "xyz-tool $1");
    assert!(loaders.has_loader("xyz"));

    // Remove it
    let removed = loaders.remove_loader("xyz");
    assert_eq!(removed, Some("xyz-tool $1".to_string()));
    assert!(!loaders.has_loader("xyz"));
}

#[test]
fn supported_extensions_are_sorted_and_complete() {
    let loaders = DocumentLoaders::new();
    assert_eq!(loaders.supported_extensions(), vec!["docx", "epub", "htm", "html", "pdf"]);
}

#[test]
fn set_loader_lowercases_and_replaces() {
    let mut loaders = DocumentLoaders::new();
    loaders.set_loader("PDF", "other $1");
    assert_eq!(loaders.get_loader("pdf").unwrap(), "other $1");
    assert!(loaders.get_loader("PDF").is_none());
    assert_eq!(loaders.supported_extensions().len(), 5);
}

#[test]
fn later_custom_entry_wins() {
    let custom = pairs(&[("XYZ", "first $1"), ("xyz", "second $1")]);
    let loaders = DocumentLoaders::with_custom(&custom);
    assert_eq!(loaders.get_loader("xyz").unwrap(), "second $1");
}

#[test]
fn remove_missing_loader_gives_none() {
    let mut loaders = DocumentLoaders::new();
    assert_eq!(loaders.remove_loader("nope"), None);
    assert_eq!(loaders.remove_loader("HTML"), Some("pandoc --to plain $1".to_string()));
    assert!(!loaders.has_loader("html"));
    assert!(loaders.has_loader("htm"));
}

#[test]
fn default_timeout_is_thirty_seconds() {
    let loaders = DocumentLoaders::new();
    assert_eq!(loaders.timeout(), Duration::from_secs(30));
    let loaders = loaders.with_timeout(Duration::from_secs(5));
    assert_eq!(loaders.timeout(), Duration::from_secs(5));
    assert!(loaders.has_loader("pdf"));
}

#[test]
fn sanitize_reports_first_listed_dangerous_char() {
    match sanitize_path("a;b$c") {
        Err(DocumentError::DangerousCharacter { ch, path }) => {
            assert_eq!(ch, '$');
            assert_eq!(path, "a;b$c");
        }
        _ => panic!("expected a dangerous character"),
    }
    let e = sanitize_path("x\ny").err().unwrap();
    assert_eq!(
        e.message(),
        "File path contains potentially dangerous character '\n': x\ny"
    );
}

#[test]
fn extract_command_substitutes_quoted_path() {
    let loaders = DocumentLoaders::new();
    let cmd = loaders.extract_command(Some("PDF"), "/tmp/a b.pdf").ok().unwrap();
    assert_eq!(cmd, "pdftotext '/tmp/a b.pdf' -");
    let mut loaders = DocumentLoaders::new();
    loaders.set_loader("two", "cat $1 $1");
    let cmd = loaders.extract_command(Some("two"), "f").ok().unwrap();
    assert_eq!(cmd, "cat 'f' 'f'");
}

#[test]
fn extract_command_errors() {
    let loaders = DocumentLoaders::new();
    let e = loaders.extract_command(Some("xyz"), "test.xyz").err().unwrap();
    assert!(e.message().contains("No loader"));
    assert_eq!(e.message(), "No loader configured for .xyz files");
    let e = loaders.extract_command(None, "README").err().unwrap();
    assert_eq!(e.message(), "File has no extension: README");
    let e = loaders.extract_command(Some("pdf"), "a|b.pdf").err().unwrap();
    assert!(matches!(e, DocumentError::DangerousCharacter { ch: '|', .. }));
}

#[test]
fn install_hints() {
    assert_eq!(
        get_install_hint("pdf"),
        "Hint: Install poppler-utils (apt: poppler-utils, brew: poppler, dnf: poppler-utils)"
    );
    assert_eq!(
        get_install_hint("htm"),
        "Hint: Install pandoc (apt: pandoc, brew: pandoc, dnf: pandoc)"
    );
    assert_eq!(get_install_hint("xlsx"), "Hint: Install xlsx2csv (pip: xlsx2csv)");
    assert_eq!(
        get_install_hint("pptx"),
        "Hint: Install LibreOffice (apt: libreoffice, brew: libreoffice)"
    );
    assert_eq!(
        get_install_hint("zip"),
        "Hint: Check the loader command in your config.toml"
    );
}

#[test]
fn loader_failure_message_text() {
    let m = loader_failure_message("pdf", "pdftotext 'x' -", -1, "boom");
    assert_eq!(
        m,
        "Document loader failed for .pdf file.\nCommand: pdftotext 'x' -\nExit code: -1\nError: boom\nHint: Install poppler-utils (apt: poppler-utils, brew: poppler, dnf: poppler-utils)"
    );
    let m = loader_failure_message("doc", "c", 127, "");
    assert!(m.contains("Exit code: 127\n"));
}

#[test]
fn default_matches_new() {
    let d = DocumentLoaders::default();
    let n = DocumentLoaders::new();
    assert_eq!(d.supported_extensions(), n.supported_extensions());
    assert!(d.has_loader("pdf"));
    assert_eq!(d.timeout(), n.timeout());
}

#[test]
fn loader_results() {
    let ok = loader_result("PDF", "pdftotext '/a.pdf' -", true, Some(0), b"hello\n".to_vec(), "");
    assert_eq!(ok.ok(), Some("hello\n".to_string()));
    match loader_result("PDF", "pdftotext '/a.pdf' -", false, Some(2), Vec::new(), "  boom\n") {
        Err(e) => assert_eq!(
            e.message(),
            loader_failure_message("pdf", "pdftotext '/a.pdf' -", 2, "boom")
        ),
        Ok(_) => panic!("expected a failure"),
    }
    match loader_result("docx", "pandoc", false, None, Vec::new(), "") {
        Err(e) => assert!(e.message().contains("Exit code: -1")),
        Ok(_) => panic!("expected a failure"),
    }
    match loader_result("docx", "pandoc", true, Some(0), vec![0xff, 0xfe], "") {
        Err(DocumentError::NonUtf8Output) => {}
        _ => panic!("expected the non-UTF-8 error"),
    }
    assert_eq!(DocumentError::NonUtf8Output.message(), "Document loader produced non-UTF8 output");
}
