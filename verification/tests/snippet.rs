use localgpt::snippet::{extract_snippet, snippet};

#[test]
fn snippet_keeps_short_content_whole() {
    assert_eq!(
        extract_snippet("The quick brown fox jumps", "BROWN", 120),
        "The quick brown fox jumps"
    );
}

#[test]
fn snippet_cuts_around_match() {
    let content = format!("{}needle{}", "a".repeat(50), "b".repeat(50));
    let expected = format!("...{}needle{}...", "a".repeat(30), "b".repeat(30));
    assert_eq!(extract_snippet(&content, "NEEDLE", 120), expected);
}

#[test]
fn snippet_trims_window() {
    let content = "  hello  ";
    assert_eq!(extract_snippet(content, "hello", 120), "hello");
}

#[test]
fn snippet_without_match_truncates() {
    assert_eq!(extract_snippet("line1\nline2", "zzz", 120), "line1 line2");
    assert_eq!(extract_snippet("abcdef", "zzz", 3), "abc...");
    assert_eq!(extract_snippet("ab\ncdef", "zzz", 4), "ab c...");
}

#[test]
fn snippet_refuses_cuts_inside_characters() {
    assert_eq!(snippet("ééé", "x", 1), None);
    assert_eq!(snippet("ééé", "x", 2), Some("é...".to_string()));
    assert_eq!(snippet("abc", "B", 10), Some("abc".to_string()));
}
