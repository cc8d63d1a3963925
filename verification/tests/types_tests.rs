use debug_session::commands::CompletionsQuery;
use debug_session::protocol::client_source;
use debug_session::strings::{ci_contains_str, parse_u64, str_ends_with, str_eq};
use debug_session::types::{should_redact, CodeLabel, CodeLabelSpan, CodeLabelSpanLiteral, Command, TextRange};

#[test]
fn sensitive_env_names_are_detected_by_suffix() {
    assert!(should_redact("API_KEY"));
    assert!(should_redact("CLIENT_SECRET"));
    assert!(should_redact("GITHUB_TOKEN"));
    assert!(should_redact("DB_PASSWORD"));
    assert!(!should_redact("PATH"));
    assert!(!should_redact("KEYBOARD"));
    assert!(!should_redact(""));
}

#[test]
fn redacted_env_replaces_only_sensitive_values() {
    let command = Command {
        command: "debugger".to_string(),
        args: vec!["--port".to_string(), "9000".to_string()],
        env: vec![
            ("PATH".to_string(), "/usr/bin".to_string()),
            ("API_KEY".to_string(), "hunter2".to_string()),
        ],
    };
    let shown = command.redacted_env();
    assert_eq!(shown.len(), 2);
    assert_eq!(shown[0], ("PATH".to_string(), "/usr/bin".to_string()));
    assert_eq!(shown[1], ("API_KEY".to_string(), "[REDACTED]".to_string()));
}

#[test]
fn client_source_derives_the_file_name() {
    let source = client_source("/home/dev/project/main.rs");
    assert_eq!(source.path.as_deref(), Some("/home/dev/project/main.rs"));
    assert_eq!(source.name.as_deref(), Some("main.rs"));

    let bare = client_source("main.rs");
    assert_eq!(bare.name.as_deref(), Some("main.rs"));

    let trailing = client_source("/home/dev/");
    assert_eq!(trailing.path.as_deref(), Some("/home/dev/"));
    assert_eq!(trailing.name, None);

    let empty = client_source("");
    assert_eq!(empty.name, None);
}

#[test]
fn completions_query_records_the_cursor() {
    let query = CompletionsQuery::new("print(x".to_string(), 4, 7, Some(2));
    assert_eq!(query.query, "print(x");
    assert_eq!(query.line, Some(4));
    assert_eq!(query.column, 7);
    assert_eq!(query.frame_id, Some(2));
}

#[test]
fn code_labels_clone_deeply() {
    let label = CodeLabel {
        code: "let x = 1;".to_string(),
        spans: vec![
            CodeLabelSpan::CodeRange(TextRange { start: 4, end: 5 }),
            CodeLabelSpan::Literal(CodeLabelSpanLiteral {
                text: "x".to_string(),
                highlight_name: Some("variable".to_string()),
            }),
        ],
        filter_range: TextRange { start: 0, end: 10 },
    };
    let copy = label.clone();
    assert_eq!(copy.code, label.code);
    assert_eq!(copy.filter_range, label.filter_range);
    assert_eq!(copy.spans.len(), 2);
    match &copy.spans[1] {
        CodeLabelSpan::Literal(literal) => {
            assert_eq!(literal.text, "x");
            assert_eq!(literal.highlight_name.as_deref(), Some("variable"));
        }
        other => panic!("expected a literal span, got {other:?}"),
    }
}

#[test]
fn decimal_parsing_is_exact() {
    assert_eq!(parse_u64("0"), Some(0));
    assert_eq!(parse_u64("42"), Some(42));
    assert_eq!(parse_u64("18446744073709551615"), Some(u64::MAX));
    assert_eq!(parse_u64("18446744073709551616"), None, "one past u64::MAX overflows");
    assert_eq!(parse_u64(""), None);
    assert_eq!(parse_u64("4x2"), None);
    assert_eq!(parse_u64("-1"), None);
}

#[test]
fn string_helpers_match_exactly() {
    assert!(str_eq("abc", "abc"));
    assert!(!str_eq("abc", "abd"));
    assert!(!str_eq("abc", "ab"));
    assert!(str_ends_with("API_KEY", "KEY"));
    assert!(!str_ends_with("KEY_RING", "KEY"));
    assert!(ci_contains_str("Local Variables", "local"));
    assert!(ci_contains_str("GLOBALS", "global"));
    assert!(!ci_contains_str("Registers", "local"));
}
