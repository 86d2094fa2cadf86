use conventional_prs::{CharSetConfig, ErrorReporter, OutputFormat, ParseError, ParseErrorKind};

#[test]
fn test_report_invalid_type() {
    let reporter = ErrorReporter::new(OutputFormat::Color, CharSetConfig::Unicode);
    let error = ParseError::new(
        ParseErrorKind::InvalidType {
            found: "fature".to_string(),
            expected: vec!["feat".to_string(), "fix".to_string()],
        },
        0..6,
    );

    let input = "fature: description";
    let report = reporter.report_errors(input, &vec![error]);

    assert!(report.contains("Invalid commit type"));
    assert!(report.contains("fature"));
}

#[test]
fn test_report_invalid_scope() {
    let reporter = ErrorReporter::new(OutputFormat::Color, CharSetConfig::Unicode);
    let error = ParseError::new(
        ParseErrorKind::InvalidScope {
            found: "wrong".to_string(),
            expected: vec!["api".to_string(), "ui".to_string()],
        },
        5..10,
    );

    let input = "feat(wrong): description";
    let report = reporter.report_errors(input, &vec![error]);

    assert!(report.contains("Invalid scope"));
    assert!(report.contains("wrong"));
}

#[test]
fn test_github_format_no_colors() {
    let reporter = ErrorReporter::new(OutputFormat::Ascii, CharSetConfig::Ascii);
    let error = ParseError::new(ParseErrorKind::MissingSeparator, 4..4);

    let input = "feat description";
    let report = reporter.report_errors(input, &vec![error]);

    assert!(!report.contains("\x1b["));
    assert!(report.contains("Missing separator"));
}

#[test]
fn test_ascii_charset_uses_ascii_chars() {
    let reporter = ErrorReporter::new(OutputFormat::Ascii, CharSetConfig::Ascii);
    let error = ParseError::new(ParseErrorKind::MissingSeparator, 4..4);
    let input = "feat description";
    let report = reporter.report_errors(input, &vec![error]);

    assert!(!report.contains("─"));
    assert!(!report.contains("│"));
    assert!(!report.contains("╭"));
    assert!(report.contains("|") || report.contains("-"));
}

#[test]
fn test_unicode_charset_uses_unicode_chars() {
    let reporter = ErrorReporter::new(OutputFormat::Ascii, CharSetConfig::Unicode);
    let error = ParseError::new(ParseErrorKind::MissingSeparator, 4..4);
    let input = "feat description";
    let report = reporter.report_errors(input, &vec![error]);

    assert!(report.contains("─") || report.contains("│"));
}

#[test]
fn test_ascii_charset_uses_underscore_for_spaces() {
    let reporter = ErrorReporter::new(OutputFormat::Ascii, CharSetConfig::Ascii);
    let error = ParseError::new(ParseErrorKind::TrailingSpaces, 4..6);
    let input = "feat  ";
    let report = reporter.report_errors(input, &vec![error]);

    assert!(report.contains("feat__"));
}

#[test]
fn test_unicode_charset_uses_visible_space_char() {
    let reporter = ErrorReporter::new(OutputFormat::Ascii, CharSetConfig::Unicode);
    let error = ParseError::new(ParseErrorKind::TrailingSpaces, 4..6);
    let input = "feat  ";
    let report = reporter.report_errors(input, &vec![error]);

    assert!(report.contains("feat␣␣"));
}
