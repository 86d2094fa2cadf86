use conventional_prs::{ConventionalParser, ParseErrorKind};

fn default_parser() -> ConventionalParser {
    ConventionalParser::new(
        vec![
            "feat".to_string(),
            "fix".to_string(),
            "docs".to_string(),
            "style".to_string(),
            "refactor".to_string(),
            "test".to_string(),
            "chore".to_string(),
        ],
        None,
    )
}

#[test]
fn test_valid_simple_commit() {
    let parser = default_parser();
    let result = parser.parse("feat: add new feature").into_result();
    assert!(result.is_ok());
    let header = result.unwrap();
    assert_eq!(header.commit_type, "feat");
    assert_eq!(header.scope, None);
    assert_eq!(header.breaking, false);
    assert_eq!(header.description, "add new feature");
}

#[test]
fn test_valid_commit_with_scope() {
    let parser = default_parser();
    let result = parser.parse("fix(api): resolve bug").into_result();
    assert!(result.is_ok());
    let header = result.unwrap();
    assert_eq!(header.commit_type, "fix");
    assert_eq!(header.scope, Some(vec!["api".to_string()]));
    assert_eq!(header.breaking, false);
    assert_eq!(header.description, "resolve bug");
}

#[test]
fn test_valid_breaking_change() {
    let parser = default_parser();
    let result = parser.parse("feat!: breaking change").into_result();
    assert!(result.is_ok());
    let header = result.unwrap();
    assert_eq!(header.commit_type, "feat");
    assert_eq!(header.breaking, true);
}

#[test]
fn test_valid_breaking_change_with_scope() {
    let parser = default_parser();
    let result = parser.parse("feat(core)!: breaking change").into_result();
    assert!(result.is_ok());
    let header = result.unwrap();
    assert_eq!(header.commit_type, "feat");
    assert_eq!(header.scope, Some(vec!["core".to_string()]));
    assert_eq!(header.breaking, true);
}

#[test]
fn test_invalid_type() {
    let parser = default_parser();
    let result = parser.parse("fature: typo in type").into_result();
    assert!(result.is_err());
    let errors = result.unwrap_err();
    assert!(!errors.is_empty());
    // Check that we got an InvalidType error
    assert!(
        errors
            .iter()
            .any(|e| matches!(&e.kind, ParseErrorKind::InvalidType { .. }))
    );
}

#[test]
fn test_invalid_scope() {
    let parser = ConventionalParser::new(
        vec!["feat".to_string()],
        Some(vec!["api".to_string(), "ui".to_string()]),
    );
    let result = parser.parse("feat(core): description").into_result();
    assert!(result.is_err());
    let errors = result.unwrap_err();
    assert!(
        errors
            .iter()
            .any(|e| matches!(&e.kind, ParseErrorKind::InvalidScope { .. }))
    );
}

#[test]
fn test_missing_closing_paren_recovery() {
    let parser = default_parser();
    // Parser should handle missing closing paren
    let result = parser.parse("feat(api: description").into_result();
    // This should parse but might have errors
    // The parser attempts recovery
    let _ = result; // Just verify it doesn't panic
}

#[test]
fn test_missing_space_after_colon() {
    let parser = default_parser();
    let result = parser.parse("feat:description").into_result();
    // Should still parse due to recovery
    if let Ok(header) = result {
        assert_eq!(header.description, "description");
    }
}

#[test]
fn test_scope_with_hyphen() {
    let parser = default_parser();
    let result = parser.parse("feat(my-scope): description").into_result();
    assert!(result.is_ok());
    let header = result.unwrap();
    assert_eq!(header.scope, Some(vec!["my-scope".to_string()]));
}

#[test]
fn test_type_with_hyphen() {
    let parser = ConventionalParser::new(vec!["my-type".to_string()], None);
    let result = parser.parse("my-type: description").into_result();
    assert!(result.is_ok());
}

// COMPREHENSIVE RECOVERY TESTS (as mandated by AGENTS.md)

#[test]
fn test_recovery_multiple_errors_missing_closing_paren_and_invalid_type() {
    let parser = default_parser();
    let result = parser.parse("fature(api: description").into_result();
    // Should report invalid type even with missing closing paren
    if let Err(errors) = result {
        // May report parse error or invalid type
        assert!(!errors.is_empty());
    }
}

#[test]
fn test_recovery_missing_space_after_colon_with_valid_type() {
    let parser = default_parser();
    let result = parser.parse("fix:no space here").into_result();
    // Should recover and parse successfully
    if let Ok(header) = result {
        assert_eq!(header.commit_type, "fix");
        assert_eq!(header.description, "no space here");
    }
}

#[test]
fn test_recovery_empty_scope_parentheses() {
    let parser = default_parser();
    // Empty scope should fail to parse
    let result = parser.parse("feat(): description").into_result();
    assert!(result.is_err());
}

#[test]
fn test_recovery_scope_with_special_chars() {
    let parser = default_parser();
    let result = parser.parse("feat(api/v2): description").into_result();
    assert!(result.is_ok());
    if let Ok(header) = result {
        assert_eq!(header.scope, Some(vec!["api/v2".to_string()]));
    }
}

#[test]
fn test_recovery_scope_with_spaces() {
    let parser = default_parser();
    let result = parser.parse("feat(my scope): description").into_result();
    assert!(result.is_ok());
    if let Ok(header) = result {
        assert_eq!(header.scope, Some(vec!["my scope".to_string()]));
    }
}

#[test]
fn test_recovery_breaking_with_scope() {
    let parser = default_parser();
    let result = parser.parse("feat(api)!: major change").into_result();
    assert!(result.is_ok());
    if let Ok(header) = result {
        assert_eq!(header.commit_type, "feat");
        assert_eq!(header.scope, Some(vec!["api".to_string()]));
        assert!(header.breaking);
        assert_eq!(header.description, "major change");
    }
}

#[test]
fn test_recovery_multiple_colons() {
    let parser = default_parser();
    let result = parser.parse("feat: description: with: colons").into_result();
    assert!(result.is_ok());
    if let Ok(header) = result {
        assert_eq!(header.description, "description: with: colons");
    }
}

#[test]
fn test_recovery_unicode_in_description() {
    let parser = default_parser();
    let result = parser.parse("feat: añadir función 🎉").into_result();
    assert!(result.is_ok());
    if let Ok(header) = result {
        assert_eq!(header.description, "añadir función 🎉");
    }
}

#[test]
fn test_recovery_very_long_type() {
    let parser =
        ConventionalParser::new(vec!["verylongtypenamethatisunusual".to_string()], None);
    let result = parser.parse("verylongtypenamethatisunusual: description").into_result();
    assert!(result.is_ok());
}

#[test]
fn test_recovery_numeric_in_scope() {
    let parser = default_parser();
    let result = parser.parse("feat(api-v2-beta3): description").into_result();
    assert!(result.is_ok());
    if let Ok(header) = result {
        assert_eq!(header.scope, Some(vec!["api-v2-beta3".to_string()]));
    }
}

#[test]
fn test_invalid_type_with_valid_scope() {
    let parser =
        ConventionalParser::new(vec!["feat".to_string()], Some(vec!["api".to_string()]));
    let result = parser.parse("fix(api): description").into_result();
    // Should fail on invalid type
    assert!(result.is_err());
    if let Err(errors) = result {
        assert!(
            errors
                .iter()
                .any(|e| matches!(&e.kind, ParseErrorKind::InvalidType { .. }))
        );
    }
}

#[test]
fn test_valid_type_with_invalid_scope() {
    let parser =
        ConventionalParser::new(vec!["feat".to_string()], Some(vec!["api".to_string()]));
    let result = parser.parse("feat(ui): description").into_result();
    // Should fail on invalid scope
    assert!(result.is_err());
    if let Err(errors) = result {
        assert!(
            errors
                .iter()
                .any(|e| matches!(&e.kind, ParseErrorKind::InvalidScope { .. }))
        );
    }
}

// === COMPREHENSIVE EDGE CASE TESTS ===

#[test]
fn test_missing_closing_paren_with_colon() {
    let parser = default_parser();
    let result = parser.parse("feat(api: description").into_result();
    assert!(result.is_err());
    if let Err(errors) = result {
        assert!(
            errors
                .iter()
                .any(|e| matches!(&e.kind, ParseErrorKind::MissingClosingParen))
        );
    }
}

#[test]
fn test_missing_closing_paren_without_colon() {
    let parser = default_parser();
    let result = parser.parse("feat(api description").into_result();
    assert!(result.is_err());
}

#[test]
fn test_empty_input() {
    let parser = default_parser();
    let result = parser.parse("").into_result();
    assert!(result.is_err());
}

#[test]
fn test_only_type_no_separator() {
    let parser = default_parser();
    let result = parser.parse("feat").into_result();
    assert!(result.is_err());
}

#[test]
fn test_only_colon() {
    let parser = default_parser();
    let result = parser.parse(":").into_result();
    assert!(result.is_err());
}

#[test]
fn test_colon_without_type() {
    let parser = default_parser();
    let result = parser.parse(": description").into_result();
    assert!(result.is_err());
}

#[test]
fn test_type_colon_no_description() {
    let parser = default_parser();
    let result = parser.parse("feat: ").into_result();
    assert!(result.is_err());
}

#[test]
fn test_type_colon_only_spaces() {
    let parser = default_parser();
    let result = parser.parse("feat:    ").into_result();
    assert!(result.is_err());
}

#[test]
fn test_scope_with_multiple_words() {
    let parser = default_parser();
    let result = parser.parse("feat(api core): description").into_result();
    assert!(result.is_ok());
    if let Ok(header) = result {
        assert_eq!(header.scope, Some(vec!["api core".to_string()]));
    }
}

#[test]
fn test_description_with_colon() {
    let parser = default_parser();
    let result = parser.parse("feat: add feature: the new one").into_result();
    assert!(result.is_ok());
    if let Ok(header) = result {
        assert_eq!(header.description, "add feature: the new one");
    }
}

#[test]
fn test_description_with_parentheses() {
    let parser = default_parser();
    let result = parser.parse("feat: add feature (with notes)").into_result();
    assert!(result.is_ok());
    if let Ok(header) = result {
        assert_eq!(header.description, "add feature (with notes)");
    }
}

#[test]
fn test_breaking_without_scope() {
    let parser = default_parser();
    let result = parser.parse("feat!: breaking without scope").into_result();
    assert!(result.is_ok());
    if let Ok(header) = result {
        assert!(header.breaking);
        assert_eq!(header.scope, None);
    }
}

#[test]
fn test_multiple_exclamation_marks() {
    let parser = default_parser();
    let result = parser.parse("feat!!: description").into_result();
    // Should only recognize first ! as breaking indicator
    if let Ok(header) = result {
        assert!(header.description.starts_with("!: description") || header.breaking);
    }
}

#[test]
fn test_newline_in_input() {
    let parser = default_parser();
    let result = parser.parse("feat: description\nsecond line").into_result();
    // Should only parse first line
    if let Ok(header) = result {
        assert!(!header.description.contains('\n'));
    }
}

#[test]
fn test_tab_characters() {
    let parser = default_parser();
    let result = parser.parse("feat:\tdescription").into_result();
    // Tab is not a space
    assert!(result.is_err());
}

#[test]
fn test_unicode_in_type() {
    let parser = ConventionalParser::new(
        vec!["фіча".to_string()], // Cyrillic
        None,
    );
    let result = parser.parse("фіча: опис").into_result();
    assert!(result.is_ok());
}

#[test]
fn test_unicode_in_scope() {
    let parser = default_parser();
    let result = parser.parse("feat(апі): description").into_result();
    assert!(result.is_ok());
    if let Ok(header) = result {
        assert_eq!(header.scope, Some(vec!["апі".to_string()]));
    }
}

#[test]
fn test_emoji_in_description() {
    let parser = default_parser();
    let result = parser.parse("feat: add 🎉 celebration").into_result();
    assert!(result.is_ok());
    if let Ok(header) = result {
        assert!(header.description.contains('🎉'));
    }
}

#[test]
fn test_very_long_description() {
    let parser = default_parser();
    let long_desc = "a".repeat(500);
    let input = format!("feat: {long_desc}");
    let result = parser.parse(&input).into_result();
    assert!(result.is_ok());
    if let Ok(header) = result {
        assert_eq!(header.description.len(), 500);
    }
}

#[test]
fn test_scope_with_underscores() {
    let parser = default_parser();
    let result = parser.parse("feat(api_v2): description").into_result();
    assert!(result.is_ok());
    if let Ok(header) = result {
        assert_eq!(header.scope, Some(vec!["api_v2".to_string()]));
    }
}

#[test]
fn test_scope_with_dots() {
    let parser = default_parser();
    let result = parser.parse("feat(api.v2): description").into_result();
    assert!(result.is_ok());
    if let Ok(header) = result {
        assert_eq!(header.scope, Some(vec!["api.v2".to_string()]));
    }
}

#[test]
fn test_all_valid_default_types() {
    let parser = default_parser();
    let types = vec!["feat", "fix", "docs", "style", "refactor", "test", "chore"];

    for commit_type in types {
        let input = format!("{commit_type}: description");
        let result = parser.parse(&input).into_result();
        assert!(result.is_ok(), "Failed for type: {commit_type}");
    }
}

#[test]
fn test_case_sensitive_type() {
    let parser = default_parser();
    let result = parser.parse("FEAT: description").into_result();
    // Types are case-sensitive, should fail
    assert!(result.is_err());
}

#[test]
fn test_case_sensitive_scope() {
    let parser =
        ConventionalParser::new(vec!["feat".to_string()], Some(vec!["api".to_string()]));
    let result = parser.parse("feat(API): description").into_result();
    // Scopes are case-sensitive
    assert!(result.is_err());
}

#[test]
fn test_whitespace_trimming_in_description() {
    let parser = default_parser();
    // Extra spaces and trailing spaces should be errors
    let result = parser.parse("feat:   description with leading spaces   ").into_result();
    assert!(result.is_err());
    if let Err(errors) = result {
        // Should have error for extra spaces after colon and trailing spaces
        assert!(
            errors
                .iter()
                .any(|e| matches!(&e.kind, ParseErrorKind::ExtraSpaceAfterColon))
        );
        assert!(
            errors
                .iter()
                .any(|e| matches!(&e.kind, ParseErrorKind::TrailingSpaces))
        );
    }

    // Valid commit with proper spacing
    let result = parser.parse("feat: description with no extra spaces").into_result();
    assert!(result.is_ok());
    if let Ok(header) = result {
        assert_eq!(header.description, "description with no extra spaces");
    }
}

#[test]
fn test_extra_space_before_colon() {
    let parser = default_parser();
    let result = parser.parse("feat : description").into_result();
    assert!(result.is_err());
    if let Err(errors) = result {
        assert!(
            errors
                .iter()
                .any(|e| matches!(&e.kind, ParseErrorKind::ExtraSpaceBeforeColon))
        );
    }
}

#[test]
fn test_extra_spaces_after_colon() {
    let parser = default_parser();
    let result = parser.parse("feat:  description").into_result();
    assert!(result.is_err());
    if let Err(errors) = result {
        assert!(
            errors
                .iter()
                .any(|e| matches!(&e.kind, ParseErrorKind::ExtraSpaceAfterColon))
        );
    }
}

#[test]
fn test_trailing_spaces_error() {
    let parser = default_parser();
    let result = parser.parse("feat: description ").into_result();
    assert!(result.is_err());
    if let Err(errors) = result {
        assert!(
            errors
                .iter()
                .any(|e| matches!(&e.kind, ParseErrorKind::TrailingSpaces))
        );
    }
}

#[test]
fn test_multiple_spacing_errors() {
    let parser = default_parser();
    let result = parser.parse("feat :  description  ").into_result();
    assert!(result.is_err());
    if let Err(errors) = result {
        // Should catch space before colon, extra spaces after, and trailing
        assert!(errors.len() >= 2);
    }
}
