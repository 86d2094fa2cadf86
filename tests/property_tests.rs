use conventional_prs::report::{best_match, find_similar, join_names, SIMILARITY_THRESHOLD_BITS};
use conventional_prs::{
    CharSetConfig, CommitHeader, Config, ConventionalParser, ErrorReporter, OutputFormat,
    ParseError, ParseErrorKind,
};

fn strings(v: &[&str]) -> Vec<String> {
    v.iter().map(|s| s.to_string()).collect()
}

fn default_types_parser() -> ConventionalParser {
    ConventionalParser::new(Config::default().types, None)
}

fn kinds_and_spans(errors: &[ParseError]) -> Vec<(ParseErrorKind, usize, usize)> {
    errors.iter().map(|e| (e.kind.clone(), e.span.start, e.span.end)).collect()
}

#[test]
fn autosquash_prefix_offsets_the_invalid_type_span() {
    let outcome = default_types_parser().parse("fixup! fature: typo in type");
    let errors = outcome.errors().expect("parse must fail");
    assert_eq!(errors.len(), 1);
    assert!(matches!(errors[0].kind, ParseErrorKind::InvalidType { .. }));
    assert_eq!(errors[0].span, 7..13);
}

#[test]
fn stacked_autosquash_prefixes_are_all_stripped() {
    let outcome = default_types_parser().parse("squash! fixup!  feat: add endpoint");
    let header = outcome.output().expect("parse must succeed");
    assert_eq!(header.commit_type, "feat");
    assert_eq!(header.description, "add endpoint");
    let failed = default_types_parser().parse("fixup!   fature: x");
    assert_eq!(failed.errors().unwrap()[0].span, 9..15);
}

#[test]
fn success_example_gives_the_full_header() {
    let outcome = default_types_parser().parse("feat: add endpoint");
    assert_eq!(outcome.input, "feat: add endpoint");
    assert_eq!(
        outcome.into_result(),
        Ok(CommitHeader {
            commit_type: "feat".to_string(),
            scope: None,
            breaking: false,
            description: "add endpoint".to_string(),
        })
    );
}

#[test]
fn multi_scope_reports_only_the_invalid_token() {
    let parser = ConventionalParser::new(strings(&["feat"]), Some(strings(&["lua", "mods"])));
    let errors = parser.parse("feat(lua,mods,invalid): x").into_result().unwrap_err();
    assert_eq!(
        kinds_and_spans(&errors),
        vec![(
            ParseErrorKind::InvalidScope {
                found: "invalid".to_string(),
                expected: strings(&["lua", "mods"]),
            },
            14,
            21
        )]
    );
}

#[test]
fn type_used_as_scope_takes_precedence() {
    let parser = ConventionalParser::new(
        strings(&["feat", "fix", "refactor", "build"]),
        Some(strings(&["api", "ui"])),
    );
    let errors = parser.parse("refactor(build): simplify").into_result().unwrap_err();
    assert_eq!(
        kinds_and_spans(&errors),
        vec![(
            ParseErrorKind::TypeUsedAsScope {
                found: "build".to_string(),
                expected_scopes: strings(&["api", "ui"]),
                available_types: strings(&["feat", "fix", "refactor", "build"]),
            },
            9,
            14
        )]
    );
}

#[test]
fn suggestion_is_gated_by_the_threshold() {
    let candidates = strings(&["database", "api"]);
    assert_eq!(find_similar("databse", &candidates), Some("database".to_string()));
    assert_eq!(find_similar("xyz", &candidates), None);
}

#[test]
fn best_match_takes_the_first_highest_score_above_threshold() {
    let t = SIMILARITY_THRESHOLD_BITS;
    assert_eq!(best_match(&vec![0, t + 1, t + 5, t + 5]), Some(2));
    assert_eq!(best_match(&vec![t, 3]), None);
    assert_eq!(best_match(&vec![]), None);
}

#[test]
fn ascii_format_reports_hold_no_escape_byte() {
    let parser = ConventionalParser::new(strings(&["feat", "fix"]), Some(strings(&["api"])));
    for input in ["fature: x", "feat(ui) :  x  ", "", "feat(api", "fix!!: y", "🎉(x): y"] {
        let outcome = parser.parse(input);
        for charset in [CharSetConfig::Ascii, CharSetConfig::Unicode] {
            let report = outcome.report(OutputFormat::Ascii, charset).expect("parse must fail");
            assert!(!report.contains('\u{1b}'), "escape in report of {input:?}");
        }
    }
}

#[test]
fn color_format_report_holds_escape_sequences() {
    let outcome = default_types_parser().parse("fature: x");
    let report = outcome.report(OutputFormat::Color, CharSetConfig::Unicode).unwrap();
    assert!(report.contains("\x1b["));
    assert!(report.contains("Invalid commit type 'fature'"));
}

#[test]
fn trailing_space_is_made_visible() {
    let outcome = default_types_parser().parse("feat: description ");
    let errors = outcome.errors().unwrap();
    assert_eq!(kinds_and_spans(errors), vec![(ParseErrorKind::TrailingSpaces, 17, 18)]);
    let ascii = outcome.report(OutputFormat::Ascii, CharSetConfig::Ascii).unwrap();
    assert!(ascii.contains("description_"));
    let unicode = outcome.report(OutputFormat::Ascii, CharSetConfig::Unicode).unwrap();
    assert!(unicode.contains("description␣"));
}

#[test]
fn scope_normalization_ignores_spaces_after_commas() {
    let parser = default_types_parser();
    let spaced = parser.parse("feat(a, b): x").into_result().unwrap();
    let tight = parser.parse("feat(a,b): x").into_result().unwrap();
    assert_eq!(spaced.scope, Some(strings(&["a", "b"])));
    assert_eq!(spaced.scope, tight.scope);
}

#[test]
fn spans_count_characters_not_bytes() {
    let outcome = default_types_parser().parse("fixup! 🎉: añadir  ");
    let input_chars = outcome.input.chars().count();
    for e in outcome.errors().unwrap() {
        assert!(e.span.start <= e.span.end && e.span.end <= input_chars);
    }
    assert_eq!(
        kinds_and_spans(outcome.errors().unwrap()),
        vec![
            (ParseErrorKind::EmptyType, 7, 8),
            (ParseErrorKind::MissingColon, 7, 7),
            (ParseErrorKind::MissingSpace, 7, 7),
            (ParseErrorKind::TrailingSpaces, 16, 18),
        ]
    );
}

#[test]
fn empty_input_collects_every_structural_defect() {
    let errors = default_types_parser().parse("").into_result().unwrap_err();
    assert_eq!(
        kinds_and_spans(&errors),
        vec![
            (ParseErrorKind::EmptyType, 0, 0),
            (ParseErrorKind::MissingColon, 0, 0),
            (ParseErrorKind::MissingSpace, 0, 0),
            (ParseErrorKind::MissingDescription, 0, 0),
        ]
    );
}

#[test]
fn each_structural_defect_kind_has_an_input() {
    let parser = default_types_parser();
    let cases: Vec<(&str, Vec<(ParseErrorKind, usize, usize)>)> = vec![
        ("feat(): x", vec![(ParseErrorKind::EmptyScope, 4, 6)]),
        ("feat(a,,b): x", vec![(ParseErrorKind::EmptyScope, 4, 10)]),
        ("feat( a): x", vec![(ParseErrorKind::ExtraSpaceAfterOpenParen, 5, 6)]),
        ("feat(a ): x", vec![(ParseErrorKind::ExtraSpaceBeforeCloseParen, 6, 7)]),
        (
            "feat(api: x",
            vec![
                (ParseErrorKind::MissingClosingParen, 4, 11),
                (ParseErrorKind::MissingColon, 11, 11),
                (ParseErrorKind::MissingSpace, 10, 11),
                (ParseErrorKind::MissingDescription, 11, 11),
            ],
        ),
        ("feat : x", vec![(ParseErrorKind::ExtraSpaceBeforeColon, 4, 5)]),
        ("feat:   x", vec![(ParseErrorKind::ExtraSpaceAfterColon, 6, 8)]),
        ("feat x", vec![(ParseErrorKind::MissingColon, 5, 5), (ParseErrorKind::MissingSpace, 4, 5)]),
        ("feat:x", vec![(ParseErrorKind::MissingSpace, 4, 5)]),
        ("feat: ", vec![(ParseErrorKind::MissingDescription, 6, 6)]),
        ("feat: x\t ", vec![(ParseErrorKind::TrailingSpaces, 7, 9)]),
    ];
    for (input, expected) in cases {
        let errors = parser.parse(input).into_result().unwrap_err();
        assert_eq!(kinds_and_spans(&errors), expected, "input {input:?}");
    }
}

#[test]
fn scope_group_runs_to_the_first_closing_paren() {
    let header = default_types_parser().parse("feat(a:b): x").into_result().unwrap();
    assert_eq!(header.scope, Some(strings(&["a:b"])));
    let errors = default_types_parser().parse("feat(core\nmore: x").into_result().unwrap_err();
    assert_eq!(errors[0].kind, ParseErrorKind::MissingClosingParen);
    assert_eq!(errors[0].span, 4..9);
}

#[test]
fn carriage_return_before_a_line_break_is_dropped() {
    let reporter = ErrorReporter::new(OutputFormat::Ascii, CharSetConfig::Unicode);
    assert_eq!(reporter.customize_underlines("x\r\n──┬──\r\ny\r".to_string()), "x\n╰─┬─╯\ny\r\n");
}

#[test]
fn description_stops_at_the_first_line_break() {
    let header = default_types_parser()
        .parse("feat: first line\nsecond line")
        .into_result()
        .unwrap();
    assert_eq!(header.description, "first line");
}

#[test]
fn message_table_texts() {
    let reporter = ErrorReporter::new(OutputFormat::Ascii, CharSetConfig::Ascii);
    let (headline, label, help) = reporter.get_error_details(&ParseErrorKind::InvalidType {
        found: "fature".to_string(),
        expected: strings(&["feature", "fix"]),
    });
    assert_eq!(headline, "Invalid commit type 'fature'");
    assert_eq!(label, "'fature' is not a valid type");
    assert_eq!(help.unwrap(), "Did you mean 'feature'?\nValid types: feature, fix");
    let (_, _, help) = reporter.get_error_details(&ParseErrorKind::InvalidType {
        found: "fature".to_string(),
        expected: strings(&["feat", "fix"]),
    });
    assert_eq!(help.unwrap(), "Valid types: feat, fix");
    let (_, _, help) = reporter.get_error_details(&ParseErrorKind::InvalidScope {
        found: "zzz".to_string(),
        expected: strings(&["api", "ui"]),
    });
    assert_eq!(help.unwrap(), "Valid scopes: api, ui");
    let (headline, _, help) = reporter.get_error_details(&ParseErrorKind::UnexpectedChar('#'));
    assert_eq!(headline, "Unexpected character '#'");
    assert_eq!(help, None);
    assert_eq!(join_names(&strings(&["a", "b", "c"])), "a, b, c");
}

#[test]
fn several_defects_share_one_numbered_report() {
    let reporter = ErrorReporter::new(OutputFormat::Ascii, CharSetConfig::Ascii);
    let errors = vec![
        ParseError::new(ParseErrorKind::ExtraSpaceBeforeColon, 4..5),
        ParseError::new(ParseErrorKind::ExtraSpaceAfterColon, 7..8),
    ];
    let spec = reporter.build_combined_report(&errors);
    assert_eq!(spec.message, "Invalid commit message format");
    assert_eq!(spec.labels[0].message, "extra space found here (#1)");
    assert_eq!(spec.labels[1].message, "too many spaces (#2)");
    assert_eq!(spec.helps.len(), 2);
    let report = reporter.report_errors("feat :  x", &errors);
    assert!(report.contains("Invalid commit message format"));
    assert!(report.contains("feat_: _x"));
}

#[test]
fn underline_glyphs_tell_points_from_ranges() {
    let reporter = ErrorReporter::new(OutputFormat::Ascii, CharSetConfig::Unicode);
    let refine = |s: &str| -> String {
        reporter.customize_underline_chars(&s.chars().collect()).into_iter().collect()
    };
    assert_eq!(refine("──┬──"), "╰─┬─╯");
    assert_eq!(refine("  ┬ x"), "  ╿ x");
    assert_eq!(refine("─┬"), "╰╿");
    assert_eq!(refine("─ ┬─"), "─ ╿─");
    let stripped = ErrorReporter::strip_ansi(&"\x1b[31m──┬──\x1b[0m".chars().collect());
    assert_eq!(stripped.iter().collect::<String>(), "──┬──");
    let painted: String = reporter
        .customize_with_ansi_preserved(&"\x1b[31m──┬──\x1b[0m".chars().collect(), &stripped)
        .into_iter()
        .collect();
    assert_eq!(painted, "\x1b[31m╰─┬─╯\x1b[0m");
}

#[test]
fn visualization_replaces_only_spaces_in_spacing_spans() {
    let reporter = ErrorReporter::new(OutputFormat::Ascii, CharSetConfig::Ascii);
    let errors = vec![
        ParseError::new(ParseErrorKind::ExtraSpaceAfterColon, 6..8).clone(),
        ParseError::new(ParseErrorKind::MissingSpace, 0..3),
    ];
    assert_eq!(reporter.visualize_spacing_errors("a b:   x y", &errors), "a b:  _x y");
}

#[test]
fn success_has_no_report() {
    let outcome = default_types_parser().parse("fix(api): resolve bug");
    assert!(outcome.report(OutputFormat::Ascii, CharSetConfig::Ascii).is_none());
    assert!(outcome.errors().is_none());
}

#[test]
fn default_config_values() {
    let config = Config::default();
    assert_eq!(
        config.types,
        strings(&[
            "feat", "fix", "docs", "style", "refactor", "perf", "test", "build", "ci", "chore",
            "revert"
        ])
    );
    assert_eq!(config.target_url, "https://github.com/Ezard/semantic-prs");
    assert_eq!(config.charset, CharSetConfig::Ascii);
    assert!(!config.allow_merge_commits && !config.allow_revert_commits && !config.any_commit);
}

#[test]
fn repeated_parses_agree() {
    let parser = ConventionalParser::new(strings(&["feat"]), Some(strings(&["api"])));
    for input in ["feat(api): x", "fature(ui) :  y ", "", "squash! feat(a, b)!: z"] {
        let first = parser.parse(input).into_result();
        let second = parser.parse(input).into_result();
        assert_eq!(first, second);
    }
}
