//! Laws that relate the library's functions, proved over their specifications.
use crate::parser::{
    all_defects, body_segments, description_defects, group_defects, group_stop, has_group, kept,
    parse_spec, scope_defect, scope_defects, scope_tokens, segments, semantic_defects,
    separator_defects, shifted, squash_offset, structural_defects, trim_span, type_defects, type_end,
    DefectKind, DefectView,
};
use crate::report::{
    bracketed, combined_helps, combined_report, decimal, details, digit, has_escape,
    help_list, joined, lemma_best_in_range, line_pieces, numbered_label, overlay_from,
    point_marks, refined_line, refined_lines, refined_text, report_has_escape, report_of,
    scores_of, single_report, strip_from, suggestion, underline_glyphs, visualized, AnsiState,
};
use crate::parser::{
    after_bang, after_colon, after_group, colon_pos, desc_hi, desc_lo, desc_start, fixup_marker,
    group_closed, has_partial_header, line_end, marker_at, partial_header, squash_marker,
};
use crate::text::{fwd, in_class, is_white, lemma_bwd_bounds, lemma_fwd_bounds, CharClass};
use vstd::prelude::*;

verus! {

/// Parsing is a function of its inputs: equal text and equal allowed lists
/// always give the same outcome, the same header or the same ordered defects.
pub proof fn lemma_parse_deterministic(
    input1: Seq<char>,
    input2: Seq<char>,
    types1: Seq<Seq<char>>,
    types2: Seq<Seq<char>>,
    scopes1: Option<Seq<Seq<char>>>,
    scopes2: Option<Seq<Seq<char>>>,
)
    requires
        input1 == input2,
        types1 == types2,
        scopes1 == scopes2,
    ensures
        parse_spec(input1, types1, scopes1) == parse_spec(input2, types2, scopes2),
{
}

/// No text in the list holds an escape character.
pub open spec fn all_clean(v: Seq<Seq<char>>) -> bool {
    forall|i: int| 0 <= i < v.len() ==> !has_escape(#[trigger] v[i])
}

/// The texts a defect carries hold no escape character.
pub open spec fn kind_clean(k: DefectKind) -> bool {
    match k {
        DefectKind::InvalidType { found, expected } => !has_escape(found) && all_clean(expected),
        DefectKind::InvalidScope { found, expected } => !has_escape(found) && all_clean(expected),
        DefectKind::TypeUsedAsScope { found, expected_scopes, available_types } => !has_escape(found)
            && all_clean(expected_scopes),
        DefectKind::UnexpectedChar(c) => c != '\u{1b}',
        DefectKind::GenericParseError(m) => !has_escape(m),
        _ => true,
    }
}

pub open spec fn kinds_clean(ds: Seq<DefectView>) -> bool {
    forall|i: int| 0 <= i < ds.len() ==> kind_clean(#[trigger] ds[i].kind)
}

pub proof fn lemma_clean_concat(a: Seq<char>, b: Seq<char>)
    requires
        !has_escape(a),
        !has_escape(b),
    ensures
        !has_escape(a + b),
{
    assert forall|i: int| 0 <= i < (a + b).len() implies (a + b)[i] != '\u{1b}' by {
        if i < a.len() {
            assert((a + b)[i] == a[i]);
        } else {
            assert((a + b)[i] == b[i - a.len()]);
        }
    }
}

pub proof fn lemma_clean_subrange(s: Seq<char>, a: int, b: int)
    requires
        !has_escape(s),
        0 <= a <= b <= s.len(),
    ensures
        !has_escape(s.subrange(a, b)),
{
    assert forall|i: int| 0 <= i < b - a implies s.subrange(a, b)[i] != '\u{1b}' by {
        assert(s.subrange(a, b)[i] == s[a + i]);
    }
}

proof fn lemma_literals_clean()
    ensures
        !has_escape("Invalid commit type '"@),
        !has_escape("'"@),
        !has_escape("' is not a valid type"@),
        !has_escape("Did you mean '"@),
        !has_escape("'?\n"@),
        !has_escape("Valid types: "@),
        !has_escape("Invalid scope '"@),
        !has_escape("' is not a valid scope"@),
        !has_escape("Valid scopes: "@),
        !has_escape("' is a commit type, not a scope"@),
        !has_escape("' is one of the commit types; write it as the type instead\nValid scopes: "@),
        !has_escape("Missing closing parenthesis"@),
        !has_escape("expected ')' here"@),
        !has_escape("Add a closing ')' after the scope"@),
        !has_escape("Missing separator"@),
        !has_escape("expected ': ' here"@),
        !has_escape("Add a colon followed by a space ': '"@),
        !has_escape("Missing description"@),
        !has_escape("description is required"@),
        !has_escape("Add a description after the colon"@),
        !has_escape("Empty type"@),
        !has_escape("type cannot be empty"@),
        !has_escape("Add a commit type (e.g., 'feat', 'fix')"@),
        !has_escape("Empty scope"@),
        !has_escape("scope cannot be empty"@),
        !has_escape("Either remove the parentheses or add a scope inside them"@),
        !has_escape("Unexpected character '"@),
        !has_escape("unexpected character"@),
        !has_escape("parse error"@),
        !has_escape("Ensure your commit message follows the format: type(scope): description"@),
        !has_escape("Extra space found between type and colon"@),
        !has_escape("extra space found here"@),
        !has_escape("Remove spaces between the type/scope and the colon"@),
        !has_escape("Extra spaces after colon"@),
        !has_escape("too many spaces"@),
        !has_escape("Use exactly one space after the colon"@),
        !has_escape("Extra space after opening parenthesis"@),
        !has_escape("unexpected space here"@),
        !has_escape("Remove the space immediately after '('"@),
        !has_escape("Extra space before closing parenthesis"@),
        !has_escape("Remove the space immediately before ')'"@),
        !has_escape("Missing colon separator"@),
        !has_escape("expected ':' here"@),
        !has_escape("Add a colon ':' after the type/scope, followed by a space"@),
        !has_escape("Missing space after colon"@),
        !has_escape("expected space here"@),
        !has_escape("Add a space after the colon, before the description"@),
        !has_escape("Trailing spaces at end of commit message"@),
        !has_escape("trailing whitespace"@),
        !has_escape("Remove trailing spaces from the end of the commit message"@),
        !has_escape(" (#"@),
        !has_escape(")"@),
        !has_escape("Invalid commit message format"@),
        !has_escape(", "@),
{
    reveal_strlit("Invalid commit type '");
    assert(!has_escape("Invalid commit type '"@));
    reveal_strlit("'");
    assert(!has_escape("'"@));
    reveal_strlit("' is not a valid type");
    assert(!has_escape("' is not a valid type"@));
    reveal_strlit("Did you mean '");
    assert(!has_escape("Did you mean '"@));
    reveal_strlit("'?\n");
    assert(!has_escape("'?\n"@));
    reveal_strlit("Valid types: ");
    assert(!has_escape("Valid types: "@));
    reveal_strlit("Invalid scope '");
    assert(!has_escape("Invalid scope '"@));
    reveal_strlit("' is not a valid scope");
    assert(!has_escape("' is not a valid scope"@));
    reveal_strlit("Valid scopes: ");
    assert(!has_escape("Valid scopes: "@));
    reveal_strlit("' is a commit type, not a scope");
    assert(!has_escape("' is a commit type, not a scope"@));
    reveal_strlit("' is one of the commit types; write it as the type instead\nValid scopes: ");
    assert(!has_escape("' is one of the commit types; write it as the type instead\nValid scopes: "@));
    reveal_strlit("Missing closing parenthesis");
    assert(!has_escape("Missing closing parenthesis"@));
    reveal_strlit("expected ')' here");
    assert(!has_escape("expected ')' here"@));
    reveal_strlit("Add a closing ')' after the scope");
    assert(!has_escape("Add a closing ')' after the scope"@));
    reveal_strlit("Missing separator");
    assert(!has_escape("Missing separator"@));
    reveal_strlit("expected ': ' here");
    assert(!has_escape("expected ': ' here"@));
    reveal_strlit("Add a colon followed by a space ': '");
    assert(!has_escape("Add a colon followed by a space ': '"@));
    reveal_strlit("Missing description");
    assert(!has_escape("Missing description"@));
    reveal_strlit("description is required");
    assert(!has_escape("description is required"@));
    reveal_strlit("Add a description after the colon");
    assert(!has_escape("Add a description after the colon"@));
    reveal_strlit("Empty type");
    assert(!has_escape("Empty type"@));
    reveal_strlit("type cannot be empty");
    assert(!has_escape("type cannot be empty"@));
    reveal_strlit("Add a commit type (e.g., 'feat', 'fix')");
    assert(!has_escape("Add a commit type (e.g., 'feat', 'fix')"@));
    reveal_strlit("Empty scope");
    assert(!has_escape("Empty scope"@));
    reveal_strlit("scope cannot be empty");
    assert(!has_escape("scope cannot be empty"@));
    reveal_strlit("Either remove the parentheses or add a scope inside them");
    assert(!has_escape("Either remove the parentheses or add a scope inside them"@));
    reveal_strlit("Unexpected character '");
    assert(!has_escape("Unexpected character '"@));
    reveal_strlit("unexpected character");
    assert(!has_escape("unexpected character"@));
    reveal_strlit("parse error");
    assert(!has_escape("parse error"@));
    reveal_strlit("Ensure your commit message follows the format: type(scope): description");
    assert(!has_escape("Ensure your commit message follows the format: type(scope): description"@));
    reveal_strlit("Extra space found between type and colon");
    assert(!has_escape("Extra space found between type and colon"@));
    reveal_strlit("extra space found here");
    assert(!has_escape("extra space found here"@));
    reveal_strlit("Remove spaces between the type/scope and the colon");
    assert(!has_escape("Remove spaces between the type/scope and the colon"@));
    reveal_strlit("Extra spaces after colon");
    assert(!has_escape("Extra spaces after colon"@));
    reveal_strlit("too many spaces");
    assert(!has_escape("too many spaces"@));
    reveal_strlit("Use exactly one space after the colon");
    assert(!has_escape("Use exactly one space after the colon"@));
    reveal_strlit("Extra space after opening parenthesis");
    assert(!has_escape("Extra space after opening parenthesis"@));
    reveal_strlit("unexpected space here");
    assert(!has_escape("unexpected space here"@));
    reveal_strlit("Remove the space immediately after '('");
    assert(!has_escape("Remove the space immediately after '('"@));
    reveal_strlit("Extra space before closing parenthesis");
    assert(!has_escape("Extra space before closing parenthesis"@));
    reveal_strlit("Remove the space immediately before ')'");
    assert(!has_escape("Remove the space immediately before ')'"@));
    reveal_strlit("Missing colon separator");
    assert(!has_escape("Missing colon separator"@));
    reveal_strlit("expected ':' here");
    assert(!has_escape("expected ':' here"@));
    reveal_strlit("Add a colon ':' after the type/scope, followed by a space");
    assert(!has_escape("Add a colon ':' after the type/scope, followed by a space"@));
    reveal_strlit("Missing space after colon");
    assert(!has_escape("Missing space after colon"@));
    reveal_strlit("expected space here");
    assert(!has_escape("expected space here"@));
    reveal_strlit("Add a space after the colon, before the description");
    assert(!has_escape("Add a space after the colon, before the description"@));
    reveal_strlit("Trailing spaces at end of commit message");
    assert(!has_escape("Trailing spaces at end of commit message"@));
    reveal_strlit("trailing whitespace");
    assert(!has_escape("trailing whitespace"@));
    reveal_strlit("Remove trailing spaces from the end of the commit message");
    assert(!has_escape("Remove trailing spaces from the end of the commit message"@));
    reveal_strlit(" (#");
    assert(!has_escape(" (#"@));
    reveal_strlit(")");
    assert(!has_escape(")"@));
    reveal_strlit("Invalid commit message format");
    assert(!has_escape("Invalid commit message format"@));
    reveal_strlit(", ");
    assert(!has_escape(", "@));
}

proof fn lemma_joined_clean(v: Seq<Seq<char>>)
    requires
        all_clean(v),
    ensures
        !has_escape(joined(v)),
    decreases v.len(),
{
    lemma_literals_clean();
    if v.len() == 0 {
    } else if v.len() == 1 {
        assert(!has_escape(v[0]));
    } else {
        assert(all_clean(v.drop_last()));
        lemma_joined_clean(v.drop_last());
        assert(!has_escape(v.last()));
        lemma_clean_concat(joined(v.drop_last()), ", "@);
        lemma_clean_concat(joined(v.drop_last()) + ", "@, v.last());
    }
}

proof fn lemma_suggestion_clean(found: Seq<char>, cands: Seq<Seq<char>>)
    requires
        all_clean(cands),
    ensures
        suggestion(found, cands) matches Some(s) ==> !has_escape(s),
{
    lemma_best_in_range(scores_of(found, cands));
}

proof fn lemma_list_help_clean(found: Seq<char>, cands: Seq<Seq<char>>, heading: Seq<char>)
    requires
        all_clean(cands),
        !has_escape(heading),
    ensures
        !has_escape(crate::report::list_help(suggestion(found, cands), heading, joined(cands))),
{
    lemma_literals_clean();
    lemma_suggestion_clean(found, cands);
    lemma_joined_clean(cands);
    lemma_clean_concat(heading, joined(cands));
    match suggestion(found, cands) {
        Some(s) => {
            lemma_clean_concat("Did you mean '"@, s);
            lemma_clean_concat("Did you mean '"@ + s, "'?\n"@);
            lemma_clean_concat("Did you mean '"@ + s + "'?\n"@, heading);
            lemma_clean_concat("Did you mean '"@ + s + "'?\n"@ + heading, joined(cands));
        },
        None => {},
    }
}

proof fn lemma_wrap_clean(a: Seq<char>, x: Seq<char>, b: Seq<char>)
    requires
        !has_escape(a),
        !has_escape(x),
        !has_escape(b),
    ensures
        !has_escape(a + x + b),
{
    lemma_clean_concat(a, x);
    lemma_clean_concat(a + x, b);
}

/// The headline, label and help of a defect whose texts are clean are clean.
pub proof fn lemma_details_clean(k: DefectKind)
    requires
        kind_clean(k),
    ensures
        !has_escape(details(k).0),
        !has_escape(details(k).1),
        details(k).2 matches Some(h) ==> !has_escape(h),
{
    lemma_literals_clean();
    match k {
        DefectKind::InvalidType { found, expected } => {
            lemma_wrap_clean("Invalid commit type '"@, found, "'"@);
            lemma_wrap_clean("'"@, found, "' is not a valid type"@);
            lemma_list_help_clean(found, expected, "Valid types: "@);
        },
        DefectKind::InvalidScope { found, expected } => {
            lemma_wrap_clean("Invalid scope '"@, found, "'"@);
            lemma_wrap_clean("'"@, found, "' is not a valid scope"@);
            lemma_list_help_clean(found, expected, "Valid scopes: "@);
        },
        DefectKind::TypeUsedAsScope { found, expected_scopes, available_types } => {
            lemma_wrap_clean("Invalid scope '"@, found, "'"@);
            lemma_wrap_clean("'"@, found, "' is a commit type, not a scope"@);
            lemma_joined_clean(expected_scopes);
            lemma_wrap_clean(
                "'"@,
                found,
                "' is one of the commit types; write it as the type instead\nValid scopes: "@,
            );
            lemma_clean_concat(
                "'"@ + found + "' is one of the commit types; write it as the type instead\nValid scopes: "@,
                joined(expected_scopes),
            );
        },
        DefectKind::UnexpectedChar(c) => {
            assert(!has_escape(seq![c]));
            lemma_wrap_clean("Unexpected character '"@, seq![c], "'"@);
        },
        _ => {},
    }
}

proof fn lemma_decimal_clean(n: nat)
    ensures
        !has_escape(decimal(n)),
    decreases n,
{
    if n < 10 {
        assert(!has_escape(seq![digit(n)]));
    } else {
        lemma_decimal_clean(n / 10);
        assert(!has_escape(seq![digit(n % 10)]));
        lemma_clean_concat(decimal(n / 10), seq![digit(n % 10)]);
    }
}

proof fn lemma_combined_helps_clean(ds: Seq<DefectView>)
    requires
        kinds_clean(ds),
    ensures
        all_clean(combined_helps(ds)),
    decreases ds.len(),
{
    if ds.len() > 0 {
        assert(kinds_clean(ds.drop_last()));
        lemma_combined_helps_clean(ds.drop_last());
        assert(kind_clean(ds[ds.len() - 1].kind));
        lemma_details_clean(ds.last().kind);
        let a = combined_helps(ds.drop_last());
        let b = help_list(details(ds.last().kind).2);
        assert forall|i: int| 0 <= i < (a + b).len() implies !has_escape(#[trigger] (a + b)[i]) by {
            if i < a.len() {
                assert((a + b)[i] == a[i]);
            } else {
                assert((a + b)[i] == b[i - a.len()]);
            }
        }
    }
}

/// The report built for clean defects holds only clean texts.
pub proof fn lemma_report_clean(ds: Seq<DefectView>)
    requires
        ds.len() > 0,
        kinds_clean(ds),
    ensures
        !report_has_escape(report_of(ds)),
{
    lemma_literals_clean();
    assert(kind_clean(ds[0].kind));
    lemma_details_clean(ds[0].kind);
    if ds.len() == 1 {
        let r = single_report(ds[0]);
        assert(!has_escape(r.labels[0].message));
        assert forall|i: int| 0 <= i < r.helps.len() implies !has_escape(#[trigger] r.helps[i]) by {
            assert(r.helps[i] == details(ds[0].kind).2->0);
        }
    } else {
        let r = combined_report(ds);
        assert forall|i: int| 0 <= i < r.labels.len() implies !has_escape(
            #[trigger] r.labels[i].message,
        ) by {
            assert(kind_clean(ds[i].kind));
            lemma_details_clean(ds[i].kind);
            lemma_decimal_clean((i + 1) as nat);
            assert(r.labels[i] == numbered_label(ds[i], i as nat));
            lemma_wrap_clean(details(ds[i].kind).1, " (#"@, decimal((i + 1) as nat));
            lemma_clean_concat(details(ds[i].kind).1 + " (#"@ + decimal((i + 1) as nat), ")"@);
        }
        lemma_combined_helps_clean(ds);
    }
}

/// The display copy of a clean text is clean.
pub proof fn lemma_visualized_clean(s: Seq<char>, ds: Seq<DefectView>, mark: char)
    requires
        !has_escape(s),
        mark != '\u{1b}',
    ensures
        !has_escape(visualized(s, ds, mark)),
{
    assert forall|i: int| 0 <= i < visualized(s, ds, mark).len() implies visualized(s, ds, mark)[i]
        != '\u{1b}' by {
        assert(s[i] != '\u{1b}');
    }
}

// ---------------------------------------------------------------------------
// The glyph refinement adds no escape character.
// ---------------------------------------------------------------------------
proof fn lemma_strip_clean(s: Seq<char>, i: int, st: AnsiState)
    ensures
        !has_escape(strip_from(s, i, st)),
    decreases s.len() - i,
{
    if 0 <= i < s.len() {
        let c = s[i];
        match st {
            AnsiState::Text => if c == '\u{1b}' {
                lemma_strip_clean(s, i + 1, AnsiState::Escape);
            } else {
                lemma_strip_clean(s, i + 1, AnsiState::Text);
                assert(!has_escape(seq![c]));
                lemma_clean_concat(seq![c], strip_from(s, i + 1, AnsiState::Text));
            },
            AnsiState::Escape => if c == '[' {
                lemma_strip_clean(s, i + 1, AnsiState::Sequence);
            } else {
                lemma_strip_clean(s, i + 1, AnsiState::Text);
            },
            AnsiState::Sequence => if crate::report::ascii_alpha(c) {
                lemma_strip_clean(s, i + 1, AnsiState::Text);
            } else {
                lemma_strip_clean(s, i + 1, AnsiState::Sequence);
            },
        }
    }
}

proof fn lemma_run_end_bounds(c: Seq<char>, i: int)
    requires
        0 <= i < c.len(),
    ensures
        i <= crate::report::run_end(c, i) < c.len(),
    decreases c.len() - i,
{
    if i + 1 < c.len() && (c[i + 1] == '\u{2500}' || c[i + 1] == '\u{252C}') {
        lemma_run_end_bounds(c, i + 1);
    }
}

proof fn lemma_last_dash_bounds(c: Seq<char>, start: int, end: int)
    requires
        start <= end,
    ensures
        start <= crate::report::last_dash(c, start, end) <= end,
    decreases end - start,
{
    if end > start && c[end] != '\u{2500}' {
        lemma_last_dash_bounds(c, start, end - 1);
    }
}

proof fn lemma_bracketed_clean(c: Seq<char>, i: int, r: Seq<char>)
    requires
        !has_escape(r),
        r.len() == c.len(),
    ensures
        !has_escape(bracketed(c, i, r)),
    decreases c.len() - i,
{
    if 0 <= i < c.len() {
        if c[i] == '\u{2500}' {
            let e = crate::report::run_end(c, i);
            lemma_run_end_bounds(c, i);
            let ld = crate::report::last_dash(c, i, e);
            lemma_last_dash_bounds(c, i, e);
            let r1 = r.update(i, '\u{2570}');
            let r3 = r1.update(ld, '\u{256F}');
            assert forall|k: int| 0 <= k < r1.len() implies r1[k] != '\u{1b}' by {
                assert(r[k] != '\u{1b}');
            }
            assert forall|k: int| 0 <= k < r3.len() implies r3[k] != '\u{1b}' by {
                assert(r1[k] != '\u{1b}');
            }
            let r2 = if e > i && crate::report::has_connector(c, i, e) {
                if ld != i {
                    r3
                } else {
                    r1
                }
            } else {
                r
            };
            lemma_bracketed_clean(c, if i <= e < c.len() { e + 1 } else { i + 1 }, r2);
        } else {
            lemma_bracketed_clean(c, i + 1, r);
        }
    }
}

proof fn lemma_glyphs_clean(c: Seq<char>)
    requires
        !has_escape(c),
    ensures
        !has_escape(underline_glyphs(c)),
{
    assert forall|k: int| 0 <= k < point_marks(c).len() implies point_marks(c)[k] != '\u{1b}' by {
        assert(c[k] != '\u{1b}');
    }
    lemma_bracketed_clean(c, 0, point_marks(c));
}

proof fn lemma_overlay_clean(s: Seq<char>, i: int, k: int, cust: Seq<char>)
    requires
        !has_escape(s),
        !has_escape(cust),
    ensures
        !has_escape(overlay_from(s, i, AnsiState::Text, k, cust)),
    decreases s.len() - i,
{
    if 0 <= i < s.len() {
        let c = s[i];
        assert(c != '\u{1b}');
        lemma_overlay_clean(s, i + 1, k + 1, cust);
        let x = if 0 <= k < cust.len() {
            cust[k]
        } else {
            c
        };
        assert(x != '\u{1b}');
        assert(!has_escape(seq![x]));
        lemma_clean_concat(seq![x], overlay_from(s, i + 1, AnsiState::Text, k + 1, cust));
    }
}

proof fn lemma_refined_line_clean(l: Seq<char>)
    requires
        !has_escape(l),
    ensures
        !has_escape(refined_line(l)),
{
    let st = strip_from(l, 0, AnsiState::Text);
    lemma_strip_clean(l, 0, AnsiState::Text);
    lemma_glyphs_clean(st);
    lemma_overlay_clean(l, 0, 0, underline_glyphs(st));
}

proof fn lemma_pieces_clean(s: Seq<char>, i: int, start: int)
    requires
        !has_escape(s),
        0 <= start <= i <= s.len(),
    ensures
        all_clean(line_pieces(s, i, start)),
    decreases s.len() - i,
{
    if i >= s.len() {
        if start < s.len() {
            lemma_clean_subrange(s, start, s.len() as int);
        }
    } else if s[i] == '\n' {
        let lc = crate::report::line_close(s, start, i);
        lemma_clean_subrange(s, start, lc);
        lemma_pieces_clean(s, i + 1, i + 1);
        let a = seq![s.subrange(start, lc)];
        let b = line_pieces(s, i + 1, i + 1);
        assert forall|j: int| 0 <= j < (a + b).len() implies !has_escape(#[trigger] (a + b)[j]) by {
            if j < a.len() {
                assert((a + b)[j] == a[j]);
            } else {
                assert((a + b)[j] == b[j - a.len()]);
            }
        }
    } else {
        lemma_pieces_clean(s, i + 1, start);
    }
}

proof fn lemma_refined_lines_clean(v: Seq<Seq<char>>)
    requires
        all_clean(v),
    ensures
        !has_escape(refined_lines(v)),
    decreases v.len(),
{
    if v.len() > 0 {
        assert(!has_escape(v[0]));
        lemma_refined_line_clean(v[0]);
        assert(all_clean(v.drop_first()));
        lemma_refined_lines_clean(v.drop_first());
        assert(!has_escape(seq!['\n']));
        lemma_wrap_clean(refined_line(v[0]), seq!['\n'], refined_lines(v.drop_first()));
    }
}

/// The glyph refinement of a clean report is clean.
pub proof fn lemma_refined_text_clean(s: Seq<char>)
    requires
        !has_escape(s),
    ensures
        !has_escape(refined_text(s)),
{
    if s.len() == 0 {
        assert(!has_escape(seq!['\n']));
    } else {
        lemma_pieces_clean(s, 0, 0);
        lemma_refined_lines_clean(line_pieces(s, 0, 0));
    }
}

// ---------------------------------------------------------------------------
// The defects of a parse carry only text of the input and of the lists.
// ---------------------------------------------------------------------------
pub open spec fn spans_in(v: Seq<(int, int)>, lo: int, hi: int) -> bool {
    forall|k: int| 0 <= k < v.len() ==> lo <= (#[trigger] v[k]).0 <= v[k].1 <= hi
}

proof fn lemma_segments_bounds(e: Seq<char>, i: int, s: int, to: int)
    requires
        0 <= s <= i <= to,
    ensures
        spans_in(segments(e, i, s, to), s, to),
    decreases to - i,
{
    if i < to {
        if e[i] == ',' {
            lemma_segments_bounds(e, i + 1, i + 1, to);
            let a = seq![(s, i)];
            let b = segments(e, i + 1, i + 1, to);
            assert forall|k: int| 0 <= k < (a + b).len() implies s <= (#[trigger] (a + b)[k]).0 <= (a
                + b)[k].1 <= to by {
                if k < a.len() {
                    assert((a + b)[k] == a[k]);
                } else {
                    assert((a + b)[k] == b[k - a.len()]);
                }
            }
        } else {
            lemma_segments_bounds(e, i + 1, s, to);
        }
    }
}

proof fn lemma_kept_bounds(e: Seq<char>, segs: Seq<(int, int)>, lo: int, hi: int)
    requires
        spans_in(segs, lo, hi),
        0 <= lo,
        hi <= e.len(),
    ensures
        spans_in(kept(e, segs), lo, hi),
    decreases segs.len(),
{
    if segs.len() > 0 {
        assert(spans_in(segs.drop_last(), lo, hi));
        lemma_kept_bounds(e, segs.drop_last(), lo, hi);
        let r = segs.last();
        assert(lo <= segs[segs.len() - 1].0 <= segs[segs.len() - 1].1 <= hi);
        lemma_fwd_bounds(e, r.0, r.1, CharClass::White);
        let a = crate::text::fwd(e, r.0, r.1, CharClass::White);
        lemma_bwd_bounds(e, r.1, a, CharClass::White);
    }
}

proof fn lemma_tokens_bounds(e: Seq<char>)
    ensures
        spans_in(scope_tokens(e), 0, e.len() as int),
{
    lemma_fwd_bounds(e, 0, e.len() as int, CharClass::TypeChar);
    if has_group(e) {
        let t = type_end(e);
        lemma_fwd_bounds(e, t + 1, e.len() as int, CharClass::GroupBody);
        lemma_segments_bounds(e, t + 1, t + 1, group_stop(e));
        lemma_kept_bounds(e, body_segments(e), t + 1, group_stop(e));
    }
}

proof fn lemma_kinds_concat(a: Seq<DefectView>, b: Seq<DefectView>)
    requires
        kinds_clean(a),
        kinds_clean(b),
    ensures
        kinds_clean(a + b),
{
    assert forall|i: int| 0 <= i < (a + b).len() implies kind_clean(#[trigger] (a + b)[i].kind) by {
        if i < a.len() {
            assert((a + b)[i] == a[i]);
        } else {
            assert((a + b)[i] == b[i - a.len()]);
        }
    }
}

proof fn lemma_scope_defects_clean(
    e: Seq<char>,
    toks: Seq<(int, int)>,
    types: Seq<Seq<char>>,
    scopes: Seq<Seq<char>>,
)
    requires
        !has_escape(e),
        all_clean(types),
        all_clean(scopes),
        spans_in(toks, 0, e.len() as int),
    ensures
        kinds_clean(scope_defects(e, toks, types, scopes)),
    decreases toks.len(),
{
    if toks.len() > 0 {
        assert(spans_in(toks.drop_last(), 0, e.len() as int));
        lemma_scope_defects_clean(e, toks.drop_last(), types, scopes);
        let r = toks.last();
        assert(0 <= toks[toks.len() - 1].0 <= toks[toks.len() - 1].1 <= e.len());
        lemma_clean_subrange(e, r.0, r.1);
        lemma_kinds_concat(scope_defects(e, toks.drop_last(), types, scopes), scope_defect(e, r, types, scopes));
    }
}

/// Every defect that parsing finds carries only text taken from the input
/// and from the allowed lists: with no escape character there, none is in them.
pub proof fn lemma_parse_defects_clean(
    input: Seq<char>,
    types: Seq<Seq<char>>,
    scopes: Option<Seq<Seq<char>>>,
)
    requires
        !has_escape(input),
        all_clean(types),
        scopes matches Some(sc) ==> all_clean(sc),
    ensures
        parse_spec(input, types, scopes) matches Err(ds) ==> kinds_clean(ds),
{
    let off = squash_offset(input);
    let e = input.subrange(off, input.len() as int);
    crate::parser::lemma_prefix_end_bounds(input, 0, false);
    lemma_clean_subrange(input, off, input.len() as int);
    lemma_fwd_bounds(e, 0, e.len() as int, CharClass::TypeChar);
    assert(kinds_clean(type_defects(e)));
    assert(kinds_clean(group_defects(e)));
    assert(kinds_clean(separator_defects(e)));
    assert(kinds_clean(description_defects(e)));
    lemma_kinds_concat(type_defects(e), group_defects(e));
    lemma_kinds_concat(type_defects(e) + group_defects(e), separator_defects(e));
    lemma_kinds_concat(type_defects(e) + group_defects(e) + separator_defects(e), description_defects(e));
    if crate::parser::has_partial_header(e) {
        let ty = e.subrange(0, type_end(e));
        lemma_clean_subrange(e, 0, type_end(e));
        let first = crate::parser::when(
            !types.contains(ty),
            crate::parser::defect(DefectKind::InvalidType { found: ty, expected: types }, 0, type_end(e)),
        );
        assert(kinds_clean(first));
        lemma_tokens_bounds(e);
        match scopes {
            Some(sc) => {
                lemma_scope_defects_clean(e, scope_tokens(e), types, sc);
                lemma_kinds_concat(first, scope_defects(e, scope_tokens(e), types, sc));
            },
            None => {
                lemma_kinds_concat(first, seq![]);
            },
        }
    }
    let all = all_defects(e, types, scopes);
    lemma_kinds_concat(structural_defects(e), semantic_defects(e, types, scopes));
    assert forall|i: int| 0 <= i < shifted(all, off).len() implies kind_clean(
        #[trigger] shifted(all, off)[i].kind,
    ) by {
        assert(shifted(all, off)[i].kind == all[i].kind);
    }
}

// ---------------------------------------------------------------------------
// Scope lists: the separator after a comma does not change the tokens.
// ---------------------------------------------------------------------------
/// The tokens written one after another with `sep` between them.
pub open spec fn joined_with(toks: Seq<Seq<char>>, sep: Seq<char>) -> Seq<char>
    decreases toks.len(),
{
    if toks.len() == 0 {
        seq![]
    } else if toks.len() == 1 {
        toks[0]
    } else {
        joined_with(toks.drop_last(), sep) + sep + toks.last()
    }
}

/// A scope token as one writes it: not empty, no white space at either end,
/// and no comma, closing parenthesis or line break inside.
pub open spec fn plain_token(t: Seq<char>) -> bool {
    &&& t.len() > 0
    &&& !is_white(t[0])
    &&& !is_white(t.last())
    &&& forall|i: int| 0 <= i < t.len() ==> #[trigger] t[i] != ',' && t[i] != ')' && t[i] != '\n'
}

pub open spec fn plain_tokens(toks: Seq<Seq<char>>) -> bool {
    forall|i: int| 0 <= i < toks.len() ==> plain_token(#[trigger] toks[i])
}

pub open spec fn token_texts(e: Seq<char>, spans: Seq<(int, int)>) -> Seq<Seq<char>> {
    spans.map_values(|r: (int, int)| e.subrange(r.0, r.1))
}

proof fn lemma_fwd_to(e: Seq<char>, i: int, hi: int, k: CharClass, j: int)
    requires
        0 <= i <= j <= hi <= e.len(),
        forall|m: int| i <= m < j ==> in_class(#[trigger] e[m], k),
        j == hi || !in_class(e[j], k),
    ensures
        fwd(e, i, hi, k) == j,
    decreases j - i,
{
    if i < j {
        lemma_fwd_to(e, i + 1, hi, k, j);
    }
}

proof fn lemma_segments_no_comma(e: Seq<char>, i: int, s: int, to: int)
    requires
        i <= to,
        forall|m: int| i <= m < to ==> #[trigger] e[m] != ',',
    ensures
        segments(e, i, s, to) == seq![(s, to)],
    decreases to - i,
{
    if i < to {
        lemma_segments_no_comma(e, i + 1, s, to);
    }
}

proof fn lemma_segments_last_comma(e: Seq<char>, i: int, s: int, c: int, to: int)
    requires
        i <= c < to,
        e[c] == ',',
        forall|m: int| c < m < to ==> #[trigger] e[m] != ',',
    ensures
        segments(e, i, s, to) == segments(e, i, s, c) + seq![(c + 1, to)],
    decreases c - i,
{
    if i == c {
        lemma_segments_no_comma(e, c + 1, c + 1, to);
        assert(segments(e, c, s, c) == seq![(s, c)]);
    } else if e[i] == ',' {
        lemma_segments_last_comma(e, i + 1, i + 1, c, to);
        assert(seq![(s, i)] + segments(e, i + 1, i + 1, c) + seq![(c + 1, to)] =~= seq![(s, i)] + (
        segments(e, i + 1, i + 1, c) + seq![(c + 1, to)]));
    } else {
        lemma_segments_last_comma(e, i + 1, s, c, to);
    }
}

proof fn lemma_joined_len(toks: Seq<Seq<char>>, sep: Seq<char>)
    requires
        toks.len() >= 2,
    ensures
        joined_with(toks, sep).len() == joined_with(toks.drop_last(), sep).len() + sep.len()
            + toks.last().len(),
{
}

/// Every character of the joined tokens is a token character or one of the separator.
proof fn lemma_joined_chars(toks: Seq<Seq<char>>, sep: Seq<char>)
    requires
        toks.len() >= 1,
        plain_tokens(toks),
        sep == ","@ || sep == ", "@,
    ensures
        forall|m: int|
            0 <= m < joined_with(toks, sep).len() ==> #[trigger] joined_with(toks, sep)[m] != ')'
                && joined_with(toks, sep)[m] != '\n',
    decreases toks.len(),
{
    reveal_strlit(",");
    reveal_strlit(", ");
    if toks.len() >= 2 {
        assert(plain_tokens(toks.drop_last()));
        lemma_joined_chars(toks.drop_last(), sep);
        let a = joined_with(toks.drop_last(), sep);
        let t = toks.last();
        assert(plain_token(toks[toks.len() - 1]));
        assert forall|m: int| 0 <= m < (a + sep + t).len() implies #[trigger] (a + sep + t)[m] != ')'
            && (a + sep + t)[m] != '\n' by {
            if m < a.len() {
                assert((a + sep + t)[m] == a[m]);
            } else if m < a.len() + sep.len() {
                assert((a + sep + t)[m] == sep[m - a.len()]);
            } else {
                assert((a + sep + t)[m] == t[m - a.len() - sep.len()]);
            }
        }
    } else {
        assert(plain_token(toks[0]));
    }
}

/// The tokens found in `e[p..p + n]`, where the joined tokens stand, are the tokens.
#[verifier::spinoff_prover]
proof fn lemma_tokens_of_joined(e: Seq<char>, p: int, toks: Seq<Seq<char>>, sep: Seq<char>)
    requires
        toks.len() >= 1,
        plain_tokens(toks),
        sep == ","@ || sep == ", "@,
        0 <= p,
        p + joined_with(toks, sep).len() <= e.len(),
        e.subrange(p, p + joined_with(toks, sep).len()) == joined_with(toks, sep),
    ensures
        token_texts(e, kept(e, segments(e, p, p, p + joined_with(toks, sep).len()))) == toks,
    decreases toks.len(),
{
    reveal_strlit(",");
    reveal_strlit(", ");
    let j = joined_with(toks, sep);
    let end = p + j.len();
    assert forall|m: int| 0 <= m < j.len() implies #[trigger] e[p + m] == j[m] by {
        assert(e.subrange(p, end)[m] == e[p + m]);
    }
    if toks.len() == 1 {
        let t = toks[0];
        assert(plain_token(t));
        assert forall|m: int| p <= m < end implies #[trigger] e[m] != ',' by {
            assert(e[p + (m - p)] == j[m - p]);
        }
        lemma_segments_no_comma(e, p, p, end);
        assert(e[p] == t[0]);
        assert(e[end - 1] == t[t.len() - 1]);
        assert(trim_span(e, (p, end)) == (p, end));
        let segs = seq![(p, end)];
        assert(segs.drop_last() =~= Seq::<(int, int)>::empty());
        assert(segs.last() == (p, end));
        assert(kept(e, Seq::<(int, int)>::empty()) == Seq::<(int, int)>::empty());
        assert(p < end);
        assert(kept(e, segs) == Seq::<(int, int)>::empty().push((p, end)));
        assert(kept(e, segs) =~= seq![(p, end)]);
        assert(e.subrange(p, end) =~= t);
        assert(token_texts(e, seq![(p, end)]) =~= toks);
    } else {
        let a = joined_with(toks.drop_last(), sep);
        let t = toks.last();
        lemma_joined_len(toks, sep);
        assert(j == a + sep + t);
        let c = p + a.len();
        let q = c + sep.len();
        assert(plain_token(toks[toks.len() - 1]));
        assert(plain_tokens(toks.drop_last()));
        assert(e.subrange(p, p + a.len()) =~= a) by {
            assert forall|m: int| 0 <= m < a.len() implies e.subrange(p, p + a.len())[m] == a[m] by {
                assert(e[p + m] == j[m]);
                assert((a + sep + t)[m] == a[m]);
            }
        }
        lemma_tokens_of_joined(e, p, toks.drop_last(), sep);
        assert(e[c] == ',') by {
            assert(e[p + a.len()] == j[a.len() as int]);
            assert((a + sep + t)[a.len() as int] == sep[0]);
        }
        assert forall|m: int| q <= m < end implies #[trigger] e[m] == t[m - q] by {
            assert(e[p + (m - p)] == j[m - p]);
            assert((a + sep + t)[m - p] == t[m - p - a.len() - sep.len()]);
        }
        assert forall|m: int| c < m < q implies #[trigger] e[m] == ' ' by {
            assert(e[p + (m - p)] == j[m - p]);
            assert((a + sep + t)[m - p] == sep[m - p - a.len()]);
        }
        assert forall|m: int| c < m < end implies #[trigger] e[m] != ',' by {
            if m < q {
                assert(e[m] == ' ');
            } else {
                assert(e[m] == t[m - q]);
            }
        }
        lemma_segments_last_comma(e, p, p, c, end);
        let first = segments(e, p, p, c);
        let segs = first + seq![(c + 1, end)];
        assert(segs.drop_last() =~= first);
        assert(segs.last() == (c + 1, end));
        assert forall|m: int| c + 1 <= m < q implies in_class(#[trigger] e[m], CharClass::White) by {
            assert(e[m] == ' ');
        }
        assert(e[q] == t[0]);
        lemma_fwd_to(e, c + 1, end, CharClass::White, q);
        assert(e[end - 1] == t[t.len() - 1]);
        assert(trim_span(e, (c + 1, end)) == (q, end));
        assert(kept(e, segs) == kept(e, first).push((q, end)));
        assert(e.subrange(q, end) =~= t);
        assert(token_texts(e, kept(e, first).push((q, end))) =~= token_texts(e, kept(e, first)).push(t));
        assert(toks.drop_last().push(t) =~= toks);
    }
}

/// A header of the form `type(scopes)rest` does not start with an autosquash marker.
#[verifier::spinoff_prover]
proof fn lemma_no_marker(input: Seq<char>, l: int)
    requires
        0 < l < input.len(),
        forall|i: int| 0 <= i < l ==> in_class(#[trigger] input[i], CharClass::TypeChar),
        input[l] == '(',
    ensures
        squash_offset(input) == 0,
{
    let f = fixup_marker();
    let q = squash_marker();
    assert(!marker_at(input, 0, f)) by {
        if marker_at(input, 0, f) {
            let k = if l < 6 { l } else { 5 };
            assert(input.subrange(0, 6)[k] == input[k]);
            assert(f[k] == input[k]);
            assert(f[0] == 'f' && f[1] == 'i' && f[2] == 'x' && f[3] == 'u' && f[4] == 'p' && f[5] == '!');
        }
    }
    assert(!marker_at(input, 0, q)) by {
        if marker_at(input, 0, q) {
            let k = if l < 7 { l } else { 6 };
            assert(input.subrange(0, 7)[k] == input[k]);
            assert(q[k] == input[k]);
            assert(q[0] == 's' && q[1] == 'q' && q[2] == 'u' && q[3] == 'a' && q[4] == 's' && q[5] == 'h'
                && q[6] == '!');
        }
    }
}

/// Where the type and the scope group of `type(body)rest` end.
#[verifier::spinoff_prover]
proof fn lemma_group_layout(ty: Seq<char>, j: Seq<char>, rest: Seq<char>)
    requires
        ty.len() > 0,
        forall|i: int| 0 <= i < ty.len() ==> in_class(#[trigger] ty[i], CharClass::TypeChar),
        forall|m: int| 0 <= m < j.len() ==> #[trigger] j[m] != ')' && j[m] != '\n',
    ensures
        ({
            let input = ty + seq!['('] + j + seq![')'] + rest;
            let l = ty.len() as int;
            &&& type_end(input) == l
            &&& has_group(input)
            &&& input[l] == '('
            &&& group_stop(input) == l + 1 + j.len()
            &&& input[l + 1 + j.len()] == ')'
            &&& input.subrange(l + 1, l + 1 + j.len()) == j
            &&& forall|i: int| 0 <= i < l ==> in_class(#[trigger] input[i], CharClass::TypeChar)
        }),
{
    let input = ty + seq!['('] + j + seq![')'] + rest;
    let l = ty.len() as int;
    let n = j.len() as int;
    assert forall|m: int| 0 <= m < l implies #[trigger] input[m] == ty[m] by {}
    assert(input[l] == '(');
    assert forall|m: int| 0 <= m < n implies #[trigger] input[l + 1 + m] == j[m] by {}
    assert(input[l + 1 + n] == ')');
    assert forall|m: int| 0 <= m < l implies in_class(#[trigger] input[m], CharClass::TypeChar) by {
        assert(input[m] == ty[m]);
    }
    lemma_fwd_to(input, 0, input.len() as int, CharClass::TypeChar, l);
    assert forall|m: int| l + 1 <= m < l + 1 + n implies in_class(#[trigger] input[m], CharClass::GroupBody) by {
        assert(input[l + 1 + (m - l - 1)] == j[m - l - 1]);
    }
    lemma_fwd_to(input, l + 1, input.len() as int, CharClass::GroupBody, l + 1 + n);
    assert(input.subrange(l + 1, l + 1 + n) =~= j) by {
        assert forall|m: int| 0 <= m < n implies input.subrange(l + 1, l + 1 + n)[m] == j[m] by {
            assert(input[l + 1 + m] == j[m]);
        }
    }
}

/// After a closed group, `": x"` gives a header.
#[verifier::spinoff_prover]
proof fn lemma_header_after_group(input: Seq<char>, l: int, n: int)
    requires
        0 < l,
        0 <= n,
        type_end(input) == l,
        has_group(input),
        group_stop(input) == l + 1 + n,
        input.len() == l + n + 5,
        input[l + 1 + n] == ')',
        input[l + n + 2] == ':',
        input[l + n + 3] == ' ',
        input[l + n + 4] == 'x',
    ensures
        has_partial_header(input),
{
    let ab = l + 2 + n;
    let len = input.len() as int;
    assert(group_closed(input));
    assert(after_group(input) == ab);
    assert(after_bang(input) == ab);
    lemma_fwd_to(input, ab, len, CharClass::Space, ab);
    assert(colon_pos(input) == ab);
    assert(after_colon(input) == ab + 1);
    lemma_fwd_to(input, ab + 2, len, CharClass::Space, ab + 2);
    assert(desc_start(input) == ab + 2);
    lemma_fwd_to(input, ab + 2, len, CharClass::LineBody, len);
    assert(line_end(input) == len);
    lemma_fwd_to(input, ab + 2, len, CharClass::White, ab + 2);
    assert(desc_lo(input) == ab + 2);
    assert(desc_hi(input) == len);
}

/// Without autosquash markers, a successful parse gives the scanned header.
#[verifier::spinoff_prover]
proof fn lemma_outcome_header(input: Seq<char>, types: Seq<Seq<char>>, scopes: Option<Seq<Seq<char>>>)
    requires
        squash_offset(input) == 0,
    ensures
        match parse_spec(input, types, scopes) {
            Ok(h) => h == partial_header(input),
            Err(_) => true,
        },
{
    assert(input.subrange(0, input.len() as int) =~= input);
}

/// Scope normalization: whatever separator, `","` or `", "`, stands between
/// the tokens of a scope list, the header's scope is the list of tokens, in
/// order, duplicates kept. So `feat(a, b)` and `feat(a,b)` give the same scope.
#[verifier::spinoff_prover]
#[verifier::rlimit(50)]
pub proof fn lemma_scope_normalization(
    ty: Seq<char>,
    toks: Seq<Seq<char>>,
    sep: Seq<char>,
    rest: Seq<char>,
    types: Seq<Seq<char>>,
    scopes: Option<Seq<Seq<char>>>,
)
    requires
        ty.len() > 0,
        forall|i: int| 0 <= i < ty.len() ==> in_class(#[trigger] ty[i], CharClass::TypeChar),
        toks.len() >= 1,
        plain_tokens(toks),
        sep == ","@ || sep == ", "@,
    ensures
        ({
            let input = ty + seq!['('] + joined_with(toks, sep) + seq![')'] + rest;
            &&& squash_offset(input) == 0
            &&& partial_header(input).scope == Some(toks)
            &&& rest == seq![':', ' ', 'x'] ==> has_partial_header(input)
            &&& match parse_spec(input, types, scopes) {
                Ok(h) => h.scope == Some(toks),
                Err(_) => true,
            }
        }),
{
    let j = joined_with(toks, sep);
    let input = ty + seq!['('] + j + seq![')'] + rest;
    let l = ty.len() as int;
    let n = j.len() as int;
    lemma_joined_chars(toks, sep);
    lemma_group_layout(ty, j, rest);
    lemma_tokens_of_joined(input, l + 1, toks, sep);
    let toks_at = scope_tokens(input);
    assert(toks_at == kept(input, segments(input, l + 1, l + 1, l + 1 + n)));
    assert(toks_at.map_values(|r: (int, int)| input.subrange(r.0, r.1)) =~= token_texts(input, toks_at));
    assert(toks_at.len() == token_texts(input, toks_at).len());
    lemma_no_marker(input, l);
    lemma_outcome_header(input, types, scopes);
    if rest == seq![':', ' ', 'x'] {
        assert(input.len() == l + n + 5);
        assert(input[l + n + 2] == ':' && input[l + n + 3] == ' ' && input[l + n + 4] == 'x');
        lemma_header_after_group(input, l, n);
    }
}

} // verus!
