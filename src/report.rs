//! The diagnostic renderer: it turns the defects of a failed parse into one
//! span-anchored report, laid out by ariadne, with typo suggestions from
//! strsim and a refinement of the underline glyphs.
use crate::config::CharSetConfig;
use crate::parser::{
    clone_names, defects_view, names, DefectKind, DefectView, ParseError, ParseErrorKind,
    ParseOutcome,
};
use ariadne::{CharSet, ColorGenerator, Label, Report, ReportKind, Source};
use crate::laws::{
    kinds_clean, lemma_refined_text_clean, lemma_report_clean, lemma_visualized_clean,
};
use vstd::prelude::*;
use vstd::string::StringExecFns;

verus! {

/// How a report is written: with ANSI colours for a terminal, or plain.
#[derive(Debug, Clone, Copy, PartialEq, Eq, Structural)]
pub enum OutputFormat {
    Color,
    Ascii,
}

// ---------------------------------------------------------------------------
// Typo suggestions.
// ---------------------------------------------------------------------------
/// The bit pattern of the `f64` that `strsim::jaro_winkler` gives for two strings.
pub uninterp spec fn jaro_winkler_bits(a: Seq<char>, b: Seq<char>) -> u64;

/// Relies on `strsim::jaro_winkler`: the Jaro-Winkler similarity of the two
/// strings, a number in `[0, 1]`, handed back as the bit pattern of the `f64`
/// (`f64::to_bits`). Bit patterns of numbers that are not negative order as
/// the numbers do.
#[verifier::external_body]
fn similarity_bits(a: &str, b: &str) -> (r: u64)
    ensures
        r == jaro_winkler_bits(a@, b@),
{
    strsim::jaro_winkler(a, b).to_bits()
}

/// The bit pattern of the `f64` 0.8: a suggestion must score above it.
pub const SIMILARITY_THRESHOLD_BITS: u64 = 4605380978949069210;

/// The index of the first highest score above the threshold, if any.
pub open spec fn best(sc: Seq<u64>) -> Option<int>
    decreases sc.len(),
{
    if sc.len() == 0 {
        None
    } else {
        let p = best(sc.drop_last());
        let i = sc.len() - 1;
        if sc[i] <= SIMILARITY_THRESHOLD_BITS {
            p
        } else {
            match p {
                None => Some(i),
                Some(j) => if sc[i] > sc[j] {
                    Some(i)
                } else {
                    p
                },
            }
        }
    }
}

pub proof fn lemma_best_in_range(sc: Seq<u64>)
    ensures
        best(sc) matches Some(i) ==> 0 <= i < sc.len() && sc[i] > SIMILARITY_THRESHOLD_BITS,
    decreases sc.len(),
{
    if sc.len() > 0 {
        lemma_best_in_range(sc.drop_last());
    }
}

/// Picks the candidate to suggest from the similarity scores.
pub fn best_match(scores: &Vec<u64>) -> (r: Option<usize>)
    ensures
        match r {
            Some(i) => best(scores@) == Some(i as int) && i < scores@.len(),
            None => best(scores@) is None,
        },
{
    let mut r: Option<usize> = None;
    let mut i: usize = 0;
    while i < scores.len()
        invariant
            0 <= i <= scores@.len(),
            match r {
                Some(j) => best(scores@.take(i as int)) == Some(j as int) && j < i,
                None => best(scores@.take(i as int)) is None,
            },
        decreases scores@.len() - i,
    {
        assert(scores@.take(i + 1).drop_last() =~= scores@.take(i as int));
        proof {
            lemma_best_in_range(scores@.take(i as int));
        }
        let s = scores[i];
        if s > SIMILARITY_THRESHOLD_BITS {
            match r {
                None => {
                    r = Some(i);
                },
                Some(j) => {
                    if s > scores[j] {
                        r = Some(i);
                    }
                },
            }
        }
        i = i + 1;
    }
    assert(scores@.take(scores@.len() as int) =~= scores@);
    r
}

pub open spec fn scores_of(found: Seq<char>, cands: Seq<Seq<char>>) -> Seq<u64> {
    cands.map_values(|c: Seq<char>| jaro_winkler_bits(found, c))
}

/// The candidate offered in a "did you mean" hint.
pub open spec fn suggestion(found: Seq<char>, cands: Seq<Seq<char>>) -> Option<Seq<char>> {
    match best(scores_of(found, cands)) {
        Some(i) => Some(cands[i]),
        None => None,
    }
}

pub open spec fn opt_text(o: Option<String>) -> Option<Seq<char>> {
    match o {
        Some(s) => Some(s@),
        None => None,
    }
}

/// The candidate most similar to `target`, if it is similar enough.
pub fn find_similar(target: &str, candidates: &Vec<String>) -> (r: Option<String>)
    ensures
        opt_text(r) == suggestion(target@, names(candidates@)),
{
    let mut scores: Vec<u64> = Vec::new();
    let mut i: usize = 0;
    while i < candidates.len()
        invariant
            0 <= i <= candidates@.len(),
            scores@ =~= scores_of(target@, names(candidates@)).take(i as int),
        decreases candidates@.len() - i,
    {
        scores.push(similarity_bits(target, candidates[i].as_str()));
        i = i + 1;
    }
    assert(scores@ =~= scores_of(target@, names(candidates@)));
    match best_match(&scores) {
        Some(k) => Some(candidates[k].clone()),
        None => None,
    }
}

// ---------------------------------------------------------------------------
// What each defect says.
// ---------------------------------------------------------------------------
/// The names separated by `", "`.
pub open spec fn joined(v: Seq<Seq<char>>) -> Seq<char>
    decreases v.len(),
{
    if v.len() == 0 {
        seq![]
    } else if v.len() == 1 {
        v[0]
    } else {
        joined(v.drop_last()) + ", "@ + v.last()
    }
}

pub fn join_names(v: &Vec<String>) -> (r: String)
    ensures
        r@ == joined(names(v@)),
{
    let mut r = String::new();
    let mut i: usize = 0;
    while i < v.len()
        invariant
            0 <= i <= v@.len(),
            r@ == joined(names(v@).take(i as int)),
        decreases v@.len() - i,
    {
        assert(names(v@).take(i + 1).drop_last() =~= names(v@).take(i as int));
        if i > 0 {
            r.append(", ");
        } else {
            assert(r@ =~= seq![]);
        }
        r.append(v[i].as_str());
        proof {
            if i == 0 {
                assert(r@ =~= v@[0]@);
            }
        }
        i = i + 1;
    }
    assert(names(v@).take(v@.len() as int) =~= names(v@));
    r
}

/// The help text that lists the valid names, after a hint when there is one.
pub open spec fn list_help(hint: Option<Seq<char>>, heading: Seq<char>, list: Seq<char>) -> Seq<char> {
    match hint {
        Some(s) => "Did you mean '"@ + s + "'?\n"@ + heading + list,
        None => heading + list,
    }
}

/// The headline, the inline label and the help text of a defect.
pub open spec fn details(k: DefectKind) -> (Seq<char>, Seq<char>, Option<Seq<char>>) {
    match k {
        DefectKind::InvalidType { found, expected } => (
            "Invalid commit type '"@ + found + "'"@,
            "'"@ + found + "' is not a valid type"@,
            Some(list_help(suggestion(found, expected), "Valid types: "@, joined(expected))),
        ),
        DefectKind::InvalidScope { found, expected } => (
            "Invalid scope '"@ + found + "'"@,
            "'"@ + found + "' is not a valid scope"@,
            Some(list_help(suggestion(found, expected), "Valid scopes: "@, joined(expected))),
        ),
        DefectKind::TypeUsedAsScope { found, expected_scopes, available_types } => (
            "Invalid scope '"@ + found + "'"@,
            "'"@ + found + "' is a commit type, not a scope"@,
            Some(
                "'"@ + found + "' is one of the commit types; write it as the type instead\nValid scopes: "@
                    + joined(expected_scopes),
            ),
        ),
        DefectKind::MissingClosingParen => (
            "Missing closing parenthesis"@,
            "expected ')' here"@,
            Some("Add a closing ')' after the scope"@),
        ),
        DefectKind::MissingSeparator => (
            "Missing separator"@,
            "expected ': ' here"@,
            Some("Add a colon followed by a space ': '"@),
        ),
        DefectKind::MissingDescription => (
            "Missing description"@,
            "description is required"@,
            Some("Add a description after the colon"@),
        ),
        DefectKind::EmptyType => (
            "Empty type"@,
            "type cannot be empty"@,
            Some("Add a commit type (e.g., 'feat', 'fix')"@),
        ),
        DefectKind::EmptyScope => (
            "Empty scope"@,
            "scope cannot be empty"@,
            Some("Either remove the parentheses or add a scope inside them"@),
        ),
        DefectKind::UnexpectedChar(c) => (
            "Unexpected character '"@ + seq![c] + "'"@,
            "unexpected character"@,
            None,
        ),
        DefectKind::GenericParseError(m) => (
            m,
            "parse error"@,
            Some("Ensure your commit message follows the format: type(scope): description"@),
        ),
        DefectKind::ExtraSpaceBeforeColon => (
            "Extra space found between type and colon"@,
            "extra space found here"@,
            Some("Remove spaces between the type/scope and the colon"@),
        ),
        DefectKind::ExtraSpaceAfterColon => (
            "Extra spaces after colon"@,
            "too many spaces"@,
            Some("Use exactly one space after the colon"@),
        ),
        DefectKind::ExtraSpaceAfterOpenParen => (
            "Extra space after opening parenthesis"@,
            "unexpected space here"@,
            Some("Remove the space immediately after '('"@),
        ),
        DefectKind::ExtraSpaceBeforeCloseParen => (
            "Extra space before closing parenthesis"@,
            "unexpected space here"@,
            Some("Remove the space immediately before ')'"@),
        ),
        DefectKind::MissingColon => (
            "Missing colon separator"@,
            "expected ':' here"@,
            Some("Add a colon ':' after the type/scope, followed by a space"@),
        ),
        DefectKind::MissingSpace => (
            "Missing space after colon"@,
            "expected space here"@,
            Some("Add a space after the colon, before the description"@),
        ),
        DefectKind::TrailingSpaces => (
            "Trailing spaces at end of commit message"@,
            "trailing whitespace"@,
            Some("Remove trailing spaces from the end of the commit message"@),
        ),
    }
}

/// `a + b + c` as a string.
fn concat3(a: &str, b: &str, c: &str) -> (r: String)
    ensures
        r@ == a@ + b@ + c@,
{
    let mut r = String::from_str(a);
    r.append(b);
    r.append(c);
    r
}

fn fixed(headline: &str, label: &str, help: &str) -> (r: (String, String, Option<String>))
    ensures
        r.0@ == headline@,
        r.1@ == label@,
        opt_text(r.2) == Some(help@),
{
    (String::from_str(headline), String::from_str(label), Some(String::from_str(help)))
}

/// The help text that lists `expected`, with a hint when one is similar to `found`.
fn listing(found: &String, expected: &Vec<String>, heading: &str) -> (r: String)
    ensures
        r@ == list_help(suggestion(found@, names(expected@)), heading@, joined(names(expected@))),
{
    let list = join_names(expected);
    match find_similar(found.as_str(), expected) {
        Some(s) => {
            let mut r = concat3("Did you mean '", s.as_str(), "'?\n");
            r.append(heading);
            r.append(list.as_str());
            r
        },
        None => {
            let mut r = String::from_str(heading);
            r.append(list.as_str());
            r
        },
    }
}

pub open spec fn details_view(r: (String, String, Option<String>)) -> (Seq<char>, Seq<char>, Option<Seq<char>>) {
    (r.0@, r.1@, opt_text(r.2))
}

/// Marks the spaces that a spacing defect covers.
pub open spec fn is_spacing(k: DefectKind) -> bool {
    k is ExtraSpaceBeforeColon || k is ExtraSpaceAfterColon || k is TrailingSpaces
}

pub open spec fn covered(errs: Seq<DefectView>, i: int) -> bool {
    exists|j: int| 0 <= j < errs.len() && is_spacing(#[trigger] errs[j].kind) && errs[j].start <= i < errs[j].end
}

/// The display copy: each space inside a spacing defect becomes `mark`.
pub open spec fn visualized(s: Seq<char>, errs: Seq<DefectView>, mark: char) -> Seq<char> {
    Seq::new(s.len(), |i: int| if s[i] == ' ' && covered(errs, i) { mark } else { s[i] })
}

pub open spec fn space_mark(cs: CharSetConfig) -> char {
    match cs {
        CharSetConfig::Ascii => '_',
        CharSetConfig::Unicode => '\u{2423}',
    }
}

/// One label of a report: a span of the display text and what it says.
pub struct LabelSpec {
    pub start: usize,
    pub end: usize,
    pub message: String,
}

/// Everything a report shows, as plain values.
pub struct ReportSpec {
    pub anchor_start: usize,
    pub anchor_end: usize,
    pub message: String,
    pub labels: Vec<LabelSpec>,
    pub helps: Vec<String>,
}

pub struct LabelView {
    pub start: int,
    pub end: int,
    pub message: Seq<char>,
}

pub struct ReportView {
    pub anchor_start: int,
    pub anchor_end: int,
    pub message: Seq<char>,
    pub labels: Seq<LabelView>,
    pub helps: Seq<Seq<char>>,
}

impl View for LabelSpec {
    type V = LabelView;

    open spec fn view(&self) -> LabelView {
        LabelView { start: self.start as int, end: self.end as int, message: self.message@ }
    }
}

impl View for ReportSpec {
    type V = ReportView;

    open spec fn view(&self) -> ReportView {
        ReportView {
            anchor_start: self.anchor_start as int,
            anchor_end: self.anchor_end as int,
            message: self.message@,
            labels: self.labels@.map_values(|l: LabelSpec| l@),
            helps: names(self.helps@),
        }
    }
}

pub open spec fn help_list(h: Option<Seq<char>>) -> Seq<Seq<char>> {
    match h {
        Some(t) => seq![t],
        None => seq![],
    }
}

/// The report for a single defect.
pub open spec fn single_report(d: DefectView) -> ReportView {
    ReportView {
        anchor_start: d.start,
        anchor_end: d.end,
        message: details(d.kind).0,
        labels: seq![LabelView { start: d.start, end: d.end, message: details(d.kind).1 }],
        helps: help_list(details(d.kind).2),
    }
}

/// `n` in decimal.
pub open spec fn decimal(n: nat) -> Seq<char>
    decreases n,
{
    if n < 10 {
        seq![digit(n)]
    } else {
        decimal(n / 10) + seq![digit(n % 10)]
    }
}

pub open spec fn digit(n: nat) -> char {
    if n == 0 { '0' } else if n == 1 { '1' } else if n == 2 { '2' } else if n == 3 { '3' } else if n == 4 { '4' }
    else if n == 5 { '5' } else if n == 6 { '6' } else if n == 7 { '7' } else if n == 8 { '8' } else { '9' }
}

pub open spec fn numbered_label(d: DefectView, idx: nat) -> LabelView {
    LabelView { start: d.start, end: d.end, message: details(d.kind).1 + " (#"@ + decimal(idx + 1) + ")"@ }
}

pub open spec fn combined_helps(ds: Seq<DefectView>) -> Seq<Seq<char>>
    decreases ds.len(),
{
    if ds.len() == 0 {
        seq![]
    } else {
        combined_helps(ds.drop_last()) + help_list(details(ds.last().kind).2)
    }
}

/// The report for several defects: one numbered label each, anchored at the first.
pub open spec fn combined_report(ds: Seq<DefectView>) -> ReportView {
    ReportView {
        anchor_start: ds[0].start,
        anchor_end: ds[0].end,
        message: if ds.len() == 1 { details(ds[0].kind).0 } else { "Invalid commit message format"@ },
        labels: Seq::new(ds.len(), |i: int| numbered_label(ds[i], i as nat)),
        helps: combined_helps(ds),
    }
}

/// Every span is a forward range.
pub open spec fn forward_spans(v: Seq<ParseError>) -> bool {
    forall|i: int| 0 <= i < v.len() ==> #[trigger] v[i].span.start <= v[i].span.end
}

fn digit_char(n: usize) -> (r: char)
    requires
        n < 10,
    ensures
        r == digit(n as nat),
{
    if n == 0 { '0' } else if n == 1 { '1' } else if n == 2 { '2' } else if n == 3 { '3' } else if n == 4 { '4' }
    else if n == 5 { '5' } else if n == 6 { '6' } else if n == 7 { '7' } else if n == 8 { '8' } else { '9' }
}

fn decimal_string(n: usize) -> (r: String)
    ensures
        r@ == decimal(n as nat),
    decreases n,
{
    if n < 10 {
        let mut s = String::new();
        crate::text::push_char(&mut s, digit_char(n));
        assert(s@ =~= seq![digit(n as nat)]);
        s
    } else {
        let mut s = decimal_string(n / 10);
        crate::text::push_char(&mut s, digit_char(n % 10));
        s
    }
}

impl ErrorReporter {
    /// The headline, label and help of one kind of defect.
    pub fn get_error_details(&self, kind: &ParseErrorKind) -> (r: (String, String, Option<String>))
        ensures
            details_view(r) == details(kind@),
    {
        match kind {
            ParseErrorKind::InvalidType { found, expected } => (
                concat3("Invalid commit type '", found.as_str(), "'"),
                concat3("'", found.as_str(), "' is not a valid type"),
                Some(listing(found, expected, "Valid types: ")),
            ),
            ParseErrorKind::InvalidScope { found, expected } => (
                concat3("Invalid scope '", found.as_str(), "'"),
                concat3("'", found.as_str(), "' is not a valid scope"),
                Some(listing(found, expected, "Valid scopes: ")),
            ),
            ParseErrorKind::TypeUsedAsScope { found, expected_scopes, available_types: _ } => {
                let list = join_names(expected_scopes);
                (
                    concat3("Invalid scope '", found.as_str(), "'"),
                    concat3("'", found.as_str(), "' is a commit type, not a scope"),
                    Some(
                        concat3(
                            "'",
                            found.as_str(),
                            "' is one of the commit types; write it as the type instead\nValid scopes: ",
                        ).concat(list.as_str()),
                    ),
                )
            },
            ParseErrorKind::MissingClosingParen => fixed(
                "Missing closing parenthesis",
                "expected ')' here",
                "Add a closing ')' after the scope",
            ),
            ParseErrorKind::MissingSeparator => fixed(
                "Missing separator",
                "expected ': ' here",
                "Add a colon followed by a space ': '",
            ),
            ParseErrorKind::MissingDescription => fixed(
                "Missing description",
                "description is required",
                "Add a description after the colon",
            ),
            ParseErrorKind::EmptyType => fixed(
                "Empty type",
                "type cannot be empty",
                "Add a commit type (e.g., 'feat', 'fix')",
            ),
            ParseErrorKind::EmptyScope => fixed(
                "Empty scope",
                "scope cannot be empty",
                "Either remove the parentheses or add a scope inside them",
            ),
            ParseErrorKind::UnexpectedChar(c) => {
                let mut m = String::from_str("Unexpected character '");
                crate::text::push_char(&mut m, *c);
                m.append("'");
                (m, String::from_str("unexpected character"), None)
            },
            ParseErrorKind::GenericParseError(msg) => (
                msg.clone(),
                String::from_str("parse error"),
                Some(
                    String::from_str(
                        "Ensure your commit message follows the format: type(scope): description",
                    ),
                ),
            ),
            ParseErrorKind::ExtraSpaceBeforeColon => fixed(
                "Extra space found between type and colon",
                "extra space found here",
                "Remove spaces between the type/scope and the colon",
            ),
            ParseErrorKind::ExtraSpaceAfterColon => fixed(
                "Extra spaces after colon",
                "too many spaces",
                "Use exactly one space after the colon",
            ),
            ParseErrorKind::ExtraSpaceAfterOpenParen => fixed(
                "Extra space after opening parenthesis",
                "unexpected space here",
                "Remove the space immediately after '('",
            ),
            ParseErrorKind::ExtraSpaceBeforeCloseParen => fixed(
                "Extra space before closing parenthesis",
                "unexpected space here",
                "Remove the space immediately before ')'",
            ),
            ParseErrorKind::MissingColon => fixed(
                "Missing colon separator",
                "expected ':' here",
                "Add a colon ':' after the type/scope, followed by a space",
            ),
            ParseErrorKind::MissingSpace => fixed(
                "Missing space after colon",
                "expected space here",
                "Add a space after the colon, before the description",
            ),
            ParseErrorKind::TrailingSpaces => fixed(
                "Trailing spaces at end of commit message",
                "trailing whitespace",
                "Remove trailing spaces from the end of the commit message",
            ),
        }
    }

    /// The display copy of `input`, with the spaces of spacing defects made visible.
    pub fn visualize_spacing_errors(&self, input: &str, errors: &Vec<ParseError>) -> (r: String)
        ensures
            r@ == visualized(input@, defects_view(errors@), space_mark(self.charset)),
    {
        let mark = match self.charset {
            CharSetConfig::Ascii => '_',
            CharSetConfig::Unicode => '\u{2423}',
        };
        let chars = crate::text::chars_of(input);
        let ghost errs = defects_view(errors@);
        let mut out = String::new();
        let mut i: usize = 0;
        while i < chars.len()
            invariant
                0 <= i <= chars@.len(),
                chars@ == input@,
                errs == defects_view(errors@),
                mark == space_mark(self.charset),
                out@ =~= visualized(input@, errs, mark).take(i as int),
            decreases chars@.len() - i,
        {
            let c = chars[i];
            let mut hit = false;
            if c == ' ' {
                let mut j: usize = 0;
                while j < errors.len()
                    invariant
                        0 <= j <= errors@.len(),
                        errs == defects_view(errors@),
                        hit == exists|q: int|
                            0 <= q < j && is_spacing(#[trigger] errs[q].kind) && errs[q].start <= i
                                < errs[q].end,
                    decreases errors@.len() - j,
                {
                    let err = &errors[j];
                    let spacing = match err.kind {
                        ParseErrorKind::ExtraSpaceBeforeColon => true,
                        ParseErrorKind::ExtraSpaceAfterColon => true,
                        ParseErrorKind::TrailingSpaces => true,
                        _ => false,
                    };
                    assert(errs[j as int] == err@);
                    assert(spacing == is_spacing(errs[j as int].kind));
                    if spacing && err.span.start <= i && i < err.span.end {
                        hit = true;
                    }
                    j = j + 1;
                }
            }
            let ghost pre = out@;
            if hit {
                crate::text::push_char(&mut out, mark);
            } else {
                crate::text::push_char(&mut out, c);
            }
            assert(out@ =~= visualized(input@, errs, mark).take(i + 1));
            i = i + 1;
        }
        assert(visualized(input@, errs, mark).take(chars@.len() as int) =~= visualized(input@, errs, mark));
        out
    }

    /// Groups the defects into the units reported together: all of them in one.
    pub fn group_errors(&self, errors: &Vec<ParseError>) -> (r: Vec<Vec<ParseError>>)
        ensures
            errors@.len() == 0 ==> r@.len() == 0,
            errors@.len() > 0 ==> r@.len() == 1 && defects_view(r@[0]@) == defects_view(errors@),
            forward_spans(errors@) ==> forall|g: int| 0 <= g < r@.len() ==> forward_spans(#[trigger] r@[g]@),
    {
        if errors.len() == 0 {
            Vec::new()
        } else {
            let mut group: Vec<ParseError> = Vec::new();
            let mut i: usize = 0;
            while i < errors.len()
                invariant
                    0 <= i <= errors@.len(),
                    defects_view(group@) =~= defects_view(errors@).take(i as int),
                    forward_spans(errors@) ==> forward_spans(group@),
                decreases errors@.len() - i,
            {
                let ghost pre = group@;
                let d = copy_error(&errors[i]);
                group.push(d);
                assert(forall|k: int| 0 <= k < group@.len() ==> #[trigger] group@[k] == if k < pre.len() {
                    pre[k]
                } else {
                    d
                });
                assert(defects_view(group@) =~= defects_view(pre).push(d@));
                assert(defects_view(errors@).take(i + 1) =~= defects_view(errors@).take(i as int).push(
                    errors@[i as int]@,
                ));
                i = i + 1;
            }
            let mut r: Vec<Vec<ParseError>> = Vec::new();
            r.push(group);
            r
        }
    }
}

/// A copy of a defect.
pub fn copy_error(e: &ParseError) -> (r: ParseError)
    ensures
        r@ == e@,
        r.span == e.span,
{
    let kind = match &e.kind {
        ParseErrorKind::InvalidType { found, expected } => ParseErrorKind::InvalidType {
            found: found.clone(),
            expected: clone_names(expected),
        },
        ParseErrorKind::InvalidScope { found, expected } => ParseErrorKind::InvalidScope {
            found: found.clone(),
            expected: clone_names(expected),
        },
        ParseErrorKind::TypeUsedAsScope { found, expected_scopes, available_types } =>
            ParseErrorKind::TypeUsedAsScope {
            found: found.clone(),
            expected_scopes: clone_names(expected_scopes),
            available_types: clone_names(available_types),
        },
        ParseErrorKind::MissingClosingParen => ParseErrorKind::MissingClosingParen,
        ParseErrorKind::MissingSeparator => ParseErrorKind::MissingSeparator,
        ParseErrorKind::MissingDescription => ParseErrorKind::MissingDescription,
        ParseErrorKind::EmptyType => ParseErrorKind::EmptyType,
        ParseErrorKind::EmptyScope => ParseErrorKind::EmptyScope,
        ParseErrorKind::UnexpectedChar(c) => ParseErrorKind::UnexpectedChar(*c),
        ParseErrorKind::GenericParseError(m) => ParseErrorKind::GenericParseError(m.clone()),
        ParseErrorKind::ExtraSpaceBeforeColon => ParseErrorKind::ExtraSpaceBeforeColon,
        ParseErrorKind::ExtraSpaceAfterColon => ParseErrorKind::ExtraSpaceAfterColon,
        ParseErrorKind::ExtraSpaceAfterOpenParen => ParseErrorKind::ExtraSpaceAfterOpenParen,
        ParseErrorKind::ExtraSpaceBeforeCloseParen => ParseErrorKind::ExtraSpaceBeforeCloseParen,
        ParseErrorKind::MissingColon => ParseErrorKind::MissingColon,
        ParseErrorKind::MissingSpace => ParseErrorKind::MissingSpace,
        ParseErrorKind::TrailingSpaces => ParseErrorKind::TrailingSpaces,
    };
    ParseError::new(kind, e.span.start..e.span.end)
}

/// Writes diagnostics for failed parses.
pub struct ErrorReporter {
    pub format: OutputFormat,
    pub charset: CharSetConfig,
}

// ---------------------------------------------------------------------------
// Underline glyphs: a point gets a single marker, a range gets corners.
// ---------------------------------------------------------------------------
pub open spec fn point_marks(c: Seq<char>) -> Seq<char> {
    Seq::new(
        c.len(),
        |i: int|
            if c[i] == '\u{252C}' && !(i > 0 && c[i - 1] == '\u{2500}' && i + 1 < c.len() && c[i + 1]
                == '\u{2500}') {
                '\u{257F}'
            } else {
                c[i]
            },
    )
}

/// The end of the run of dashes and connectors that continues from `i`.
pub open spec fn run_end(c: Seq<char>, i: int) -> int
    decreases c.len() - i,
{
    if 0 <= i && i + 1 < c.len() && (c[i + 1] == '\u{2500}' || c[i + 1] == '\u{252C}') {
        run_end(c, i + 1)
    } else {
        i
    }
}

pub open spec fn last_dash(c: Seq<char>, start: int, end: int) -> int
    decreases end - start,
{
    if end <= start {
        start
    } else if c[end] == '\u{2500}' {
        end
    } else {
        last_dash(c, start, end - 1)
    }
}

pub open spec fn has_connector(c: Seq<char>, start: int, end: int) -> bool {
    exists|k: int| start <= k <= end && #[trigger] c[k] == '\u{252C}'
}

/// Brackets each run that starts with a dash and holds a connector between
/// a left corner and a right corner on its last dash.
pub open spec fn bracketed(c: Seq<char>, i: int, r: Seq<char>) -> Seq<char>
    decreases c.len() - i,
{
    if i < 0 || i >= c.len() {
        r
    } else if c[i] == '\u{2500}' {
        let e = run_end(c, i);
        let r2 = if e > i && has_connector(c, i, e) {
            let ld = last_dash(c, i, e);
            let r1 = r.update(i, '\u{2570}');
            if ld != i {
                r1.update(ld, '\u{256F}')
            } else {
                r1
            }
        } else {
            r
        };
        bracketed(c, if i <= e < c.len() { e + 1 } else { i + 1 }, r2)
    } else {
        bracketed(c, i + 1, r)
    }
}

pub open spec fn underline_glyphs(c: Seq<char>) -> Seq<char> {
    bracketed(c, 0, point_marks(c))
}

// ---------------------------------------------------------------------------
// ANSI escape sequences: skipped when reading, copied verbatim when writing.
// ---------------------------------------------------------------------------
pub open spec fn ascii_alpha(c: char) -> bool {
    ('a' <= c && c <= 'z') || ('A' <= c && c <= 'Z')
}

#[derive(Clone, Copy, PartialEq, Eq, Structural)]
pub enum AnsiState {
    Text,
    Escape,
    Sequence,
}

/// The visible characters of `s[i..]`, read from state `st`.
pub open spec fn strip_from(s: Seq<char>, i: int, st: AnsiState) -> Seq<char>
    decreases s.len() - i,
{
    if i < 0 || i >= s.len() {
        seq![]
    } else {
        let c = s[i];
        match st {
            AnsiState::Text => if c == '\u{1b}' {
                strip_from(s, i + 1, AnsiState::Escape)
            } else {
                seq![c] + strip_from(s, i + 1, AnsiState::Text)
            },
            AnsiState::Escape => if c == '[' {
                strip_from(s, i + 1, AnsiState::Sequence)
            } else {
                strip_from(s, i + 1, AnsiState::Text)
            },
            AnsiState::Sequence => if ascii_alpha(c) {
                strip_from(s, i + 1, AnsiState::Text)
            } else {
                strip_from(s, i + 1, AnsiState::Sequence)
            },
        }
    }
}

/// `s[i..]` with its `k`-th visible character onwards replaced from `cust`.
pub open spec fn overlay_from(s: Seq<char>, i: int, st: AnsiState, k: int, cust: Seq<char>) -> Seq<char>
    decreases s.len() - i,
{
    if i < 0 || i >= s.len() {
        seq![]
    } else {
        let c = s[i];
        match st {
            AnsiState::Text => if c == '\u{1b}' {
                seq![c] + overlay_from(s, i + 1, AnsiState::Escape, k, cust)
            } else {
                seq![if 0 <= k < cust.len() { cust[k] } else { c }] + overlay_from(
                    s,
                    i + 1,
                    AnsiState::Text,
                    k + 1,
                    cust,
                )
            },
            AnsiState::Escape => if c == '[' {
                seq![c] + overlay_from(s, i + 1, AnsiState::Sequence, k, cust)
            } else {
                overlay_from(s, i + 1, AnsiState::Text, k, cust)
            },
            AnsiState::Sequence => seq![c] + if ascii_alpha(c) {
                overlay_from(s, i + 1, AnsiState::Text, k, cust)
            } else {
                overlay_from(s, i + 1, AnsiState::Sequence, k, cust)
            },
        }
    }
}

/// One line of a rendered report after the glyph refinement.
pub open spec fn refined_line(l: Seq<char>) -> Seq<char> {
    let st = strip_from(l, 0, AnsiState::Text);
    if st.contains('\u{252C}') || st.contains('\u{2500}') {
        overlay_from(l, 0, AnsiState::Text, 0, underline_glyphs(st))
    } else {
        l
    }
}

/// Where the line that starts at `start` and is broken at `i` ends: a carriage
/// return just before the break belongs to the break.
pub open spec fn line_close(s: Seq<char>, start: int, i: int) -> int {
    if i > start && s[i - 1] == '\r' {
        i - 1
    } else {
        i
    }
}

/// The lines of `s[start..]`, read from `i`, as `str::lines` gives them: lines
/// end at `"\n"` or `"\r\n"`, and a final line break ends the last line.
pub open spec fn line_pieces(s: Seq<char>, i: int, start: int) -> Seq<Seq<char>>
    decreases s.len() - i,
{
    if i < 0 || i >= s.len() {
        if start < s.len() {
            seq![s.subrange(start, s.len() as int)]
        } else {
            seq![]
        }
    } else if s[i] == '\n' {
        seq![s.subrange(start, line_close(s, start, i))] + line_pieces(s, i + 1, i + 1)
    } else {
        line_pieces(s, i + 1, start)
    }
}

pub open spec fn refined_lines(v: Seq<Seq<char>>) -> Seq<char>
    decreases v.len(),
{
    if v.len() == 0 {
        seq![]
    } else {
        refined_line(v[0]) + seq!['\n'] + refined_lines(v.drop_first())
    }
}

/// A rendered report after the glyph refinement, line by line; each line
/// ends with a line break.
pub open spec fn refined_text(s: Seq<char>) -> Seq<char> {
    if s.len() == 0 {
        seq!['\n']
    } else {
        refined_lines(line_pieces(s, 0, 0))
    }
}

fn push_all(out: &mut Vec<char>, v: &Vec<char>)
    ensures
        final(out)@ == old(out)@ + v@,
{
    let ghost start = out@;
    let mut i: usize = 0;
    while i < v.len()
        invariant
            0 <= i <= v@.len(),
            out@ =~= start + v@.take(i as int),
        decreases v@.len() - i,
    {
        out.push(v[i]);
        i = i + 1;
    }
    assert(v@.take(v@.len() as int) =~= v@);
}

impl ErrorReporter {
    /// The visible characters of a line that may hold ANSI escape sequences.
    pub fn strip_ansi(s: &Vec<char>) -> (r: Vec<char>)
        ensures
            r@ == strip_from(s@, 0, AnsiState::Text),
    {
        let mut out: Vec<char> = Vec::new();
        let mut st = AnsiState::Text;
        let mut i: usize = 0;
        while i < s.len()
            invariant
                0 <= i <= s@.len(),
                out@ + strip_from(s@, i as int, st) == strip_from(s@, 0, AnsiState::Text),
            decreases s@.len() - i,
        {
            let c = s[i];
            let ghost pre = out@;
            match st {
                AnsiState::Text => {
                    if c == '\u{1b}' {
                        st = AnsiState::Escape;
                    } else {
                        out.push(c);
                        assert(pre + strip_from(s@, i as int, AnsiState::Text) =~= out@ + strip_from(
                            s@,
                            i + 1,
                            AnsiState::Text,
                        ));
                    }
                },
                AnsiState::Escape => {
                    st = if c == '[' {
                        AnsiState::Sequence
                    } else {
                        AnsiState::Text
                    };
                },
                AnsiState::Sequence => {
                    if ('a' <= c && c <= 'z') || ('A' <= c && c <= 'Z') {
                        st = AnsiState::Text;
                    }
                },
            }
            i = i + 1;
        }
        assert(out@ =~= out@ + strip_from(s@, i as int, st));
        out
    }

    /// Replaces connectors and dash runs of one underline row, see [`underline_glyphs`].
    pub fn customize_underline_chars(&self, line: &Vec<char>) -> (r: Vec<char>)
        ensures
            r@ == underline_glyphs(line@),
    {
        let c = line;
        let n = c.len();
        let mut result: Vec<char> = Vec::new();
        let mut i: usize = 0;
        while i < n
            invariant
                0 <= i <= n,
                n == c@.len(),
                result@ =~= point_marks(c@).take(i as int),
            decreases n - i,
        {
            let x = c[i];
            let standalone = x == '\u{252C}' && !(i > 0 && c[i - 1] == '\u{2500}' && i + 1 < n && c[i + 1]
                == '\u{2500}');
            result.push(
                if standalone {
                    '\u{257F}'
                } else {
                    x
                },
            );
            i = i + 1;
        }
        assert(result@ =~= point_marks(c@));
        let mut i: usize = 0;
        while i < n
            invariant
                0 <= i <= n,
                n == c@.len(),
                result@.len() == n,
                bracketed(c@, i as int, result@) == underline_glyphs(c@),
            decreases n - i,
        {
            if c[i] == '\u{2500}' {
                let mut end: usize = i;
                while end + 1 < n && (c[end + 1] == '\u{2500}' || c[end + 1] == '\u{252C}')
                    invariant
                        i <= end < n,
                        n == c@.len(),
                        run_end(c@, end as int) == run_end(c@, i as int),
                    decreases n - end,
                {
                    end = end + 1;
                }
                if end > i {
                    let mut k: usize = i;
                    let mut conn = false;
                    while k <= end
                        invariant
                            i <= k <= end + 1,
                            end < n,
                            n == c@.len(),
                            conn == exists|q: int| i <= q < k && #[trigger] c@[q] == '\u{252C}',
                        decreases end + 1 - k,
                    {
                        if c[k] == '\u{252C}' {
                            conn = true;
                        }
                        k = k + 1;
                    }
                    if conn {
                        let mut ld: usize = end;
                        while ld > i && c[ld] != '\u{2500}'
                            invariant
                                i <= ld <= end,
                                end < n,
                                n == c@.len(),
                                last_dash(c@, i as int, ld as int) == last_dash(c@, i as int, end as int),
                            decreases ld - i,
                        {
                            ld = ld - 1;
                        }
                        result[i] = '\u{2570}';
                        if ld != i {
                            result[ld] = '\u{256F}';
                        }
                    }
                }
                i = end + 1;
            } else {
                i = i + 1;
            }
        }
        result
    }

    /// Writes the refined visible characters back between the escape
    /// sequences of `line`, which are copied unchanged.
    pub fn customize_with_ansi_preserved(&self, line: &Vec<char>, stripped: &Vec<char>) -> (r: Vec<char>)
        ensures
            r@ == overlay_from(line@, 0, AnsiState::Text, 0, underline_glyphs(stripped@)),
    {
        let cust = self.customize_underline_chars(stripped);
        let s = line;
        let mut out: Vec<char> = Vec::new();
        let mut st = AnsiState::Text;
        let mut k: usize = 0;
        let mut i: usize = 0;
        while i < s.len()
            invariant
                0 <= i <= s@.len(),
                k <= i,
                cust@ == underline_glyphs(stripped@),
                out@ + overlay_from(s@, i as int, st, k as int, cust@) == overlay_from(
                    s@,
                    0,
                    AnsiState::Text,
                    0,
                    cust@,
                ),
            decreases s@.len() - i,
        {
            let c = s[i];
            let ghost pre = out@;
            let ghost rest = overlay_from(s@, i as int, st, k as int, cust@);
            match st {
                AnsiState::Text => {
                    if c == '\u{1b}' {
                        out.push(c);
                        st = AnsiState::Escape;
                    } else {
                        out.push(
                            if k < cust.len() {
                                cust[k]
                            } else {
                                c
                            },
                        );
                        k = k + 1;
                    }
                },
                AnsiState::Escape => {
                    if c == '[' {
                        out.push(c);
                        st = AnsiState::Sequence;
                    } else {
                        st = AnsiState::Text;
                    }
                },
                AnsiState::Sequence => {
                    out.push(c);
                    if ('a' <= c && c <= 'z') || ('A' <= c && c <= 'Z') {
                        st = AnsiState::Text;
                    }
                },
            }
            assert(pre + rest =~= out@ + overlay_from(s@, i + 1, st, k as int, cust@));
            i = i + 1;
        }
        assert(out@ =~= out@ + overlay_from(s@, i as int, st, k as int, cust@));
        out
    }
}

fn has_char(v: &Vec<char>, x: char) -> (r: bool)
    ensures
        r == v@.contains(x),
{
    let mut i: usize = 0;
    while i < v.len()
        invariant
            0 <= i <= v@.len(),
            forall|j: int| 0 <= j < i ==> #[trigger] v@[j] != x,
        decreases v@.len() - i,
    {
        if v[i] == x {
            return true;
        }
        i = i + 1;
    }
    false
}

// ---------------------------------------------------------------------------
// Laying out the report.
// ---------------------------------------------------------------------------
/// What ariadne writes, with colour off, for a report over a source text.
pub uninterp spec fn ariadne_render(source: Seq<char>, report: ReportView, unicode: bool) -> Seq<char>;

pub open spec fn has_escape(s: Seq<char>) -> bool {
    s.contains('\u{1b}')
}

pub open spec fn report_has_escape(r: ReportView) -> bool {
    ||| has_escape(r.message)
    ||| exists|i: int| 0 <= i < r.labels.len() && has_escape(#[trigger] r.labels[i].message)
    ||| exists|i: int| 0 <= i < r.helps.len() && has_escape(#[trigger] r.helps[i])
}

pub open spec fn labels_forward(r: ReportView) -> bool {
    forall|i: int| 0 <= i < r.labels.len() ==> #[trigger] r.labels[i].start <= r.labels[i].end
}

/// Relies on ariadne's `Report::build`, `ReportBuilder::{with_message,
/// with_labels, with_helps, with_config, finish}`, `Label::new`,
/// `Label::with_message` and `Report::write`: lays the report out over the
/// source text, without colour. `Label::new` panics on a backward span. With
/// colour off in the `Config` and no label colour, every character ariadne
/// writes comes from the texts it is handed or is a drawing glyph, a digit, a
/// letter of its fixed words, a space or a line break.
#[verifier::external_body]
fn render_plain(source: &String, report: &ReportSpec, unicode: bool) -> (r: String)
    requires
        labels_forward(report@),
    ensures
        r@ == ariadne_render(source@, report@, unicode),
        !has_escape(source@) && !report_has_escape(report@) ==> !has_escape(r@),
{
    let labels = report.labels.iter().map(|l| Label::new(("input", l.start..l.end)).with_message(&l.message));
    let glyphs = if unicode { CharSet::Unicode } else { CharSet::Ascii };
    let mut b = Report::build(ReportKind::Error, ("input", report.anchor_start..report.anchor_end))
        .with_message(&report.message)
        .with_labels(labels)
        .with_config(ariadne::Config::default().with_color(false).with_char_set(glyphs));
    b.with_helps(report.helps.iter());
    let mut out: Vec<u8> = Vec::new();
    let _ = b.finish().write(("input", Source::from(source.as_str())), &mut out);
    String::from_utf8(out).unwrap_or_default()
}

/// Relies on the same ariadne calls as `render_plain`, with colour on and each
/// label coloured by the next colour of an `ariadne::ColorGenerator`. Whether
/// colour codes are written then also depends on yansi's process-wide colour
/// switch, so nothing is stated of the text that comes back.
#[verifier::external_body]
fn render_colored(source: &String, report: &ReportSpec, unicode: bool) -> String
    requires
        labels_forward(report@),
{
    let mut colors = ColorGenerator::new();
    let labels = report.labels.iter().map(|l| Label::new(("input", l.start..l.end)).with_message(&l.message).with_color(colors.next()));
    let glyphs = if unicode { CharSet::Unicode } else { CharSet::Ascii };
    let mut b = Report::build(ReportKind::Error, ("input", report.anchor_start..report.anchor_end))
        .with_message(&report.message)
        .with_labels(labels)
        .with_config(ariadne::Config::default().with_char_set(glyphs));
    b.with_helps(report.helps.iter());
    let mut out: Vec<u8> = Vec::new();
    let _ = b.finish().write(("input", Source::from(source.as_str())), &mut out);
    String::from_utf8(out).unwrap_or_default()
}

pub open spec fn report_of(ds: Seq<DefectView>) -> ReportView {
    if ds.len() == 1 {
        single_report(ds[0])
    } else {
        combined_report(ds)
    }
}

/// The plain report before the glyph refinement.
pub open spec fn laid_out(cs: CharSetConfig, input: Seq<char>, ds: Seq<DefectView>) -> Seq<char> {
    if ds.len() == 0 {
        seq![]
    } else {
        ariadne_render(visualized(input, ds, space_mark(cs)), report_of(ds), cs == CharSetConfig::Unicode)
    }
}

/// The glyph refinement, which only the Unicode glyph set has.
pub open spec fn refined_for(cs: CharSetConfig, t: Seq<char>) -> Seq<char> {
    if cs == CharSetConfig::Ascii {
        t
    } else {
        refined_text(t)
    }
}

/// The text of the plain report on `input` with defects `ds`.
pub open spec fn report_text(cs: CharSetConfig, input: Seq<char>, ds: Seq<DefectView>) -> Seq<char> {
    refined_for(cs, laid_out(cs, input, ds))
}

impl ErrorReporter {
    pub fn new(format: OutputFormat, charset: CharSetConfig) -> (r: Self)
        ensures
            r.format == format,
            r.charset == charset,
    {
        Self { format, charset }
    }

    fn refine_line(&self, l: &Vec<char>) -> (r: Vec<char>)
        ensures
            r@ == refined_line(l@),
    {
        let stripped = Self::strip_ansi(l);
        if has_char(&stripped, '\u{252C}') || has_char(&stripped, '\u{2500}') {
            self.customize_with_ansi_preserved(l, &stripped)
        } else {
            let mut copy: Vec<char> = Vec::new();
            push_all(&mut copy, l);
            assert(copy@ =~= l@);
            copy
        }
    }

    /// Refines the underline glyphs of a rendered report; only the Unicode
    /// glyph set has any to refine.
    pub fn customize_underlines(&self, output: String) -> (r: String)
        ensures
            r@ == if self.charset == CharSetConfig::Ascii {
                output@
            } else {
                refined_text(output@)
            },
    {
        if self.charset == CharSetConfig::Ascii {
            return output;
        }
        let s = crate::text::chars_of(output.as_str());
        let mut out: Vec<char> = Vec::new();
        if s.len() == 0 {
            out.push('\n');
            assert(out@ =~= seq!['\n']);
            return crate::text::string_of(&out, 0, out.len());
        }
        let mut line: Vec<char> = Vec::new();
        let mut start: usize = 0;
        let mut i: usize = 0;
        while i < s.len()
            invariant
                0 <= start <= i <= s@.len(),
                s@ == output@,
                s@.len() > 0,
                line@ =~= s@.subrange(start as int, i as int),
                out@ + refined_lines(line_pieces(s@, i as int, start as int)) == refined_lines(
                    line_pieces(s@, 0, 0),
                ),
            decreases s@.len() - i,
        {
            if s[i] == '\n' {
                let ghost pre = out@;
                let ghost rest = line_pieces(s@, i + 1, i + 1);
                if line.len() > 0 && line[line.len() - 1] == '\r' {
                    line.pop();
                }
                assert(line@ =~= s@.subrange(start as int, line_close(s@, start as int, i as int)));
                assert(line_pieces(s@, i as int, start as int) == seq![line@] + rest);
                assert((seq![line@] + rest)[0] == line@);
                assert((seq![line@] + rest).drop_first() =~= rest);
                let refined = self.refine_line(&line);
                push_all(&mut out, &refined);
                out.push('\n');
                assert(out@ =~= pre + refined_line(line@) + seq!['\n']);
                line = Vec::new();
                start = i + 1;
            } else {
                line.push(s[i]);
            }
            i = i + 1;
        }
        if start < s.len() {
            let ghost pre = out@;
            assert(line_pieces(s@, i as int, start as int) == seq![line@]);
            assert(seq![line@].drop_first() =~= Seq::<Seq<char>>::empty());
            let refined = self.refine_line(&line);
            push_all(&mut out, &refined);
            out.push('\n');
            let ghost one = seq![line@];
            assert(one[0] == line@);
            assert(one.drop_first() =~= Seq::<Seq<char>>::empty());
            assert(refined_lines(one.drop_first()) == Seq::<char>::empty());
            assert(refined_lines(one) =~= refined_line(line@) + seq!['\n']);
            assert(out@ =~= pre + refined_lines(one));
        } else {
            assert(out@ =~= out@ + refined_lines(line_pieces(s@, i as int, start as int)));
        }
        crate::text::string_of(&out, 0, out.len())
    }

    /// The report of a single defect.
    pub fn build_report(&self, error: &ParseError) -> (r: ReportSpec)
        requires
            error.span.start <= error.span.end,
        ensures
            r@ == single_report(error@),
            labels_forward(r@),
    {
        let (message, label, help) = self.get_error_details(&error.kind);
        let mut labels: Vec<LabelSpec> = Vec::new();
        labels.push(LabelSpec { start: error.span.start, end: error.span.end, message: label });
        let mut helps: Vec<String> = Vec::new();
        match help {
            Some(h) => helps.push(h),
            None => {},
        }
        let r = ReportSpec {
            anchor_start: error.span.start,
            anchor_end: error.span.end,
            message,
            labels,
            helps,
        };
        assert(r@.labels =~= single_report(error@).labels);
        assert(r@.helps =~= single_report(error@).helps);
        r
    }

    /// The report of several defects: one numbered label each.
    pub fn build_combined_report(&self, errors: &Vec<ParseError>) -> (r: ReportSpec)
        requires
            errors@.len() > 0,
            forward_spans(errors@),
        ensures
            r@ == combined_report(defects_view(errors@)),
            labels_forward(r@),
    {
        let ghost ds = defects_view(errors@);
        let message = if errors.len() == 1 {
            self.get_error_details(&errors[0].kind).0
        } else {
            String::from_str("Invalid commit message format")
        };
        let mut labels: Vec<LabelSpec> = Vec::new();
        let mut helps: Vec<String> = Vec::new();
        let mut idx: usize = 0;
        while idx < errors.len()
            invariant
                0 <= idx <= errors@.len(),
                ds == defects_view(errors@),
                forward_spans(errors@),
                labels@.map_values(|l: LabelSpec| l@) =~= Seq::new(
                    idx as nat,
                    |i: int| numbered_label(ds[i], i as nat),
                ),
                forall|i: int| 0 <= i < labels@.len() ==> #[trigger] labels@[i].start <= labels@[i].end,
                names(helps@) == combined_helps(ds.take(idx as int)),
            decreases errors@.len() - idx,
        {
            let error = &errors[idx];
            assert(ds[idx as int] == error@);
            let (_msg, label, help) = self.get_error_details(&error.kind);
            let mut text = label;
            text.append(" (#");
            let num = decimal_string(idx + 1);
            text.append(num.as_str());
            text.append(")");
            let ghost pre_labels = labels@;
            let l = LabelSpec { start: error.span.start, end: error.span.end, message: text };
            assert(l@.message =~= details(ds[idx as int].kind).1 + " (#"@ + decimal((idx + 1) as nat) + ")"@);
            assert(l@ == numbered_label(ds[idx as int], idx as nat));
            labels.push(l);
            assert(labels@.map_values(|x: LabelSpec| x@) =~= pre_labels.map_values(|x: LabelSpec| x@).push(l@));
            assert(forall|i: int| 0 <= i < labels@.len() ==> #[trigger] labels@[i] == if i < pre_labels.len() {
                pre_labels[i]
            } else {
                l
            });
            let ghost pre_helps = names(helps@);
            match help {
                Some(h) => {
                    helps.push(h);
                    assert(names(helps@) =~= pre_helps + help_list(details(error@.kind).2));
                },
                None => {
                    assert(names(helps@) =~= pre_helps + help_list(details(error@.kind).2));
                },
            }
            assert(ds.take(idx + 1).drop_last() =~= ds.take(idx as int));
            idx = idx + 1;
        }
        assert(ds.take(errors@.len() as int) =~= ds);
        let r = ReportSpec {
            anchor_start: errors[0].span.start,
            anchor_end: errors[0].span.end,
            message,
            labels,
            helps,
        };
        assert(errors@[0]@ == ds[0]);
        r
    }

    /// The report on `input` for `errors`, as text.
    pub fn report_errors(&self, input: &str, errors: &Vec<ParseError>) -> (r: String)
        requires
            forward_spans(errors@),
        ensures
            self.format == OutputFormat::Ascii ==> r@ == report_text(self.charset, input@, defects_view(errors@)),
            self.format == OutputFormat::Color ==> exists|t: Seq<char>| r@ == refined_for(self.charset, t),
            self.format == OutputFormat::Ascii && !has_escape(input@) && kinds_clean(defects_view(errors@))
                ==> !has_escape(r@),
    {
        let ghost ds = defects_view(errors@);
        let ghost clean = self.format == OutputFormat::Ascii && !has_escape(input@) && kinds_clean(ds);
        proof {
            if clean {
                lemma_visualized_clean(input@, ds, space_mark(self.charset));
                if ds.len() > 0 {
                    lemma_report_clean(ds);
                }
            }
        }
        let display = self.visualize_spacing_errors(input, errors);
        let groups = self.group_errors(errors);
        let mut rendered = String::new();
        if groups.len() > 0 {
            let group = &groups[0];
            assert(errors@.len() > 0);
            assert(defects_view(group@).len() == group@.len());
            assert(defects_view(errors@).len() == errors@.len());
            let spec = if group.len() == 1 {
                self.build_report(&group[0])
            } else {
                self.build_combined_report(group)
            };
            let unicode = self.charset == CharSetConfig::Unicode;
            let text = if self.format == OutputFormat::Ascii {
                render_plain(&display, &spec, unicode)
            } else {
                render_colored(&display, &spec, unicode)
            };
            rendered = text;
        }
        assert(self.format == OutputFormat::Ascii ==> rendered@ == laid_out(self.charset, input@, ds));
        proof {
            if clean {
                assert(!has_escape(rendered@));
                lemma_refined_text_clean(rendered@);
            }
        }
        let ghost t = rendered@;
        let r = self.customize_underlines(rendered);
        assert(r@ == refined_for(self.charset, t));
        r
    }
}

impl ParseOutcome {
    /// The rendered report of a failed parse; `None` on success.
    pub fn report(&self, format: OutputFormat, charset: CharSetConfig) -> (r: Option<String>)
        requires
            match self.result {
                Ok(_) => true,
                Err(v) => forward_spans(v@),
            },
        ensures
            match self.result {
                Ok(_) => r is None,
                Err(v) => r matches Some(t) && (format == OutputFormat::Ascii ==> t@ == report_text(
                    charset,
                    self.input@,
                    defects_view(v@),
                )) && (format == OutputFormat::Color ==> exists|u: Seq<char>| t@ == refined_for(charset, u)),
            },
            format == OutputFormat::Ascii && !has_escape(self.input@) && match self.result {
                Ok(_) => true,
                Err(v) => kinds_clean(defects_view(v@)),
            } ==> match r {
                Some(t) => !has_escape(t@),
                None => true,
            },
    {
        match &self.result {
            Ok(_) => None,
            Err(v) => {
                let reporter = ErrorReporter::new(format, charset);
                Some(reporter.report_errors(self.input.as_str(), v))
            },
        }
    }
}

} // verus!
