//! The recovery parser: it scans a commit header character by character,
//! collects every defect it can find instead of stopping at the first, and
//! then checks the type and scopes against the configured lists.
use crate::text::{
    bwd, chars_of, fwd, lemma_fwd_bounds, skip_backward, skip_forward, string_of, is_white,
    CharClass,
};
use crate::laws::{all_clean, kinds_clean, lemma_parse_defects_clean};
use crate::report::has_escape;
use vstd::prelude::*;

verus! {

/// A successfully parsed header.
#[derive(Debug, Clone, PartialEq)]
pub struct CommitHeader {
    pub commit_type: String,
    pub scope: Option<Vec<String>>,
    pub breaking: bool,
    pub description: String,
}

/// The kind of a defect, with what it needs to be explained.
#[derive(Debug, Clone, PartialEq)]
pub enum ParseErrorKind {
    InvalidType { found: String, expected: Vec<String> },
    InvalidScope { found: String, expected: Vec<String> },
    TypeUsedAsScope { found: String, expected_scopes: Vec<String>, available_types: Vec<String> },
    MissingClosingParen,
    MissingSeparator,
    MissingDescription,
    EmptyType,
    EmptyScope,
    UnexpectedChar(char),
    GenericParseError(String),
    ExtraSpaceBeforeColon,
    ExtraSpaceAfterColon,
    ExtraSpaceAfterOpenParen,
    ExtraSpaceBeforeCloseParen,
    MissingColon,
    MissingSpace,
    TrailingSpaces,
}

/// One located defect; `span` counts characters of the input as given,
/// autosquash markers included.
#[derive(Debug, PartialEq)]
pub struct ParseError {
    pub kind: ParseErrorKind,
    pub span: std::ops::Range<usize>,
}

impl Clone for ParseError {
    fn clone(&self) -> Self {
        ParseError { kind: self.kind.clone(), span: self.span.start..self.span.end }
    }
}

impl ParseError {
    pub fn new(kind: ParseErrorKind, span: std::ops::Range<usize>) -> (r: Self)
        ensures
            r.kind == kind,
            r.span == span,
    {
        Self { kind, span }
    }
}

/// The mathematical value of a [`ParseErrorKind`].
pub enum DefectKind {
    InvalidType { found: Seq<char>, expected: Seq<Seq<char>> },
    InvalidScope { found: Seq<char>, expected: Seq<Seq<char>> },
    TypeUsedAsScope { found: Seq<char>, expected_scopes: Seq<Seq<char>>, available_types: Seq<Seq<char>> },
    MissingClosingParen,
    MissingSeparator,
    MissingDescription,
    EmptyType,
    EmptyScope,
    UnexpectedChar(char),
    GenericParseError(Seq<char>),
    ExtraSpaceBeforeColon,
    ExtraSpaceAfterColon,
    ExtraSpaceAfterOpenParen,
    ExtraSpaceBeforeCloseParen,
    MissingColon,
    MissingSpace,
    TrailingSpaces,
}

/// The mathematical value of a [`ParseError`].
pub struct DefectView {
    pub kind: DefectKind,
    pub start: int,
    pub end: int,
}

/// The mathematical value of a [`CommitHeader`].
pub struct HeaderView {
    pub commit_type: Seq<char>,
    pub scope: Option<Seq<Seq<char>>>,
    pub breaking: bool,
    pub description: Seq<char>,
}

pub open spec fn names(v: Seq<String>) -> Seq<Seq<char>> {
    v.map_values(|s: String| s@)
}

impl View for ParseErrorKind {
    type V = DefectKind;

    open spec fn view(&self) -> DefectKind {
        match self {
            ParseErrorKind::InvalidType { found, expected } => DefectKind::InvalidType {
                found: found@,
                expected: names(expected@),
            },
            ParseErrorKind::InvalidScope { found, expected } => DefectKind::InvalidScope {
                found: found@,
                expected: names(expected@),
            },
            ParseErrorKind::TypeUsedAsScope { found, expected_scopes, available_types } =>
                DefectKind::TypeUsedAsScope {
                found: found@,
                expected_scopes: names(expected_scopes@),
                available_types: names(available_types@),
            },
            ParseErrorKind::MissingClosingParen => DefectKind::MissingClosingParen,
            ParseErrorKind::MissingSeparator => DefectKind::MissingSeparator,
            ParseErrorKind::MissingDescription => DefectKind::MissingDescription,
            ParseErrorKind::EmptyType => DefectKind::EmptyType,
            ParseErrorKind::EmptyScope => DefectKind::EmptyScope,
            ParseErrorKind::UnexpectedChar(c) => DefectKind::UnexpectedChar(*c),
            ParseErrorKind::GenericParseError(m) => DefectKind::GenericParseError(m@),
            ParseErrorKind::ExtraSpaceBeforeColon => DefectKind::ExtraSpaceBeforeColon,
            ParseErrorKind::ExtraSpaceAfterColon => DefectKind::ExtraSpaceAfterColon,
            ParseErrorKind::ExtraSpaceAfterOpenParen => DefectKind::ExtraSpaceAfterOpenParen,
            ParseErrorKind::ExtraSpaceBeforeCloseParen => DefectKind::ExtraSpaceBeforeCloseParen,
            ParseErrorKind::MissingColon => DefectKind::MissingColon,
            ParseErrorKind::MissingSpace => DefectKind::MissingSpace,
            ParseErrorKind::TrailingSpaces => DefectKind::TrailingSpaces,
        }
    }
}

impl View for ParseError {
    type V = DefectView;

    open spec fn view(&self) -> DefectView {
        DefectView { kind: self.kind@, start: self.span.start as int, end: self.span.end as int }
    }
}

impl View for CommitHeader {
    type V = HeaderView;

    open spec fn view(&self) -> HeaderView {
        HeaderView {
            commit_type: self.commit_type@,
            scope: match self.scope {
                Some(v) => Some(names(v@)),
                None => None,
            },
            breaking: self.breaking,
            description: self.description@,
        }
    }
}

pub open spec fn defects_view(v: Seq<ParseError>) -> Seq<DefectView> {
    v.map_values(|x: ParseError| x@)
}

pub open spec fn spans_view(v: Seq<(usize, usize)>) -> Seq<(int, int)> {
    v.map_values(|p: (usize, usize)| (p.0 as int, p.1 as int))
}

pub open spec fn within(p: (usize, usize), hi: int) -> bool {
    p.0 <= p.1 <= hi
}

pub open spec fn nonempty_within(p: (usize, usize), hi: int) -> bool {
    p.0 < p.1 <= hi
}

pub open spec fn defect(kind: DefectKind, start: int, end: int) -> DefectView {
    DefectView { kind, start, end }
}

pub open spec fn when(c: bool, x: DefectView) -> Seq<DefectView> {
    if c {
        seq![x]
    } else {
        seq![]
    }
}

// ---------------------------------------------------------------------------
// The stages of the structural scan, over the characters `e` that remain once
// the autosquash markers are stripped.
// ---------------------------------------------------------------------------
/// End of the type token: the run of letters, digits and `-` at the start.
pub open spec fn type_end(e: Seq<char>) -> int {
    fwd(e, 0, e.len() as int, CharClass::TypeChar)
}

/// A `(` follows the type.
pub open spec fn has_group(e: Seq<char>) -> bool {
    type_end(e) < e.len() && e[type_end(e)] == '('
}

/// Where the scan of a scope group stops: at the first `)`, or at the end of
/// the line when there is none.
pub open spec fn group_stop(e: Seq<char>) -> int {
    fwd(e, type_end(e) + 1, e.len() as int, CharClass::GroupBody)
}

pub open spec fn group_closed(e: Seq<char>) -> bool {
    has_group(e) && group_stop(e) < e.len() && e[group_stop(e)] == ')'
}

pub open spec fn after_group(e: Seq<char>) -> int {
    if !has_group(e) {
        type_end(e)
    } else if group_closed(e) {
        group_stop(e) + 1
    } else {
        group_stop(e)
    }
}

pub open spec fn is_breaking(e: Seq<char>) -> bool {
    after_group(e) < e.len() && e[after_group(e)] == '!'
}

pub open spec fn after_bang(e: Seq<char>) -> int {
    if is_breaking(e) {
        after_group(e) + 1
    } else {
        after_group(e)
    }
}

/// Where the colon is expected: after any spaces that follow the breaking marker.
pub open spec fn colon_pos(e: Seq<char>) -> int {
    fwd(e, after_bang(e), e.len() as int, CharClass::Space)
}

pub open spec fn has_colon(e: Seq<char>) -> bool {
    colon_pos(e) < e.len() && e[colon_pos(e)] == ':'
}

pub open spec fn after_colon(e: Seq<char>) -> int {
    if has_colon(e) {
        colon_pos(e) + 1
    } else {
        colon_pos(e)
    }
}

pub open spec fn has_space(e: Seq<char>) -> bool {
    after_colon(e) < e.len() && e[after_colon(e)] == ' '
}

/// Start of the raw description: after the one required space and any extra ones.
pub open spec fn desc_start(e: Seq<char>) -> int {
    if has_space(e) {
        fwd(e, after_colon(e) + 1, e.len() as int, CharClass::Space)
    } else {
        after_colon(e)
    }
}

/// End of the scanned line.
pub open spec fn line_end(e: Seq<char>) -> int {
    fwd(e, desc_start(e), e.len() as int, CharClass::LineBody)
}

/// The trimmed description is `e[desc_lo(e)..desc_hi(e)]`.
pub open spec fn desc_lo(e: Seq<char>) -> int {
    fwd(e, desc_start(e), line_end(e), CharClass::White)
}

pub open spec fn desc_hi(e: Seq<char>) -> int {
    bwd(e, line_end(e), desc_lo(e), CharClass::White)
}

/// Start of the white space at the end of the line.
pub open spec fn trail_start(e: Seq<char>) -> int {
    bwd(e, line_end(e), desc_start(e), CharClass::White)
}

pub open spec fn has_trailing_spaces(e: Seq<char>) -> bool {
    &&& desc_lo(e) != desc_start(e) || desc_hi(e) != line_end(e)
    &&& line_end(e) > desc_start(e)
    &&& e[line_end(e) - 1] == ' '
}

/// The comma-separated segments of `e[i..to]`, the current one starting at `seg_start`.
pub open spec fn segments(e: Seq<char>, i: int, seg_start: int, to: int) -> Seq<(int, int)>
    decreases to - i,
{
    if i >= to {
        seq![(seg_start, to)]
    } else if e[i] == ',' {
        seq![(seg_start, i)] + segments(e, i + 1, i + 1, to)
    } else {
        segments(e, i + 1, seg_start, to)
    }
}

pub open spec fn body_segments(e: Seq<char>) -> Seq<(int, int)> {
    segments(e, type_end(e) + 1, type_end(e) + 1, group_stop(e))
}

/// A segment without the white space at either end.
pub open spec fn trim_span(e: Seq<char>, r: (int, int)) -> (int, int) {
    let a = fwd(e, r.0, r.1, CharClass::White);
    (a, bwd(e, r.1, a, CharClass::White))
}

/// The trimmed segments that are not empty, in order.
pub open spec fn kept(e: Seq<char>, segs: Seq<(int, int)>) -> Seq<(int, int)>
    decreases segs.len(),
{
    if segs.len() == 0 {
        seq![]
    } else {
        let t = trim_span(e, segs.last());
        let p = kept(e, segs.drop_last());
        if t.0 < t.1 {
            p.push(t)
        } else {
            p
        }
    }
}

pub open spec fn has_empty_segment(e: Seq<char>, segs: Seq<(int, int)>) -> bool {
    exists|i: int| 0 <= i < segs.len() && #[trigger] trim_span(e, segs[i]).0 >= trim_span(e, segs[i]).1
}

/// Where the scope tokens stand in `e`.
pub open spec fn scope_tokens(e: Seq<char>) -> Seq<(int, int)> {
    if has_group(e) {
        kept(e, body_segments(e))
    } else {
        seq![]
    }
}

pub open spec fn type_defects(e: Seq<char>) -> Seq<DefectView> {
    when(
        type_end(e) == 0,
        defect(DefectKind::EmptyType, 0, if e.len() < 1 { e.len() as int } else { 1 }),
    )
}

pub open spec fn group_defects(e: Seq<char>) -> Seq<DefectView> {
    let t = type_end(e);
    let stop = group_stop(e);
    if !has_group(e) {
        seq![]
    } else if group_closed(e) {
        when(e[t + 1] == ' ', defect(DefectKind::ExtraSpaceAfterOpenParen, t + 1, t + 2)) + when(
            stop > t + 1 && e[stop - 1] == ' ',
            defect(DefectKind::ExtraSpaceBeforeCloseParen, stop - 1, stop),
        ) + when(has_empty_segment(e, body_segments(e)), defect(DefectKind::EmptyScope, t, stop + 1))
    } else {
        seq![defect(DefectKind::MissingClosingParen, t, stop)]
    }
}

pub open spec fn separator_defects(e: Seq<char>) -> Seq<DefectView> {
    let cp = colon_pos(e);
    let ac = after_colon(e);
    when(
        cp > after_bang(e) && has_colon(e),
        defect(DefectKind::ExtraSpaceBeforeColon, after_bang(e), cp),
    ) + when(!has_colon(e), defect(DefectKind::MissingColon, cp, cp)) + if !has_space(e) {
        seq![defect(DefectKind::MissingSpace, if ac > 0 { ac - 1 } else { 0 }, ac)]
    } else {
        when(desc_start(e) > ac + 1, defect(DefectKind::ExtraSpaceAfterColon, ac + 1, desc_start(e)))
    }
}

pub open spec fn description_defects(e: Seq<char>) -> Seq<DefectView> {
    when(
        desc_lo(e) >= desc_hi(e),
        defect(DefectKind::MissingDescription, e.len() as int, e.len() as int),
    ) + when(
        has_trailing_spaces(e),
        defect(DefectKind::TrailingSpaces, trail_start(e), line_end(e)),
    )
}

/// Every structural defect of `e`, in the order in which the scan meets them.
pub open spec fn structural_defects(e: Seq<char>) -> Seq<DefectView> {
    type_defects(e) + group_defects(e) + separator_defects(e) + description_defects(e)
}

/// A header is synthesized whenever a type and a description were found.
pub open spec fn has_partial_header(e: Seq<char>) -> bool {
    type_end(e) > 0 && desc_lo(e) < desc_hi(e)
}

pub open spec fn partial_header(e: Seq<char>) -> HeaderView {
    HeaderView {
        commit_type: e.subrange(0, type_end(e)),
        scope: if scope_tokens(e).len() > 0 {
            Some(scope_tokens(e).map_values(|r: (int, int)| e.subrange(r.0, r.1)))
        } else {
            None
        },
        breaking: is_breaking(e),
        description: e.subrange(desc_lo(e), desc_hi(e)),
    }
}

// ---------------------------------------------------------------------------
// Semantic validation.
// ---------------------------------------------------------------------------
pub open spec fn scope_defect(
    e: Seq<char>,
    r: (int, int),
    types: Seq<Seq<char>>,
    scopes: Seq<Seq<char>>,
) -> Seq<DefectView> {
    let s = e.subrange(r.0, r.1);
    if scopes.contains(s) {
        seq![]
    } else if types.contains(s) {
        seq![
            defect(
                DefectKind::TypeUsedAsScope {
                    found: s,
                    expected_scopes: scopes,
                    available_types: types,
                },
                r.0,
                r.1,
            ),
        ]
    } else {
        seq![defect(DefectKind::InvalidScope { found: s, expected: scopes }, r.0, r.1)]
    }
}

pub open spec fn scope_defects(
    e: Seq<char>,
    toks: Seq<(int, int)>,
    types: Seq<Seq<char>>,
    scopes: Seq<Seq<char>>,
) -> Seq<DefectView>
    decreases toks.len(),
{
    if toks.len() == 0 {
        seq![]
    } else {
        scope_defects(e, toks.drop_last(), types, scopes) + scope_defect(
            e,
            toks.last(),
            types,
            scopes,
        )
    }
}

pub open spec fn semantic_defects(
    e: Seq<char>,
    types: Seq<Seq<char>>,
    scopes: Option<Seq<Seq<char>>>,
) -> Seq<DefectView> {
    if !has_partial_header(e) {
        seq![]
    } else {
        let ty = e.subrange(0, type_end(e));
        when(
            !types.contains(ty),
            defect(DefectKind::InvalidType { found: ty, expected: types }, 0, type_end(e)),
        ) + match scopes {
            Some(sc) => scope_defects(e, scope_tokens(e), types, sc),
            None => seq![],
        }
    }
}

// ---------------------------------------------------------------------------
// Autosquash markers and the whole outcome.
// ---------------------------------------------------------------------------
pub open spec fn marker_at(s: Seq<char>, i: int, m: Seq<char>) -> bool {
    0 <= i && i + m.len() <= s.len() && s.subrange(i, i + m.len()) == m
}

pub open spec fn fixup_marker() -> Seq<char> {
    seq!['f', 'i', 'x', 'u', 'p', '!']
}

pub open spec fn squash_marker() -> Seq<char> {
    seq!['s', 'q', 'u', 'a', 's', 'h', '!']
}

/// Where the autosquash markers at the start of `s` end: each `fixup!` or
/// `squash!` is taken with the white space that follows it.
pub open spec fn prefix_end(s: Seq<char>, i: int, skipping: bool) -> int
    decreases s.len() - i, if skipping { 1int } else { 0int },
{
    if skipping {
        if 0 <= i < s.len() && is_white(s[i]) {
            prefix_end(s, i + 1, true)
        } else {
            prefix_end(s, i, false)
        }
    } else if marker_at(s, i, fixup_marker()) {
        prefix_end(s, i + 6, true)
    } else if marker_at(s, i, squash_marker()) {
        prefix_end(s, i + 7, true)
    } else {
        i
    }
}

pub proof fn lemma_prefix_end_bounds(s: Seq<char>, i: int, skipping: bool)
    requires
        0 <= i <= s.len(),
    ensures
        i <= prefix_end(s, i, skipping) <= s.len(),
    decreases s.len() - i, if skipping { 1int } else { 0int },
{
    if skipping {
        if i < s.len() && is_white(s[i]) {
            lemma_prefix_end_bounds(s, i + 1, true);
        } else {
            lemma_prefix_end_bounds(s, i, false);
        }
    } else if marker_at(s, i, fixup_marker()) {
        assert(fixup_marker().len() == 6);
        lemma_prefix_end_bounds(s, i + 6, true);
    } else if marker_at(s, i, squash_marker()) {
        assert(squash_marker().len() == 7);
        lemma_prefix_end_bounds(s, i + 7, true);
    }
}

pub open spec fn squash_offset(s: Seq<char>) -> int {
    prefix_end(s, 0, false)
}

pub open spec fn shifted(ds: Seq<DefectView>, off: int) -> Seq<DefectView> {
    ds.map_values(|x: DefectView| DefectView { kind: x.kind, start: x.start + off, end: x.end + off })
}

/// Every defect of the effective input, before the shift to positions in the
/// whole input.
pub open spec fn all_defects(
    e: Seq<char>,
    types: Seq<Seq<char>>,
    scopes: Option<Seq<Seq<char>>>,
) -> Seq<DefectView> {
    structural_defects(e) + semantic_defects(e, types, scopes)
}

/// What `parse` returns, as a value.
pub open spec fn parse_spec(
    input: Seq<char>,
    types: Seq<Seq<char>>,
    scopes: Option<Seq<Seq<char>>>,
) -> Result<HeaderView, Seq<DefectView>> {
    let off = squash_offset(input);
    let e = input.subrange(off, input.len() as int);
    let ds = all_defects(e, types, scopes);
    if ds.len() == 0 {
        Ok(partial_header(e))
    } else {
        Err(shifted(ds, off))
    }
}

// ---------------------------------------------------------------------------
// The executable scan.
// ---------------------------------------------------------------------------
/// Every span of `v` is a range within `0..=n`.
pub open spec fn spans_within(v: Seq<ParseError>, n: int) -> bool {
    forall|i: int| 0 <= i < v.len() ==> #[trigger] v[i].span.start <= v[i].span.end <= n
}

fn add_defect(errors: &mut Vec<ParseError>, kind: ParseErrorKind, start: usize, end: usize)
    requires
        start <= end,
    ensures
        forall|n: int| spans_within(old(errors)@, n) && end <= n ==> spans_within(final(errors)@, n),
        defects_view(final(errors)@) == defects_view(old(errors)@).push(
            defect(kind@, start as int, end as int),
        ),
{
    let ghost before = errors@;
    errors.push(ParseError::new(kind, start..end));
    assert(forall|i: int| 0 <= i < errors@.len() ==> #[trigger] errors@[i] == if i < before.len() {
        before[i]
    } else {
        ParseError { kind, span: start..end }
    });
    assert(defects_view(errors@) =~= defects_view(before).push(
        defect(kind@, start as int, end as int),
    ));
}

/// The comma-separated segments of `e[from..to]`.
fn split_segments(e: &Vec<char>, from: usize, to: usize) -> (r: Vec<(usize, usize)>)
    requires
        from <= to <= e@.len(),
    ensures
        spans_view(r@) == segments(e@, from as int, from as int, to as int),
        forall|k: int| 0 <= k < r@.len() ==> within(#[trigger] r@[k], to as int),
{
    let mut acc: Vec<(usize, usize)> = Vec::new();
    let mut s: usize = from;
    let mut i: usize = from;
    while i < to
        invariant
            from <= s <= i <= to <= e@.len(),
            spans_view(acc@) + segments(e@, i as int, s as int, to as int) == segments(
                e@,
                from as int,
                from as int,
                to as int,
            ),
            forall|k: int| 0 <= k < acc@.len() ==> within(#[trigger] acc@[k], to as int),
        decreases to - i,
    {
        if e[i] == ',' {
            let ghost old_acc = spans_view(acc@);
            acc.push((s, i));
            assert(spans_view(acc@) =~= old_acc.push((s as int, i as int)));
            assert(old_acc + segments(e@, i as int, s as int, to as int) =~= spans_view(acc@)
                + segments(e@, i + 1, i + 1, to as int));
            s = i + 1;
        }
        i = i + 1;
    }
    let ghost old_acc = spans_view(acc@);
    acc.push((s, to));
    assert(spans_view(acc@) =~= old_acc + segments(e@, i as int, s as int, to as int));
    acc
}

/// Trims each segment; keeps the ones that are not empty and tells whether one was.
fn trim_segments(e: &Vec<char>, segs: &Vec<(usize, usize)>) -> (r: (Vec<(usize, usize)>, bool))
    requires
        forall|k: int| 0 <= k < segs@.len() ==> within(#[trigger] segs@[k], e@.len() as int),
    ensures
        spans_view(r.0@) == kept(e@, spans_view(segs@)),
        r.1 == has_empty_segment(e@, spans_view(segs@)),
        forall|k: int| 0 <= k < r.0@.len() ==> nonempty_within(#[trigger] r.0@[k], e@.len() as int),
{
    let ghost sv = spans_view(segs@);
    let mut acc: Vec<(usize, usize)> = Vec::new();
    let mut any_empty = false;
    let mut k: usize = 0;
    while k < segs.len()
        invariant
            0 <= k <= segs@.len(),
            sv == spans_view(segs@),
            forall|j: int| 0 <= j < segs@.len() ==> within(#[trigger] segs@[j], e@.len() as int),
            spans_view(acc@) == kept(e@, sv.take(k as int)),
            any_empty == exists|i: int|
                0 <= i < k && #[trigger] trim_span(e@, sv[i]).0 >= trim_span(e@, sv[i]).1,
            forall|j: int| 0 <= j < acc@.len() ==> nonempty_within(#[trigger] acc@[j], e@.len() as int),
        decreases segs@.len() - k,
    {
        let (s0, s1) = segs[k];
        let a = skip_forward(e, s0, s1, CharClass::White);
        let b = skip_backward(e, s1, a, CharClass::White);
        assert(sv.take(k + 1).drop_last() =~= sv.take(k as int));
        assert(sv.take(k + 1).last() == sv[k as int]);
        assert(trim_span(e@, sv[k as int]) == (a as int, b as int));
        if a < b {
            let ghost o = spans_view(acc@);
            let ghost oa = acc@;
            acc.push((a, b));
            assert(spans_view(acc@) =~= o.push((a as int, b as int)));
            assert(forall|j: int| 0 <= j < acc@.len() ==> #[trigger] acc@[j] == if j < oa.len() {
                oa[j]
            } else {
                (a, b)
            });
        } else {
            any_empty = true;
        }
        k = k + 1;
    }
    assert(sv.take(segs@.len() as int) =~= sv);
    (acc, any_empty)
}

/// The text of each token.
fn token_strings(e: &Vec<char>, toks: &Vec<(usize, usize)>) -> (r: Vec<String>)
    requires
        forall|k: int| 0 <= k < toks@.len() ==> within(#[trigger] toks@[k], e@.len() as int),
    ensures
        names(r@) == spans_view(toks@).map_values(|q: (int, int)| e@.subrange(q.0, q.1)),
{
    let mut out: Vec<String> = Vec::new();
    let mut k: usize = 0;
    while k < toks.len()
        invariant
            0 <= k <= toks@.len(),
            forall|j: int| 0 <= j < toks@.len() ==> within(#[trigger] toks@[j], e@.len() as int),
            names(out@) =~= spans_view(toks@).take(k as int).map_values(
                |q: (int, int)| e@.subrange(q.0, q.1),
            ),
        decreases toks@.len() - k,
    {
        let (a, b) = toks[k];
        let ghost before = out@;
        let ghost sv = spans_view(toks@);
        let t = string_of(e, a, b);
        out.push(t);
        assert(names(out@) =~= names(before).push(t@));
        assert(sv[k as int] == (a as int, b as int));
        assert(sv.take(k + 1).map_values(|q: (int, int)| e@.subrange(q.0, q.1)) =~= sv.take(
            k as int,
        ).map_values(|q: (int, int)| e@.subrange(q.0, q.1)).push(t@));
        k = k + 1;
    }
    assert(spans_view(toks@).take(toks@.len() as int) =~= spans_view(toks@));
    out
}

/// The optional scope group after the type.
fn scan_group(e: &Vec<char>, t: usize, errors: &mut Vec<ParseError>) -> (r: (usize, Vec<(usize, usize)>))
    requires
        spans_within(old(errors)@, e@.len() as int),
        t as int == type_end(e@),
    ensures
        r.0 as int == after_group(e@),
        r.0 <= e@.len(),
        spans_within(final(errors)@, e@.len() as int),
        spans_view(r.1@) == scope_tokens(e@),
        forall|k: int| 0 <= k < r.1@.len() ==> nonempty_within(#[trigger] r.1@[k], e@.len() as int),
        defects_view(final(errors)@) == defects_view(old(errors)@) + group_defects(e@),
{
    proof {
        lemma_fwd_bounds(e@, 0, e@.len() as int, CharClass::TypeChar);
    }
    let n = e.len();
    let ghost before = defects_view(errors@);
    if !(t < n && e[t] == '(') {
        assert(defects_view(errors@) =~= before + group_defects(e@));
        return (t, Vec::new());
    }
    let stop = skip_forward(e, t + 1, n, CharClass::GroupBody);
    let segs = split_segments(e, t + 1, stop);
    let (toks, any_empty) = trim_segments(e, &segs);
    if stop < n && e[stop] == ')' {
        let ghost g1 = when(e@[t + 1] == ' ', defect(DefectKind::ExtraSpaceAfterOpenParen, t + 1, t + 2));
        let ghost g2 = when(
            stop > t + 1 && e@[stop - 1] == ' ',
            defect(DefectKind::ExtraSpaceBeforeCloseParen, stop - 1, stop as int),
        );
        let ghost g3 = when(any_empty, defect(DefectKind::EmptyScope, t as int, stop + 1));
        if e[t + 1] == ' ' {
            add_defect(errors, ParseErrorKind::ExtraSpaceAfterOpenParen, t + 1, t + 2);
        }
        assert(defects_view(errors@) =~= before + g1);
        if stop > t + 1 && e[stop - 1] == ' ' {
            add_defect(errors, ParseErrorKind::ExtraSpaceBeforeCloseParen, stop - 1, stop);
        }
        assert(defects_view(errors@) =~= before + g1 + g2);
        if any_empty {
            add_defect(errors, ParseErrorKind::EmptyScope, t, stop + 1);
        }
        assert(defects_view(errors@) =~= before + g1 + g2 + g3);
        assert(before + g1 + g2 + g3 =~= before + (g1 + g2 + g3));
        (stop + 1, toks)
    } else {
        add_defect(errors, ParseErrorKind::MissingClosingParen, t, stop);
        assert(defects_view(errors@) =~= before + group_defects(e@));
        (stop, toks)
    }
}

/// The colon and the single space after it; returns where the colon was
/// expected, where it ends, and where the description starts.
fn scan_separator(e: &Vec<char>, ab: usize, errors: &mut Vec<ParseError>) -> (r: (usize, usize, usize))
    requires
        spans_within(old(errors)@, e@.len() as int),
        ab as int == after_bang(e@),
        0 <= after_bang(e@) <= e@.len(),
    ensures
        r.0 as int == colon_pos(e@),
        r.1 as int == after_colon(e@),
        r.2 as int == desc_start(e@),
        r.2 <= e@.len(),
        spans_within(final(errors)@, e@.len() as int),
        defects_view(final(errors)@) == defects_view(old(errors)@) + separator_defects(e@),
{
    let n = e.len();
    let ghost before = defects_view(errors@);
    let cp = skip_forward(e, ab, n, CharClass::Space);
    let has_colon = cp < n && e[cp] == ':';
    let ghost g1 = when(
        cp > ab && has_colon,
        defect(DefectKind::ExtraSpaceBeforeColon, ab as int, cp as int),
    );
    let ghost g2 = when(!has_colon, defect(DefectKind::MissingColon, cp as int, cp as int));
    if cp > ab && has_colon {
        add_defect(errors, ParseErrorKind::ExtraSpaceBeforeColon, ab, cp);
    }
    assert(defects_view(errors@) =~= before + g1);
    if !has_colon {
        add_defect(errors, ParseErrorKind::MissingColon, cp, cp);
    }
    assert(defects_view(errors@) =~= before + g1 + g2);
    let ac = if has_colon {
        cp + 1
    } else {
        cp
    };
    let has_space = ac < n && e[ac] == ' ';
    let ds = if has_space {
        skip_forward(e, ac + 1, n, CharClass::Space)
    } else {
        ac
    };
    let ghost g3 = if !has_space {
        seq![defect(DefectKind::MissingSpace, if ac > 0 { ac - 1 } else { 0 }, ac as int)]
    } else {
        when(ds > ac + 1, defect(DefectKind::ExtraSpaceAfterColon, ac + 1, ds as int))
    };
    if !has_space {
        let s = if ac > 0 {
            ac - 1
        } else {
            0
        };
        add_defect(errors, ParseErrorKind::MissingSpace, s, ac);
    } else if ds > ac + 1 {
        add_defect(errors, ParseErrorKind::ExtraSpaceAfterColon, ac + 1, ds);
    }
    assert(defects_view(errors@) =~= before + g1 + g2 + g3);
    assert(before + g1 + g2 + g3 =~= before + separator_defects(e@));
    (cp, ac, ds)
}

/// The description up to the end of the line; returns the trimmed bounds.
fn scan_description(e: &Vec<char>, ds: usize, errors: &mut Vec<ParseError>) -> (r: (usize, usize))
    requires
        spans_within(old(errors)@, e@.len() as int),
        ds as int == desc_start(e@),
        ds <= e@.len(),
    ensures
        r.0 as int == desc_lo(e@),
        r.1 as int == desc_hi(e@),
        r.0 <= r.1 <= e@.len(),
        spans_within(final(errors)@, e@.len() as int),
        defects_view(final(errors)@) == defects_view(old(errors)@) + description_defects(e@),
{
    let n = e.len();
    let ghost before = defects_view(errors@);
    let le = skip_forward(e, ds, n, CharClass::LineBody);
    let lo = skip_forward(e, ds, le, CharClass::White);
    let hi = skip_backward(e, le, lo, CharClass::White);
    let ts = skip_backward(e, le, ds, CharClass::White);
    let ghost g1 = when(lo >= hi, defect(DefectKind::MissingDescription, n as int, n as int));
    if lo >= hi {
        add_defect(errors, ParseErrorKind::MissingDescription, n, n);
    }
    assert(defects_view(errors@) =~= before + g1);
    let trailing = (lo != ds || hi != le) && le > ds && e[le - 1] == ' ';
    if trailing {
        add_defect(errors, ParseErrorKind::TrailingSpaces, ts, le);
    }
    assert(defects_view(errors@) =~= before + description_defects(e@));
    (lo, hi)
}

/// A scan's findings: the header, if a type and a description were found,
/// every structural defect, and where the scope tokens stand.
pub struct Scan {
    pub header: Option<CommitHeader>,
    pub defects: Vec<ParseError>,
    pub scope_spans: Vec<(usize, usize)>,
}

/// Whether `list` holds a string equal to `s`.
pub fn contains_name(list: &Vec<String>, s: &String) -> (r: bool)
    ensures
        r == names(list@).contains(s@),
{
    let mut i: usize = 0;
    while i < list.len()
        invariant
            0 <= i <= list@.len(),
            forall|j: int| 0 <= j < i ==> #[trigger] names(list@)[j] != s@,
        decreases list@.len() - i,
    {
        if list[i] == *s {
            assert(names(list@)[i as int] == s@);
            return true;
        }
        i = i + 1;
    }
    false
}

/// A copy of a list of strings.
pub fn clone_names(v: &Vec<String>) -> (r: Vec<String>)
    ensures
        names(r@) == names(v@),
{
    let mut out: Vec<String> = Vec::new();
    let mut i: usize = 0;
    while i < v.len()
        invariant
            0 <= i <= v@.len(),
            names(out@) =~= names(v@).take(i as int),
        decreases v@.len() - i,
    {
        let ghost before = out@;
        let c = v[i].clone();
        out.push(c);
        assert(names(out@) =~= names(before).push(v@[i as int]@));
        assert(names(v@).take(i + 1) =~= names(v@).take(i as int).push(v@[i as int]@));
        i = i + 1;
    }
    assert(names(v@).take(v@.len() as int) =~= names(v@));
    out
}

/// Whether `marker` stands in `e` at `i`.
fn marker_matches(e: &Vec<char>, i: usize, marker: &Vec<char>) -> (r: bool)
    ensures
        r == marker_at(e@, i as int, marker@),
{
    let n = e.len();
    if i > n || marker.len() > n - i {
        return false;
    }
    let mut j: usize = 0;
    while j < marker.len()
        invariant
            0 <= j <= marker@.len(),
            n == e@.len(),
            i + marker@.len() <= n,
            forall|q: int| 0 <= q < j ==> #[trigger] e@[i + q] == marker@[q],
        decreases marker@.len() - j,
    {
        if e[i + j] != marker[j] {
            assert(e@.subrange(i as int, i + marker@.len())[j as int] != marker@[j as int]);
            return false;
        }
        j = j + 1;
    }
    assert forall|q: int| 0 <= q < marker@.len() implies e@.subrange(
        i as int,
        i + marker@.len(),
    )[q] == marker@[q] by {
        assert(e@[i + q] == marker@[q]);
    }
    assert(e@.subrange(i as int, i + marker@.len()) =~= marker@);
    true
}

/// How many characters the autosquash markers at the start of `e` take.
fn squash_prefix_len(e: &Vec<char>) -> (r: usize)
    ensures
        r as int == squash_offset(e@),
        r <= e@.len(),
{
    let fixup = vec!['f', 'i', 'x', 'u', 'p', '!'];
    let squash = vec!['s', 'q', 'u', 'a', 's', 'h', '!'];
    assert(fixup@ =~= fixup_marker());
    assert(squash@ =~= squash_marker());
    assert(fixup@.len() == 6);
    assert(squash@.len() == 7);
    let n = e.len();
    let mut i: usize = 0;
    loop
        invariant
            i <= e@.len(),
            n == e@.len(),
            fixup@ == fixup_marker(),
            squash@ == squash_marker(),
            fixup@.len() == 6,
            squash@.len() == 7,
            prefix_end(e@, i as int, false) == squash_offset(e@),
        decreases e@.len() - i,
    {
        if marker_matches(e, i, &fixup) {
            assert(i + 6 <= n);
            i = i + 6;
        } else if marker_matches(e, i, &squash) {
            assert(i + 7 <= n);
            i = i + 7;
        } else {
            return i;
        }
        let ghost resumed = i;
        while i < e.len() && crate::text::char_is_whitespace(e[i])
            invariant
                resumed <= i <= e@.len(),
                prefix_end(e@, i as int, true) == squash_offset(e@),
            decreases e@.len() - i,
        {
            i = i + 1;
        }
    }
}

/// `e[from..]`.
fn tail_of(e: &Vec<char>, from: usize) -> (r: Vec<char>)
    requires
        from <= e@.len(),
    ensures
        r@ == e@.subrange(from as int, e@.len() as int),
{
    let mut out: Vec<char> = Vec::new();
    let mut i: usize = from;
    while i < e.len()
        invariant
            from <= i <= e@.len(),
            out@ =~= e@.subrange(from as int, i as int),
        decreases e@.len() - i,
    {
        out.push(e[i]);
        i = i + 1;
    }
    out
}

pub open spec fn outcome_view(r: Result<CommitHeader, Vec<ParseError>>) -> Result<HeaderView, Seq<DefectView>> {
    match r {
        Ok(h) => Ok(h@),
        Err(v) => Err(defects_view(v@)),
    }
}

/// The input text together with what parsing it gave.
pub struct ParseOutcome {
    pub input: String,
    pub result: Result<CommitHeader, Vec<ParseError>>,
}

impl ParseOutcome {
    pub fn is_ok(&self) -> (r: bool)
        ensures
            r == self.result is Ok,
    {
        self.result.is_ok()
    }

    pub fn is_err(&self) -> (r: bool)
        ensures
            r == self.result is Err,
    {
        self.result.is_err()
    }

    /// The header, on success.
    pub fn output(&self) -> (r: Option<&CommitHeader>)
        ensures
            r == match self.result {
                Ok(h) => Some(&h),
                Err(_) => None::<&CommitHeader>,
            },
    {
        match &self.result {
            Ok(h) => Some(h),
            Err(_) => None,
        }
    }

    /// The defects, on failure.
    pub fn errors(&self) -> (r: Option<&Vec<ParseError>>)
        ensures
            r == match self.result {
                Ok(_) => None::<&Vec<ParseError>>,
                Err(v) => Some(&v),
            },
    {
        match &self.result {
            Ok(_) => None,
            Err(v) => Some(v),
        }
    }

    pub fn into_result(self) -> (r: Result<CommitHeader, Vec<ParseError>>)
        ensures
            r == self.result,
    {
        self.result
    }
}

/// A parser configured with the allowed types and, optionally, the allowed scopes.
pub struct ConventionalParser {
    allowed_types: Vec<String>,
    allowed_scopes: Option<Vec<String>>,
}

impl ConventionalParser {
    pub closed spec fn types_view(&self) -> Seq<Seq<char>> {
        names(self.allowed_types@)
    }

    pub closed spec fn scopes_view(&self) -> Option<Seq<Seq<char>>> {
        match self.allowed_scopes {
            Some(v) => Some(names(v@)),
            None => None,
        }
    }

    pub fn new(allowed_types: Vec<String>, allowed_scopes: Option<Vec<String>>) -> (r: Self)
        ensures
            r.types_view() == names(allowed_types@),
            r.scopes_view() == match allowed_scopes {
                Some(v) => Some(names(v@)),
                None => None,
            },
    {
        Self { allowed_types, allowed_scopes }
    }

    /// The structural scan of the effective input `e`.
    pub fn manual_parse(&self, e: &Vec<char>) -> (r: Scan)
        ensures
            defects_view(r.defects@) == structural_defects(e@),
            spans_within(r.defects@, e@.len() as int),
            r.header is Some <==> has_partial_header(e@),
            r.header is Some ==> r.header->0@ == partial_header(e@),
            spans_view(r.scope_spans@) == scope_tokens(e@),
            forall|k: int|
                0 <= k < r.scope_spans@.len() ==> nonempty_within(
                    #[trigger] r.scope_spans@[k],
                    e@.len() as int,
                ),
    {
        let n = e.len();
        let mut errors: Vec<ParseError> = Vec::new();
        let t = skip_forward(e, 0, n, CharClass::TypeChar);
        if t == 0 {
            let w: usize = if n < 1 {
                n
            } else {
                1
            };
            add_defect(&mut errors, ParseErrorKind::EmptyType, 0, w);
        }
        assert(defects_view(errors@) =~= type_defects(e@));
        let (ag, toks) = scan_group(e, t, &mut errors);
        let breaking = ag < n && e[ag] == '!';
        let ab = if breaking {
            ag + 1
        } else {
            ag
        };
        let (_cp, _ac, ds) = scan_separator(e, ab, &mut errors);
        let (lo, hi) = scan_description(e, ds, &mut errors);
        assert(defects_view(errors@) =~= structural_defects(e@));
        let header = if t > 0 && lo < hi {
            let scope = if toks.len() > 0 {
                Some(token_strings(e, &toks))
            } else {
                None
            };
            Some(
                CommitHeader {
                    commit_type: string_of(e, 0, t),
                    scope,
                    breaking,
                    description: string_of(e, lo, hi),
                },
            )
        } else {
            None
        };
        Scan { header, defects: errors, scope_spans: toks }
    }
}

/// The defects with every span moved right by `off`.
fn shift_spans(errors: Vec<ParseError>, off: usize, n: usize) -> (r: Vec<ParseError>)
    requires
        spans_within(errors@, n as int),
        n + off <= usize::MAX,
    ensures
        defects_view(r@) == shifted(defects_view(errors@), off as int),
        spans_within(r@, n + off),
{
    let ghost orig = errors@;
    let len0 = errors.len();
    let mut rest = errors;
    let mut out: Vec<ParseError> = Vec::new();
    let mut i: usize = 0;
    while rest.len() > 0
        invariant
            i + rest@.len() == orig.len(),
            orig.len() == len0,
            rest@ == orig.subrange(i as int, orig.len() as int),
            spans_within(orig, n as int),
            n + off <= usize::MAX,
            defects_view(out@) =~= shifted(defects_view(orig.take(i as int)), off as int),
            spans_within(out@, n + off),
        decreases rest@.len(),
    {
        let ghost pre = out@;
        let x = rest.remove(0);
        assert(x == orig[i as int]);
        let ParseError { kind, span } = x;
        let d = ParseError::new(kind, (span.start + off)..(span.end + off));
        out.push(d);
        assert(forall|j: int| 0 <= j < out@.len() ==> #[trigger] out@[j] == if j < pre.len() {
            pre[j]
        } else {
            d
        });
        assert(orig.take(i + 1) =~= orig.take(i as int).push(orig[i as int]));
        assert(defects_view(orig.take(i + 1)) =~= defects_view(orig.take(i as int)).push(orig[i as int]@));
        assert(defects_view(out@) =~= defects_view(pre).push(d@));
        assert(shifted(defects_view(orig.take(i + 1)), off as int) =~= shifted(
            defects_view(orig.take(i as int)),
            off as int,
        ).push(
            DefectView {
                kind: orig[i as int]@.kind,
                start: orig[i as int]@.start + off,
                end: orig[i as int]@.end + off,
            },
        ));
        assert(rest@ =~= orig.subrange(i + 1, orig.len() as int));
        i = i + 1;
    }
    assert(orig.take(i as int) =~= orig);
    out
}

impl ConventionalParser {
    /// Checks the type and the scope tokens of a partial header against the
    /// configured lists.
    fn validate(
        &self,
        e: &Vec<char>,
        header: &Option<CommitHeader>,
        toks: &Vec<(usize, usize)>,
        errors: &mut Vec<ParseError>,
    )
        requires
            header is Some <==> has_partial_header(e@),
            header is Some ==> header->0@ == partial_header(e@),
            spans_view(toks@) == scope_tokens(e@),
            forall|k: int| 0 <= k < toks@.len() ==> nonempty_within(#[trigger] toks@[k], e@.len() as int),
            spans_within(old(errors)@, e@.len() as int),
        ensures
            defects_view(final(errors)@) == defects_view(old(errors)@) + semantic_defects(
                e@,
                self.types_view(),
                self.scopes_view(),
            ),
            spans_within(final(errors)@, e@.len() as int),
    {
        let ghost before = defects_view(errors@);
        let ghost types = self.types_view();
        let h = match header {
            None => {
                assert(defects_view(errors@) =~= before + semantic_defects(e@, types, self.scopes_view()));
                return ;
            },
            Some(h) => h,
        };
        proof {
            lemma_fwd_bounds(e@, 0, e@.len() as int, CharClass::TypeChar);
        }
        let ghost ty = e@.subrange(0, type_end(e@));
        let ghost g1 = when(
            !types.contains(ty),
            defect(DefectKind::InvalidType { found: ty, expected: types }, 0, type_end(e@)),
        );
        if !contains_name(&self.allowed_types, &h.commit_type) {
            let t = h.commit_type.as_str().unicode_len();
            let found = h.commit_type.clone();
            let expected = clone_names(&self.allowed_types);
            add_defect(errors, ParseErrorKind::InvalidType { found, expected }, 0, t);
        }
        assert(defects_view(errors@) =~= before + g1);
        match &self.allowed_scopes {
            None => {
                assert(defects_view(errors@) =~= before + semantic_defects(e@, types, self.scopes_view()));
            },
            Some(sc) => {
                let ghost scv = names(sc@);
                let ghost sv = spans_view(toks@);
                let mut k: usize = 0;
                while k < toks.len()
                    invariant
                        0 <= k <= toks@.len(),
                        sv == spans_view(toks@),
                        scv == names(sc@),
                        types == self.types_view(),
                        types == names(self.allowed_types@),
                        forall|j: int|
                            0 <= j < toks@.len() ==> nonempty_within(#[trigger] toks@[j], e@.len() as int),
                        defects_view(errors@) == before + g1 + scope_defects(e@, sv.take(k as int), types, scv),
                        spans_within(errors@, e@.len() as int),
                    decreases toks@.len() - k,
                {
                    let (a, b) = toks[k];
                    let s = string_of(e, a, b);
                    let ghost pre = defects_view(errors@);
                    if !contains_name(sc, &s) {
                        if contains_name(&self.allowed_types, &s) {
                            let expected_scopes = clone_names(sc);
                            let available_types = clone_names(&self.allowed_types);
                            add_defect(
                                errors,
                                ParseErrorKind::TypeUsedAsScope { found: s, expected_scopes, available_types },
                                a,
                                b,
                            );
                        } else {
                            let expected = clone_names(sc);
                            add_defect(errors, ParseErrorKind::InvalidScope { found: s, expected }, a, b);
                        }
                    }
                    assert(sv.take(k + 1).drop_last() =~= sv.take(k as int));
                    assert(sv.take(k + 1).last() == (a as int, b as int));
                    assert(defects_view(errors@) =~= pre + scope_defect(e@, (a as int, b as int), types, scv));
                    k = k + 1;
                }
                assert(sv.take(toks@.len() as int) =~= sv);
                assert(defects_view(errors@) =~= before + semantic_defects(e@, types, self.scopes_view()));
            },
        }
    }

    /// Parses a commit header, collecting every defect; spans count
    /// characters of `input`. Verified code cannot panic, and this function
    /// takes any string.
    pub fn parse(&self, input: &str) -> (r: ParseOutcome)
        ensures
            r.input@ == input@,
            outcome_view(r.result) == parse_spec(input@, self.types_view(), self.scopes_view()),
            match r.result {
                Ok(_) => true,
                Err(v) => v@.len() > 0 && spans_within(v@, input@.len() as int),
            },
            !has_escape(input@) && all_clean(self.types_view()) && (self.scopes_view() matches Some(sc)
                ==> all_clean(sc)) ==> match r.result {
                Ok(_) => true,
                Err(v) => kinds_clean(defects_view(v@)),
            },
    {
        proof {
            if !has_escape(input@) && all_clean(self.types_view()) && (self.scopes_view() matches Some(
                sc,
            ) ==> all_clean(sc)) {
                lemma_parse_defects_clean(input@, self.types_view(), self.scopes_view());
            }
        }
        let all = chars_of(input);
        let total = all.len();
        let off = squash_prefix_len(&all);
        let e = tail_of(&all, off);
        assert(e.len() + off == total);
        let scan = self.manual_parse(&e);
        let Scan { header, defects, scope_spans } = scan;
        let mut errors = defects;
        self.validate(&e, &header, &scope_spans, &mut errors);
        let ghost ds = all_defects(e@, self.types_view(), self.scopes_view());
        assert(defects_view(errors@) =~= ds);
        proof {
            if ds.len() == 0 {
                lemma_fwd_bounds(e@, 0, e@.len() as int, CharClass::TypeChar);
                assert(type_defects(e@).len() == 0);
                assert(description_defects(e@).len() == 0);
                assert(has_partial_header(e@));
            }
        }
        let result = if errors.len() == 0 {
            match header {
                Some(h) => Ok(h),
                None => Err(errors),
            }
        } else {
            let shifted_errors = shift_spans(errors, off, e.len());
            assert(defects_view(shifted_errors@).len() == shifted_errors@.len());
            assert(shifted_errors@.len() > 0);
            assert(spans_within(shifted_errors@, input@.len() as int));
            Err(shifted_errors)
        };
        ParseOutcome { input: input.to_owned(), result }
    }
}

} // verus!
