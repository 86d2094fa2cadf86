//! Character-level helpers: classes of characters, runs of a class, and the
//! conversions between `str` and a vector of Unicode scalar values.
use vstd::prelude::*;

verus! {

/// What `char::is_alphanumeric` answers for a character.
pub uninterp spec fn alphanumeric(c: char) -> bool;

/// What `char::is_whitespace` answers for a character.
pub uninterp spec fn white_space(c: char) -> bool;

/// An ASCII letter or digit.
pub open spec fn ascii_alphanumeric(c: char) -> bool {
    ('a' <= c && c <= 'z') || ('A' <= c && c <= 'Z') || ('0' <= c && c <= '9')
}

/// The ASCII characters with the Unicode `White_Space` property.
pub open spec fn ascii_white_space(c: char) -> bool {
    c == ' ' || c == '\t' || c == '\n' || c == '\r' || c == '\u{0B}' || c == '\u{0C}'
}

pub open spec fn is_ascii_char(c: char) -> bool {
    (c as u32) < 128
}

/// Letters and digits: known outright for ASCII, by `char::is_alphanumeric` beyond.
pub open spec fn letter_or_digit(c: char) -> bool {
    if is_ascii_char(c) {
        ascii_alphanumeric(c)
    } else {
        alphanumeric(c)
    }
}

/// White space: known outright for ASCII, by `char::is_whitespace` beyond.
pub open spec fn is_white(c: char) -> bool {
    if is_ascii_char(c) {
        ascii_white_space(c)
    } else {
        white_space(c)
    }
}

/// Relies on `char::is_alphanumeric`: whether the character is alphabetic or
/// numeric. Among ASCII characters, std documents these as exactly the letters
/// and the digits.
#[verifier::external_body]
pub(crate) fn char_is_alphanumeric(c: char) -> (r: bool)
    ensures
        r == alphanumeric(c),
        is_ascii_char(c) ==> (r <==> ascii_alphanumeric(c)),
{
    c.is_alphanumeric()
}

/// Relies on `char::is_whitespace`: whether the character has the Unicode
/// `White_Space` property, which among ASCII characters only space, tab, line
/// feed, carriage return, vertical tab and form feed have.
#[verifier::external_body]
pub(crate) fn char_is_whitespace(c: char) -> (r: bool)
    ensures
        r == white_space(c),
        is_ascii_char(c) ==> (r <==> ascii_white_space(c)),
{
    c.is_whitespace()
}

/// Relies on `String::push`: appends one character.
#[verifier::external_body]
pub(crate) fn push_char(s: &mut String, c: char)
    ensures
        final(s)@ == old(s)@.push(c),
{
    s.push(c)
}

/// The classes of characters that the scanner walks over.
#[derive(Clone, Copy, PartialEq, Eq, Debug)]
pub enum CharClass {
    /// Letters, digits and `-`: the characters of a commit type.
    TypeChar,
    /// The plain space `' '`.
    Space,
    /// Anything but `)` and a line break: the inside of a scope group.
    GroupBody,
    /// Anything but a line break.
    LineBody,
    /// Unicode white space.
    White,
}

pub open spec fn in_class(c: char, k: CharClass) -> bool {
    match k {
        CharClass::TypeChar => letter_or_digit(c) || c == '-',
        CharClass::Space => c == ' ',
        CharClass::GroupBody => c != ')' && c != '\n',
        CharClass::LineBody => c != '\n',
        CharClass::White => is_white(c),
    }
}

/// The end of the run of class `k` that starts at `i` and stops at `hi` at the latest.
pub open spec fn fwd(e: Seq<char>, i: int, hi: int, k: CharClass) -> int
    decreases hi - i,
{
    if 0 <= i < hi && i < e.len() && in_class(e[i], k) {
        fwd(e, i + 1, hi, k)
    } else {
        i
    }
}

/// The start of the run of class `k` that ends at `j` and reaches back to `lo` at the most.
pub open spec fn bwd(e: Seq<char>, j: int, lo: int, k: CharClass) -> int
    decreases j - lo,
{
    if lo < j <= e.len() && 0 < j && in_class(e[j - 1], k) {
        bwd(e, j - 1, lo, k)
    } else {
        j
    }
}

pub proof fn lemma_fwd_bounds(e: Seq<char>, i: int, hi: int, k: CharClass)
    requires
        0 <= i <= hi <= e.len(),
    ensures
        i <= fwd(e, i, hi, k) <= hi,
        forall|m: int| i <= m < fwd(e, i, hi, k) ==> in_class(#[trigger] e[m], k),
        fwd(e, i, hi, k) < hi ==> !in_class(e[fwd(e, i, hi, k)], k),
    decreases hi - i,
{
    if i < hi && in_class(e[i], k) {
        lemma_fwd_bounds(e, i + 1, hi, k);
    }
}

pub proof fn lemma_bwd_bounds(e: Seq<char>, j: int, lo: int, k: CharClass)
    requires
        0 <= lo <= j <= e.len(),
    ensures
        lo <= bwd(e, j, lo, k) <= j,
        forall|m: int| bwd(e, j, lo, k) <= m < j ==> in_class(#[trigger] e[m], k),
    decreases j - lo,
{
    if lo < j && in_class(e[j - 1], k) {
        lemma_bwd_bounds(e, j - 1, lo, k);
    }
}

pub fn class_matches(c: char, k: CharClass) -> (r: bool)
    ensures
        r == in_class(c, k),
{
    match k {
        CharClass::TypeChar => char_is_alphanumeric(c) || c == '-',
        CharClass::Space => c == ' ',
        CharClass::GroupBody => c != ')' && c != '\n',
        CharClass::LineBody => c != '\n',
        CharClass::White => char_is_whitespace(c),
    }
}

/// Walks forward over the run of class `k` from `i`, stopping at `hi`.
pub fn skip_forward(e: &Vec<char>, i: usize, hi: usize, k: CharClass) -> (r: usize)
    requires
        i <= hi <= e@.len(),
    ensures
        r as int == fwd(e@, i as int, hi as int, k),
        i <= r <= hi,
{
    let mut p: usize = i;
    while p < hi && class_matches(e[p], k)
        invariant
            i <= p <= hi <= e@.len(),
            fwd(e@, p as int, hi as int, k) == fwd(e@, i as int, hi as int, k),
        decreases hi - p,
    {
        p = p + 1;
    }
    p
}

/// Walks backward over the run of class `k` that ends at `j`, stopping at `lo`.
pub fn skip_backward(e: &Vec<char>, j: usize, lo: usize, k: CharClass) -> (r: usize)
    requires
        lo <= j <= e@.len(),
    ensures
        r as int == bwd(e@, j as int, lo as int, k),
        lo <= r <= j,
{
    let mut p: usize = j;
    while p > lo && class_matches(e[p - 1], k)
        invariant
            lo <= p <= j <= e@.len(),
            bwd(e@, p as int, lo as int, k) == bwd(e@, j as int, lo as int, k),
        decreases p - lo,
    {
        p = p - 1;
    }
    p
}

/// The characters of a string, in order.
pub fn chars_of(s: &str) -> (r: Vec<char>)
    ensures
        r@ == s@,
{
    let n = s.unicode_len();
    let mut v: Vec<char> = Vec::new();
    for i in 0..n
        invariant
            n == s@.len(),
            v@ == s@.subrange(0, i as int),
    {
        v.push(s.get_char(i));
        assert(v@ =~= s@.subrange(0, i + 1));
    }
    assert(v@ =~= s@);
    v
}

/// The string made of `e[from..to]`.
pub fn string_of(e: &Vec<char>, from: usize, to: usize) -> (r: String)
    requires
        from <= to <= e@.len(),
    ensures
        r@ == e@.subrange(from as int, to as int),
{
    let mut s = String::new();
    let mut i: usize = from;
    while i < to
        invariant
            from <= i <= to <= e@.len(),
            s@ == e@.subrange(from as int, i as int),
        decreases to - i,
    {
        push_char(&mut s, e[i]);
        assert(s@ =~= e@.subrange(from as int, i + 1));
        i = i + 1;
    }
    s
}

} // verus!
