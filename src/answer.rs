//! Answer normalisation: answers are compared trimmed and case-insensitively.
use vstd::prelude::*;

verus! {

/// The characters of Unicode's White_Space property.
pub open spec fn is_white_space(c: char) -> bool {
    ('\u{9}' <= c <= '\u{D}') || c == ' ' || c == '\u{85}' || c == '\u{A0}' || c == '\u{1680}'
        || ('\u{2000}' <= c <= '\u{200A}') || c == '\u{2028}' || c == '\u{2029}' || c == '\u{202F}'
        || c == '\u{205F}' || c == '\u{3000}'
}

/// A text without its leading white space.
pub open spec fn trim_start_of(s: Seq<char>) -> Seq<char>
    decreases s.len(),
{
    if s.len() > 0 && is_white_space(s[0]) {
        trim_start_of(s.drop_first())
    } else {
        s
    }
}

/// A text without its trailing white space.
pub open spec fn trim_end_of(s: Seq<char>) -> Seq<char>
    decreases s.len(),
{
    if s.len() > 0 && is_white_space(s.last()) {
        trim_end_of(s.drop_last())
    } else {
        s
    }
}

/// A text without leading and trailing white space.
pub open spec fn trim_of(s: Seq<char>) -> Seq<char> {
    trim_end_of(trim_start_of(s))
}

/// Whether every character of a text is ASCII.
pub open spec fn all_ascii(s: Seq<char>) -> bool {
    forall|i: int| 0 <= i < s.len() ==> (#[trigger] s[i] as u32) < 128
}

/// An ASCII capital letter made small; any other character unchanged.
pub open spec fn ascii_lower(c: char) -> char {
    if 'A' <= c <= 'Z' {
        ((c as u32) + 32) as char
    } else {
        c
    }
}

/// What `str::to_lowercase` makes of a text.
pub uninterp spec fn lower_of(s: Seq<char>) -> Seq<char>;

/// Relies on `str::trim`: the text without the leading and trailing
/// characters of Unicode's White_Space property.
#[verifier::external_body]
fn trim_text<'a>(s: &'a str) -> (r: &'a str)
    ensures
        r@ == trim_of(s@),
{
    s.trim()
}

/// Relies on `str::to_lowercase`: the lowercase form of the text, a function
/// of the text alone; on ASCII text, each capital letter made small.
#[verifier::external_body]
fn lowercase(s: &str) -> (r: String)
    ensures
        r@ == lower_of(s@),
        all_ascii(s@) ==> r@ == s@.map_values(|c: char| ascii_lower(c)),
{
    s.to_lowercase()
}

/// The lowercase form of a text: on ASCII text each capital letter made
/// small, otherwise what `str::to_lowercase` makes of it.
pub open spec fn lowered(s: Seq<char>) -> Seq<char> {
    if all_ascii(s) {
        s.map_values(|c: char| ascii_lower(c))
    } else {
        lower_of(s)
    }
}

/// The form in which answers are compared.
pub open spec fn normalized(s: Seq<char>) -> Seq<char> {
    lowered(trim_of(s))
}

/// A submitted answer is acceptable input when something is left of it after
/// trimming.
pub open spec fn is_valid_answer(s: Seq<char>) -> bool {
    trim_of(s).len() > 0
}

/// A submission answers a riddle when both are equal once trimmed and
/// lowercased.
pub open spec fn answers_match_spec(submitted: Seq<char>, expected: Seq<char>) -> bool {
    normalized(submitted) == normalized(expected)
}

/// The normalised form of an answer.
pub fn normalize_answer(s: &str) -> (r: String)
    ensures
        r@ == normalized(s@),
{
    lowercase(trim_text(s))
}

/// Whether a submitted answer has anything left after trimming.
pub fn is_valid_answer_text(s: &str) -> (r: bool)
    ensures
        r == is_valid_answer(s@),
{
    let t = trim_text(s);
    !t.is_empty()
}

/// Compares two answers that are already normalised.
pub fn normalized_answers_match(submitted: &String, expected: &String) -> (r: bool)
    ensures
        r == (submitted@ == expected@),
{
    *submitted == *expected
}

/// Whether a submission answers a riddle whose answer is `expected`.
pub fn answers_match(submitted: &str, expected: &str) -> (r: bool)
    ensures
        r == answers_match_spec(submitted@, expected@),
{
    let a = normalize_answer(submitted);
    let b = normalize_answer(expected);
    normalized_answers_match(&a, &b)
}

} // verus!
