//! Moments on the contest's clock, as seconds, read from text.
use vstd::prelude::*;

verus! {

/// The moment that `chrono::NaiveDateTime::parse_from_str` reads from `s`
/// with the format `fmt`, in seconds, if it reads one.
pub uninterp spec fn parsed_datetime_of(s: Seq<char>, fmt: Seq<char>) -> Option<i64>;

/// Relies on `chrono::NaiveDateTime::parse_from_str` and
/// `NaiveDateTime::and_utc().timestamp()`: the moment written in `s` in the
/// format `fmt`, counted in seconds; a function of the two texts alone.
#[verifier::external_body]
pub(crate) fn parse_datetime(s: &str, fmt: &str) -> (r: Option<i64>)
    ensures
        r == parsed_datetime_of(s@, fmt@),
{
    chrono::NaiveDateTime::parse_from_str(s, fmt).ok().map(|d| d.and_utc().timestamp())
}

} // verus!
