//! How moments are shown: the texts chrono writes for them.
use vstd::prelude::*;
use vstd::string::StringExecFns;
use crate::clock::{parse_datetime, parsed_datetime_of};

verus! {

/// The text chrono writes for the moment `ts` seconds from the epoch with
/// the format `fmt`; none when the moment is out of chrono's range.
pub uninterp spec fn formatted_of(ts: i64, fmt: Seq<char>) -> Option<Seq<char>>;

/// The formats the library writes moments in.
pub open spec fn known_format(fmt: Seq<char>) -> bool {
    fmt == "%Y-%m-%d %H:%M:%S"@ || fmt == "%Y/%m/%d"@ || fmt == "%H:%M"@ || fmt == "%m/%d %H:%M"@
}

/// Relies on `chrono::DateTime::from_timestamp` (none when out of range) and
/// `NaiveDateTime::format` of its `naive_utc()`, written out with
/// `to_string`; a function of the moment and the format. Only formats that
/// chrono accepts are admitted, since writing out a rejected one panics.
#[verifier::external_body]
fn format_timestamp(ts: i64, fmt: &str) -> (r: Option<String>)
    requires
        known_format(fmt@),
    ensures
        r matches Some(t) ==> formatted_of(ts, fmt@) == Some(t@),
        r is None ==> formatted_of(ts, fmt@) is None,
{
    chrono::DateTime::from_timestamp(ts, 0).map(|d| d.naive_utc().format(fmt).to_string())
}

/// The text of a moment in a format, empty when out of range.
pub open spec fn text_at(ts: i64, fmt: Seq<char>) -> Seq<char> {
    match formatted_of(ts, fmt) {
        Some(t) => t,
        None => Seq::empty(),
    }
}

fn text_or_empty(ts: i64, fmt: &str) -> (r: String)
    requires
        known_format(fmt@),
    ensures
        r@ == text_at(ts, fmt@),
{
    match format_timestamp(ts, fmt) {
        Some(t) => t,
        None => String::new(),
    }
}

/// The display of an activity's span: on one date, the date and the two
/// times; across dates, month, day and time of each end. Empty when either
/// end is out of range.
pub open spec fn time_range_text(s: i64, e: i64) -> Seq<char> {
    match (formatted_of(s, "%Y/%m/%d"@), formatted_of(e, "%Y/%m/%d"@)) {
        (Some(ds), Some(de)) => if ds == de {
            "<p>"@ + ds + "</p><p>"@ + text_at(s, "%H:%M"@) + "~"@ + text_at(e, "%H:%M"@) + "</p>"@
        } else {
            "<p>"@ + text_at(s, "%m/%d %H:%M"@) + "~</p><p> "@ + text_at(e, "%m/%d %H:%M"@) + "</p>"@
        },
        _ => Seq::empty(),
    }
}

/// A moment written as `%Y-%m-%d %H:%M:%S`; empty when out of range.
pub fn format_moment(ts: i64) -> (r: String)
    ensures
        r@ == text_at(ts, "%Y-%m-%d %H:%M:%S"@),
{
    text_or_empty(ts, "%Y-%m-%d %H:%M:%S")
}

/// The display of an activity's span from `start` to `end`.
pub fn get_time_range_display(start: i64, end: i64) -> (r: String)
    ensures
        r@ == time_range_text(start, end),
{
    let (ds, de) = match (format_timestamp(start, "%Y/%m/%d"), format_timestamp(end, "%Y/%m/%d")) {
        (Some(a), Some(b)) => (a, b),
        _ => return String::new(),
    };
    let mut out = String::from_str("<p>");
    if ds == de {
        out.append(ds.as_str());
        out.append("</p><p>");
        let a = text_or_empty(start, "%H:%M");
        out.append(a.as_str());
        out.append("~");
        let b = text_or_empty(end, "%H:%M");
        out.append(b.as_str());
        out.append("</p>");
    } else {
        let a = text_or_empty(start, "%m/%d %H:%M");
        out.append(a.as_str());
        out.append("~</p><p> ");
        let b = text_or_empty(end, "%m/%d %H:%M");
        out.append(b.as_str());
        out.append("</p>");
    }
    assert(out@ =~= time_range_text(start, end));
    out
}

/// The moment that a stored time reads as: with a `T` between date and
/// time, with a space, or with a `T` and a fraction of a second.
pub open spec fn stored_moment(s: Seq<char>) -> Option<i64> {
    match parsed_datetime_of(s, "%Y-%m-%dT%H:%M:%S"@) {
        Some(t) => Some(t),
        None => match parsed_datetime_of(s, "%Y-%m-%d %H:%M:%S"@) {
            Some(t) => Some(t),
            None => parsed_datetime_of(s, "%Y-%m-%dT%H:%M:%S.%f"@),
        },
    }
}

/// The display of an activity's span given its stored start and end times:
/// empty when either is missing or does not read as a moment.
pub open spec fn time_range_filter_text(start: Seq<char>, end: Seq<char>) -> Seq<char> {
    if start.len() == 0 || end.len() == 0 {
        Seq::empty()
    } else {
        match (stored_moment(start), stored_moment(end)) {
            (Some(a), Some(b)) => time_range_text(a, b),
            _ => Seq::empty(),
        }
    }
}

/// Reads a stored time.
pub fn read_stored_moment(s: &str) -> (r: Option<i64>)
    ensures
        r == stored_moment(s@),
{
    match parse_datetime(s, "%Y-%m-%dT%H:%M:%S") {
        Some(t) => Some(t),
        None => match parse_datetime(s, "%Y-%m-%d %H:%M:%S") {
            Some(t) => Some(t),
            None => parse_datetime(s, "%Y-%m-%dT%H:%M:%S.%f"),
        },
    }
}

/// The display of an activity's span given its stored start and end times.
pub fn time_range_filter(start: &str, end: &str) -> (r: String)
    ensures
        r@ == time_range_filter_text(start@, end@),
{
    if start.is_empty() || end.is_empty() {
        return String::new();
    }
    match (read_stored_moment(start), read_stored_moment(end)) {
        (Some(a), Some(b)) => get_time_range_display(a, b),
        _ => String::new(),
    }
}

} // verus!
