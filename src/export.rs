//! The export of winning attempts as CSV text.
use vstd::prelude::*;
use vstd::string::StringExecFns;
use crate::decimal::{decimal_digits, push_padded};
use crate::display::{format_moment, text_at};
use crate::models::GuessRecordWithInfo;
use crate::text::push_char;

verus! {

/// An integer in decimal, with a sign when negative.
pub open spec fn signed_text(n: i64) -> Seq<char> {
    if n < 0 {
        seq!['-'] + decimal_digits((-n) as nat)
    } else {
        decimal_digits(n as nat)
    }
}

/// A text with each double quote doubled.
pub open spec fn doubled_quotes(s: Seq<char>) -> Seq<char>
    decreases s.len(),
{
    if s.len() == 0 {
        Seq::empty()
    } else {
        let init = doubled_quotes(s.drop_last());
        if s.last() == '"' {
            init + seq!['"', '"']
        } else {
            init.push(s.last())
        }
    }
}

/// An optional text, empty when absent.
pub open spec fn text_or_empty(o: Option<String>) -> Seq<char> {
    match o {
        Some(s) => s@,
        None => Seq::empty(),
    }
}

/// An optional moment as `%Y-%m-%d %H:%M:%S`, empty when absent.
pub open spec fn moment_text(o: Option<i64>) -> Seq<char> {
    match o {
        Some(t) => text_at(t, "%Y-%m-%d %H:%M:%S"@),
        None => Seq::empty(),
    }
}

/// The first line: a byte order mark and the column titles.
pub open spec fn csv_header() -> Seq<char> {
    "\u{feff}记录ID,中奖用户,答对灯谜,谜底,中奖时间\n"@
}

/// One line: id, winner, the quoted riddle and answer, and the time.
pub open spec fn csv_row(r: GuessRecordWithInfo) -> Seq<char> {
    signed_text(r.id) + ","@ + text_or_empty(r.user_name) + ",\""@ + doubled_quotes(text_or_empty(r.riddle_question))
        + "\",\""@ + doubled_quotes(text_or_empty(r.riddle_answer)) + "\","@ + moment_text(r.solve_time) + "\n"@
}

pub open spec fn csv_rows(rows: Seq<GuessRecordWithInfo>) -> Seq<char>
    decreases rows.len(),
{
    if rows.len() == 0 {
        Seq::empty()
    } else {
        csv_rows(rows.drop_last()) + csv_row(rows.last())
    }
}

/// The whole export: the header, then one line per row, in order.
pub open spec fn csv_text(rows: Seq<GuessRecordWithInfo>) -> Seq<char> {
    csv_header() + csv_rows(rows)
}

fn push_signed(out: &mut String, n: i64)
    ensures
        final(out)@ == old(out)@ + signed_text(n),
{
    let ghost start = out@;
    if n < 0 {
        push_char(out, '-');
        let a: i128 = -(n as i128);
        push_padded(out, a as u64, 0);
        assert(out@ =~= start + signed_text(n));
    } else {
        push_padded(out, n as u64, 0);
    }
}

/// Appends `s` with each double quote doubled.
fn push_doubling_quotes(out: &mut String, s: &str)
    ensures
        final(out)@ == old(out)@ + doubled_quotes(s@),
{
    let ghost start = out@;
    let n = s.unicode_len();
    let mut i: usize = 0;
    while i < n
        invariant
            n == s@.len(),
            0 <= i <= n,
            out@ == start + doubled_quotes(s@.subrange(0, i as int)),
        decreases n - i,
    {
        let c = s.get_char(i);
        proof {
            let next = s@.subrange(0, i + 1);
            assert(next.drop_last() =~= s@.subrange(0, i as int));
            assert(next.last() == c);
        }
        let ghost before = out@;
        if c == '"' {
            push_char(out, '"');
            push_char(out, '"');
        } else {
            push_char(out, c);
        }
        assert(out@ =~= start + doubled_quotes(s@.subrange(0, i + 1)));
        i += 1;
    }
    assert(s@.subrange(0, n as int) =~= s@);
}

fn push_optional(out: &mut String, o: &Option<String>)
    ensures
        final(out)@ == old(out)@ + text_or_empty(*o),
{
    match o {
        Some(s) => out.append(s.as_str()),
        None => assert(out@ =~= out@ + Seq::<char>::empty()),
    }
}

fn push_optional_doubling_quotes(out: &mut String, o: &Option<String>)
    ensures
        final(out)@ == old(out)@ + doubled_quotes(text_or_empty(*o)),
{
    match o {
        Some(s) => push_doubling_quotes(out, s.as_str()),
        None => assert(out@ =~= out@ + doubled_quotes(Seq::<char>::empty())),
    }
}

/// Appends the line of one row.
pub fn push_csv_row(out: &mut String, r: &GuessRecordWithInfo)
    ensures
        final(out)@ == old(out)@ + csv_row(*r),
{
    let ghost start = out@;
    push_signed(out, r.id);
    out.append(",");
    push_optional(out, &r.user_name);
    out.append(",\"");
    push_optional_doubling_quotes(out, &r.riddle_question);
    out.append("\",\"");
    push_optional_doubling_quotes(out, &r.riddle_answer);
    out.append("\",");
    match r.solve_time {
        Some(t) => {
            let m = format_moment(t);
            out.append(m.as_str());
        },
        None => {},
    }
    out.append("\n");
    assert(out@ =~= start + csv_row(*r));
}

/// The CSV text of the winning attempts `rows`.
pub fn export_csv(rows: &Vec<GuessRecordWithInfo>) -> (r: String)
    ensures
        r@ == csv_text(rows@),
{
    let mut out = String::from_str("\u{feff}记录ID,中奖用户,答对灯谜,谜底,中奖时间\n");
    let mut i: usize = 0;
    while i < rows.len()
        invariant
            0 <= i <= rows@.len(),
            out@ == csv_header() + csv_rows(rows@.subrange(0, i as int)),
        decreases rows@.len() - i,
    {
        proof {
            let next = rows@.subrange(0, i + 1);
            assert(next.drop_last() =~= rows@.subrange(0, i as int));
        }
        push_csv_row(&mut out, &rows[i]);
        assert(out@ =~= csv_header() + csv_rows(rows@.subrange(0, i + 1)));
        i += 1;
    }
    assert(rows@.subrange(0, rows@.len() as int) =~= rows@);
    out
}

} // verus!
