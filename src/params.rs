//! The parameters that requests carry, and what the library reads from them.
use vstd::prelude::*;
use vstd::string::StringExecFns;
use crate::clock::{parse_datetime, parsed_datetime_of};
use crate::text::{contains, has_infix, has_prefix, parse_i64, parsed_i64, push_char, split_on, split_text, starts_with};
use crate::window::{default_window_at, ActivityWindow};

verus! {

/// Page size of the administrative listings when none is given.
pub const ADMIN_PAGE_SIZE: u32 = 10;

/// Page size of the participants' riddle listing when none is given.
pub const RIDDLE_PAGE_SIZE: u32 = 1;

/// The format in which activity times are written.
pub open spec fn activity_time_format() -> Seq<char> {
    "%Y-%m-%d %H:%M:%S"@
}

/// The name of an activity that is given none.
pub open spec fn default_activity_name() -> Seq<char> {
    "元宵猜灯谜"@
}

/// The number of rows that precede a page. Pages count from one; page zero
/// is read as the first.
pub open spec fn page_offset(page: u32, size: u32) -> int {
    if page == 0 {
        0
    } else {
        (page - 1) * size
    }
}

/// The number of pages that `total` rows fill, `size` to a page.
pub open spec fn page_count(total: i64, size: u32) -> int {
    if total <= 0 || size == 0 {
        0
    } else {
        (total + size - 1) / (size as int)
    }
}

/// The ids that a comma-separated list names; pieces that are not integers
/// are left out.
pub open spec fn parsed_ids(pieces: Seq<Seq<char>>) -> Seq<i64>
    decreases pieces.len(),
{
    if pieces.len() == 0 {
        Seq::empty()
    } else {
        let init = parsed_ids(pieces.drop_last());
        match parsed_i64(pieces.last()) {
            Some(id) => init.push(id),
            None => init,
        }
    }
}

/// A text with each of `%`, `_` and `\\` preceded by `\\`, so that a SQL
/// `LIKE` with that escape character matches it literally.
pub open spec fn like_escaped(s: Seq<char>) -> Seq<char>
    decreases s.len(),
{
    if s.len() == 0 {
        Seq::empty()
    } else {
        let init = like_escaped(s.drop_last());
        let c = s.last();
        if c == '%' || c == '_' || c == '\\' {
            init + seq!['\\', c]
        } else {
            init.push(c)
        }
    }
}

/// The `LIKE` pattern (escape character `\\`) of the rows whose text holds
/// `keyword`.
pub fn like_pattern(keyword: &str) -> (r: String)
    ensures
        r@ == seq!['%'] + like_escaped(keyword@) + seq!['%'],
{
    let mut out = String::new();
    push_char(&mut out, '%');
    let n = keyword.unicode_len();
    let mut i: usize = 0;
    while i < n
        invariant
            n == keyword@.len(),
            0 <= i <= n,
            out@ == seq!['%'] + like_escaped(keyword@.subrange(0, i as int)),
        decreases n - i,
    {
        let c = keyword.get_char(i);
        proof {
            let next = keyword@.subrange(0, i + 1);
            assert(next.drop_last() =~= keyword@.subrange(0, i as int));
            assert(next.last() == c);
        }
        if c == '%' || c == '_' || c == '\\' {
            push_char(&mut out, '\\');
        }
        push_char(&mut out, c);
        assert(out@ =~= seq!['%'] + like_escaped(keyword@.subrange(0, i + 1)));
        i += 1;
    }
    assert(keyword@.subrange(0, n as int) =~= keyword@);
    push_char(&mut out, '%');
    assert(out@ =~= seq!['%'] + like_escaped(keyword@) + seq!['%']);
    out
}

/// Paging and search of the administrative listings.
#[derive(Clone, Debug)]
pub struct PaginationParams {
    pub page: Option<u32>,
    pub page_size: Option<u32>,
    pub keyword: Option<String>,
}

/// Paging of the participants' riddle listing, and the riddles to leave out.
#[derive(Clone, Debug)]
pub struct RiddleParams {
    pub page: Option<u32>,
    pub page_size: Option<u32>,
    pub exclude_ids: Option<String>,
}

/// The options of an export of the winners.
#[derive(Clone, Debug)]
pub struct ExportParams {
    pub keyword: Option<String>,
    pub save_locally: Option<bool>,
}

/// A configuration of the activity as an administrator sends it.
#[derive(Clone, Debug)]
pub struct ActivityPayload {
    pub name: Option<String>,
    pub start_time: String,
    pub end_time: String,
}

/// A request body read as JSON or as a form, by its content type.
pub struct MaybeFormOrJson<T>(pub T);

/// Whether a request body with this content type is read as JSON (else as
/// a form).
pub fn body_is_json(content_type: &str) -> (r: bool)
    ensures
        r == has_prefix(content_type@, "application/json"@),
{
    starts_with(content_type, "application/json")
}

/// An id written as text in a cookie or a query: its decimal integer.
pub fn id_from_text(s: &str) -> (r: Option<i64>)
    ensures
        r == parsed_i64(s@),
{
    parse_i64(s)
}

/// The number of rows that precede a page.
pub fn offset_of(page: u32, size: u32) -> (r: u64)
    ensures
        r == page_offset(page, size),
{
    if page == 0 {
        0
    } else {
        assert((page - 1) * size <= u32::MAX * u32::MAX) by (nonlinear_arith)
            requires page - 1 <= u32::MAX, size <= u32::MAX;
        (page as u64 - 1) * (size as u64)
    }
}

/// The number of pages that `total` rows fill, `size` to a page.
pub fn total_pages(total: i64, size: u32) -> (r: i64)
    ensures
        r == page_count(total, size),
{
    if total <= 0 || size == 0 {
        0
    } else {
        let t = total as u64;
        let s = size as u64;
        let q = (t + (s - 1)) / s;
        assert((t + (s - 1)) <= t * s) by (nonlinear_arith)
            requires s >= 1, t >= 1;
        assert(q <= t) by {
            vstd::arithmetic::div_mod::lemma_div_is_ordered((t + (s - 1)) as int, (t * s) as int, s as int);
            vstd::arithmetic::div_mod::lemma_div_multiples_vanish(t as int, s as int);
        }
        q as i64
    }
}

impl PaginationParams {
    /// The page asked for, the first by default.
    pub fn page_number(&self) -> (r: u32)
        ensures
            r == match self.page { Some(p) => p, None => 1 },
    {
        match self.page {
            Some(p) => p,
            None => 1,
        }
    }

    /// The page size asked for, `ADMIN_PAGE_SIZE` by default.
    pub fn size(&self) -> (r: u32)
        ensures
            r == match self.page_size { Some(s) => s, None => ADMIN_PAGE_SIZE },
    {
        match self.page_size {
            Some(s) => s,
            None => ADMIN_PAGE_SIZE,
        }
    }

    /// The number of rows that precede the page asked for.
    pub fn offset(&self) -> (r: u64)
        ensures
            r == page_offset(
                match self.page { Some(p) => p, None => 1 },
                match self.page_size { Some(s) => s, None => ADMIN_PAGE_SIZE },
            ),
    {
        offset_of(self.page_number(), self.size())
    }

    /// The search text, empty when none is given.
    pub fn keyword_text(&self) -> (r: String)
        ensures
            r@ == match self.keyword { Some(k) => k@, None => Seq::<char>::empty() },
    {
        match &self.keyword {
            Some(k) => k.clone(),
            None => String::new(),
        }
    }
}

impl RiddleParams {
    /// The page asked for, the first by default.
    pub fn page_number(&self) -> (r: u32)
        ensures
            r == match self.page { Some(p) => p, None => 1 },
    {
        match self.page {
            Some(p) => p,
            None => 1,
        }
    }

    /// The page size asked for, `RIDDLE_PAGE_SIZE` by default.
    pub fn size(&self) -> (r: u32)
        ensures
            r == match self.page_size { Some(s) => s, None => RIDDLE_PAGE_SIZE },
    {
        match self.page_size {
            Some(s) => s,
            None => RIDDLE_PAGE_SIZE,
        }
    }

    /// The number of rows that precede the page asked for.
    pub fn offset(&self) -> (r: u64)
        ensures
            r == page_offset(
                match self.page { Some(p) => p, None => 1 },
                match self.page_size { Some(s) => s, None => RIDDLE_PAGE_SIZE },
            ),
    {
        offset_of(self.page_number(), self.size())
    }

    /// The riddle ids to leave out: the integers of the comma-separated list.
    pub fn excluded_ids(&self) -> (r: Vec<i64>)
        ensures
            r@ == parsed_ids(split_on(
                match self.exclude_ids { Some(s) => s@, None => Seq::<char>::empty() },
                ',',
            )),
    {
        let empty = String::new();
        let text: &String = match &self.exclude_ids {
            Some(s) => s,
            None => &empty,
        };
        let pieces = split_text(text.as_str(), ',');
        let ghost views = pieces@.map_values(|p: String| p@);
        let mut ids: Vec<i64> = Vec::new();
        let mut i: usize = 0;
        while i < pieces.len()
            invariant
                0 <= i <= pieces@.len(),
                views == pieces@.map_values(|p: String| p@),
                ids@ == parsed_ids(views.subrange(0, i as int)),
            decreases pieces@.len() - i,
        {
            proof {
                let next = views.subrange(0, i + 1);
                assert(next.drop_last() =~= views.subrange(0, i as int));
                assert(next.last() == pieces@[i as int]@);
            }
            match parse_i64(pieces[i].as_str()) {
                Some(id) => ids.push(id),
                None => {},
            }
            i += 1;
        }
        assert(views.subrange(0, pieces@.len() as int) =~= views);
        ids
    }
}

impl ExportParams {
    /// Whether the export is saved beside the program rather than sent: when
    /// asked for, or when the request comes from the desktop shell.
    pub fn saves_locally(&self, origin: &str) -> (r: bool)
        ensures
            r == (has_infix(origin@, "tauri.localhost"@) || self.save_locally == Some(true)),
    {
        contains(origin, "tauri.localhost") || match self.save_locally {
            Some(b) => b,
            None => false,
        }
    }
}

/// The activity created when none is configured: the default name, and the
/// default window from `now`.
pub fn default_activity(now: i64) -> (r: (String, ActivityWindow))
    ensures
        r.0@ == default_activity_name(),
        r.1 == default_window_at(now),
{
    (String::from_str("元宵猜灯谜"), ActivityWindow::default_at(now))
}

impl ActivityPayload {
    /// The name and window that this configuration sets: each time that does
    /// not read in the activity time format is taken as `now`, and a missing
    /// name as the default one.
    pub fn resolve(&self, now: i64) -> (r: (String, ActivityWindow))
        ensures
            r.0@ == match self.name { Some(n) => n@, None => default_activity_name() },
            r.1.start == match parsed_datetime_of(self.start_time@, activity_time_format()) {
                Some(t) => t,
                None => now,
            },
            r.1.end == match parsed_datetime_of(self.end_time@, activity_time_format()) {
                Some(t) => t,
                None => now,
            },
    {
        let start = match parse_datetime(self.start_time.as_str(), "%Y-%m-%d %H:%M:%S") {
            Some(t) => t,
            None => now,
        };
        let end = match parse_datetime(self.end_time.as_str(), "%Y-%m-%d %H:%M:%S") {
            Some(t) => t,
            None => now,
        };
        let name = match &self.name {
            Some(n) => n.clone(),
            None => String::from_str("元宵猜灯谜"),
        };
        (name, ActivityWindow::new(start, end))
    }
}

/// A riddle id as a request carries it: a number, a text, or something else.
#[derive(Clone, Debug)]
pub enum RiddleIdValue {
    Integer(i64),
    Text(String),
    Other,
}

/// A submission as a participant sends it.
#[derive(Clone, Debug)]
pub struct GuessPayload {
    pub riddle_id: RiddleIdValue,
    pub answer: String,
}

impl GuessPayload {
    /// The riddle id: the number itself, or the integer that the text holds.
    pub fn riddle_id_number(&self) -> (r: Option<i64>)
        ensures
            r == match self.riddle_id {
                RiddleIdValue::Integer(i) => Some(i),
                RiddleIdValue::Text(t) => parsed_i64(t@),
                RiddleIdValue::Other => None,
            },
    {
        match &self.riddle_id {
            RiddleIdValue::Integer(i) => Some(*i),
            RiddleIdValue::Text(t) => parse_i64(t.as_str()),
            RiddleIdValue::Other => None,
        }
    }
}

} // verus!
