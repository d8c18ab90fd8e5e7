//! The attempt ledger: an append-only log of attempts, at most one per
//! (user, riddle) pair.
use vstd::prelude::*;
use crate::models::GuessRecord;

verus! {

/// The ledger cannot hold more rows than a row id can number.
pub open spec fn ledger_full(rows: Seq<GuessRecord>) -> bool {
    rows.len() >= i64::MAX
}

/// Whether `user` has an attempt at `riddle` among `rows`.
pub open spec fn has_attempt(rows: Seq<GuessRecord>, user: i64, riddle: i64) -> bool {
    exists|i: int| 0 <= i < rows.len() && #[trigger] rows[i].user_id == user && rows[i].riddle_id == riddle
}

/// No two rows share a (user, riddle) pair.
pub open spec fn pairs_unique(rows: Seq<GuessRecord>) -> bool {
    forall|i: int, j: int|
        0 <= i < j < rows.len() && #[trigger] rows[i].user_id == #[trigger] rows[j].user_id
            ==> rows[i].riddle_id != rows[j].riddle_id
}

/// Rows are numbered from one in the order they were recorded.
pub open spec fn rows_numbered(rows: Seq<GuessRecord>) -> bool {
    forall|i: int| 0 <= i < rows.len() ==> #[trigger] rows[i].id == i + 1
}

/// The time of a row (rows without one count as the earliest).
pub open spec fn time_of(r: GuessRecord) -> i64 {
    match r.solve_time {
        Some(t) => t,
        None => i64::MIN,
    }
}

/// Recorded times never decrease in the order rows were recorded.
pub open spec fn times_ordered(rows: Seq<GuessRecord>) -> bool {
    forall|i: int, j: int| 0 <= i < j < rows.len() ==> time_of(#[trigger] rows[i]) <= time_of(#[trigger] rows[j])
}

/// The time an attempt made at `time` is recorded with: `time`, or the latest
/// recorded time when `time` is earlier, so that recorded times never
/// decrease.
pub open spec fn recorded_time(rows: Seq<GuessRecord>, time: i64) -> i64 {
    if rows.len() > 0 && time_of(rows.last()) > time {
        time_of(rows.last())
    } else {
        time
    }
}

/// The row that recording an attempt appends.
pub open spec fn new_row(rows: Seq<GuessRecord>, user: i64, riddle: i64, correct: bool, time: i64) -> GuessRecord {
    GuessRecord {
        id: (rows.len() + 1) as i64,
        user_id: user,
        riddle_id: riddle,
        solve_time: Some(recorded_time(rows, time)),
        is_solved: correct,
    }
}

/// Appending the row of an attempt keeps recorded times in order.
pub proof fn lemma_push_keeps_order(rows: Seq<GuessRecord>, user: i64, riddle: i64, correct: bool, time: i64)
    requires
        times_ordered(rows),
    ensures
        times_ordered(rows.push(new_row(rows, user, riddle, correct, time))),
{
    let next = rows.push(new_row(rows, user, riddle, correct, time));
    assert forall|i: int, j: int| 0 <= i < j < next.len() implies time_of(#[trigger] next[i]) <= time_of(#[trigger] next[j]) by {
        if j == rows.len() && i < rows.len() - 1 {
            assert(time_of(rows[i]) <= time_of(rows[rows.len() - 1]));
        }
    }
}

/// Every row of `newest_first(rows, user)` is a row of `rows`.
proof fn lemma_newest_first_rows(rows: Seq<GuessRecord>, user: i64)
    ensures
        forall|k: int| 0 <= k < newest_first(rows, user).len() ==> exists|i: int|
            0 <= i < rows.len() && #[trigger] newest_first(rows, user)[k] == rows[i],
    decreases rows.len(),
{
    if rows.len() > 0 {
        let init = rows.drop_last();
        lemma_newest_first_rows(init, user);
        let nf = newest_first(rows, user);
        let rest = newest_first(init, user);
        assert forall|k: int| 0 <= k < nf.len() implies exists|i: int| 0 <= i < rows.len() && #[trigger] nf[k] == rows[i] by {
            if rows.last().user_id == user {
                if k == 0 {
                    assert(nf[k] == rows[rows.len() - 1]);
                } else {
                    assert(nf[k] == rest[k - 1]);
                    let i = choose|i: int| 0 <= i < init.len() && #[trigger] rest[k - 1] == init[i];
                    assert(nf[k] == rows[i]);
                }
            } else {
                let i = choose|i: int| 0 <= i < init.len() && #[trigger] rest[k] == init[i];
                assert(nf[k] == rows[i]);
            }
        }
    }
}

/// Of rows in recorded order, `newest_first` lists the latest times first.
pub proof fn lemma_newest_first_sorted(rows: Seq<GuessRecord>, user: i64)
    requires
        times_ordered(rows),
    ensures
        forall|a: int, b: int| 0 <= a < b < newest_first(rows, user).len()
            ==> time_of(#[trigger] newest_first(rows, user)[a]) >= time_of(#[trigger] newest_first(rows, user)[b]),
    decreases rows.len(),
{
    if rows.len() > 0 {
        let init = rows.drop_last();
        assert(times_ordered(init)) by {
            assert forall|i: int, j: int| 0 <= i < j < init.len() implies time_of(#[trigger] init[i]) <= time_of(#[trigger] init[j]) by {
                assert(init[i] == rows[i] && init[j] == rows[j]);
            }
        }
        lemma_newest_first_sorted(init, user);
        lemma_newest_first_rows(init, user);
        let nf = newest_first(rows, user);
        let rest = newest_first(init, user);
        if rows.last().user_id == user {
            assert forall|a: int, b: int| 0 <= a < b < nf.len() implies time_of(#[trigger] nf[a]) >= time_of(#[trigger] nf[b]) by {
                if a == 0 {
                    let i = choose|i: int| 0 <= i < init.len() && #[trigger] rest[b - 1] == init[i];
                    assert(nf[b] == rows[i]);
                    assert(time_of(rows[i]) <= time_of(rows[rows.len() - 1]));
                } else {
                    assert(nf[a] == rest[a - 1] && nf[b] == rest[b - 1]);
                }
            }
        }
    }
}

/// The rows of `user`, the most recently recorded first.
pub open spec fn newest_first(rows: Seq<GuessRecord>, user: i64) -> Seq<GuessRecord>
    decreases rows.len(),
{
    if rows.len() == 0 {
        Seq::empty()
    } else {
        let rest = newest_first(rows.drop_last(), user);
        if rows.last().user_id == user {
            seq![rows.last()] + rest
        } else {
            rest
        }
    }
}

/// What recording an attempt answers.
#[derive(Clone, Copy, Debug, PartialEq, Eq, Structural)]
pub enum RecordResult {
    /// The row was appended.
    Accepted,
    /// The pair already has a row; nothing was written.
    Duplicate,
    /// The store could not take the row; nothing was written.
    Failed,
}

pub struct AttemptLedger {
    rows: Vec<GuessRecord>,
}

impl View for AttemptLedger {
    type V = Seq<GuessRecord>;

    closed spec fn view(&self) -> Seq<GuessRecord> {
        self.rows@
    }
}

impl AttemptLedger {
    pub open spec fn wf(&self) -> bool {
        pairs_unique(self@) && rows_numbered(self@) && times_ordered(self@)
    }

    pub fn new() -> (r: AttemptLedger)
        ensures
            r.wf(),
            r@ == Seq::<GuessRecord>::empty(),
    {
        AttemptLedger { rows: Vec::new() }
    }

    pub fn len(&self) -> (r: usize)
        ensures
            r == self@.len(),
    {
        self.rows.len()
    }

    /// Whether `user` already has an attempt at `riddle`.
    pub fn has_attempted(&self, user: i64, riddle: i64) -> (r: bool)
        ensures
            r == has_attempt(self@, user, riddle),
    {
        let mut i: usize = 0;
        while i < self.rows.len()
            invariant
                0 <= i <= self@.len(),
                forall|k: int| 0 <= k < i ==> !(#[trigger] self@[k].user_id == user && self@[k].riddle_id == riddle),
            decreases self@.len() - i,
        {
            if self.rows[i].user_id == user && self.rows[i].riddle_id == riddle {
                return true;
            }
            i += 1;
        }
        false
    }

    /// Reserves the (user, riddle) slot: appends the attempt unless the pair
    /// already has one. The uniqueness of pairs is what makes a second
    /// submission a duplicate, whatever it says.
    pub fn record_attempt(&mut self, user: i64, riddle: i64, correct: bool, time: i64) -> (r: RecordResult)
        requires
            old(self).wf(),
        ensures
            final(self).wf(),
            has_attempt(old(self)@, user, riddle) ==> r == RecordResult::Duplicate && final(self)@ == old(self)@,
            !has_attempt(old(self)@, user, riddle) && ledger_full(old(self)@) ==> r == RecordResult::Failed
                && final(self)@ == old(self)@,
            !has_attempt(old(self)@, user, riddle) && !ledger_full(old(self)@) ==> r == RecordResult::Accepted
                && final(self)@ == old(self)@.push(new_row(old(self)@, user, riddle, correct, time)),
            r != RecordResult::Failed ==> has_attempt(final(self)@, user, riddle),
    {
        if self.has_attempted(user, riddle) {
            return RecordResult::Duplicate;
        }
        let n = self.rows.len();
        if n as u64 >= i64::MAX as u64 {
            return RecordResult::Failed;
        }
        let mut at = time;
        if n > 0 {
            match self.rows[n - 1].solve_time {
                Some(t) => if t > time {
                    at = t;
                },
                None => {},
            }
        }
        let row = GuessRecord {
            id: n as i64 + 1,
            user_id: user,
            riddle_id: riddle,
            solve_time: Some(at),
            is_solved: correct,
        };
        proof {
            lemma_push_keeps_order(old(self)@, user, riddle, correct, time);
            assert(row == new_row(old(self)@, user, riddle, correct, time));
        }
        self.rows.push(row);
        proof {
            let rows = self@;
            assert(rows[n as int].user_id == user && rows[n as int].riddle_id == riddle);
            assert forall|i: int, j: int|
                0 <= i < j < rows.len() && #[trigger] rows[i].user_id == #[trigger] rows[j].user_id
                implies rows[i].riddle_id != rows[j].riddle_id by {
                if j == rows.len() - 1 && rows[i].riddle_id == riddle {
                    assert(old(self)@[i].user_id == user && old(self)@[i].riddle_id == riddle);
                }
            }
        }
        RecordResult::Accepted
    }

    /// The attempts of `user`, the most recently recorded first, which is
    /// the latest time first.
    pub fn list_for_user(&self, user: i64) -> (r: Vec<GuessRecord>)
        requires
            self.wf(),
        ensures
            r@ == newest_first(self@, user),
            forall|a: int, b: int| 0 <= a < b < r@.len() ==> time_of(#[trigger] r@[a]) >= time_of(#[trigger] r@[b]),
    {
        proof {
            lemma_newest_first_sorted(self@, user);
        }
        let mut out: Vec<GuessRecord> = Vec::new();
        let mut i: usize = 0;
        while i < self.rows.len()
            invariant
                0 <= i <= self@.len(),
                out@ == newest_first(self@.subrange(0, i as int), user),
            decreases self@.len() - i,
        {
            let row = self.rows[i];
            proof {
                let next = self@.subrange(0, i + 1);
                assert(next.drop_last() =~= self@.subrange(0, i as int));
                assert(next.last() == row);
            }
            if row.user_id == user {
                out.insert(0, row);
                assert(out@ =~= seq![row] + newest_first(self@.subrange(0, i as int), user));
            }
            i += 1;
        }
        assert(self@.subrange(0, self@.len() as int) =~= self@);
        out
    }

    /// The recorded rows, in the order they were recorded.
    pub fn rows(&self) -> (r: &Vec<GuessRecord>)
        ensures
            r@ == self@,
    {
        &self.rows
    }
}

} // verus!
