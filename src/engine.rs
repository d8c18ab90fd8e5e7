//! The arbitration engine: decides, for one submission, its outcome, and
//! applies it to the store. The only writes are the reservation of the
//! (user, riddle) slot in the ledger and the conditional winning transition.
use vstd::prelude::*;
use crate::answer::{answers_match, answers_match_spec, is_valid_answer, is_valid_answer_text};
use crate::ledger::{
    has_attempt, lemma_push_keeps_order, ledger_full, new_row, newest_first,
    pairs_unique, rows_numbered, time_of, times_ordered, AttemptLedger, RecordResult,
};
use crate::models::{GuessRecord, Riddle};
use crate::params::{offset_of, page_offset};
use crate::riddle_store::{
    has_riddle, ids_unique, riddle_index, solved_by, solved_has_winner, RiddleStore,
};
use crate::window::{effective_window, window_verdict, status_at, ActivityWindow, WindowStatus};

verus! {

/// The expected outcomes of a submission.
#[derive(Clone, Copy, Debug, PartialEq, Eq, Structural)]
pub enum Outcome {
    /// This submission made the winning transition.
    Win,
    WrongAnswer,
    /// The user already has an attempt at this riddle.
    AlreadyAttempted,
    /// The answer was correct but another submission had won first.
    LostRace,
    /// The submission came outside the activity window.
    ContestNotActive,
}

/// The submissions that are refused, and the store's failure.
#[derive(Clone, Copy, Debug, PartialEq, Eq, Structural)]
pub enum SubmitError {
    /// Nothing is left of the answer after trimming.
    InvalidInput,
    RiddleNotFound,
    /// A write to the store failed; nothing was changed, and a retry is safe.
    StorageFailure,
}

/// Where a submission stands between two store operations.
#[derive(Clone, Copy, Debug)]
pub enum Step {
    /// The submission is decided.
    Finish(Result<Outcome, SubmitError>),
    /// Reserve the (user, riddle) slot, recording whether the answer is correct.
    Reserve { correct: bool },
    /// Attempt the conditional winning transition.
    Transition,
}

/// The decision before any write: the window's verdict, then the input, then
/// the riddle (`expected` is its answer, when it exists).
pub open spec fn step_before_reservation(
    status: WindowStatus,
    answer: Seq<char>,
    expected: Option<Seq<char>>,
) -> Step {
    if status != WindowStatus::Active {
        Step::Finish(Ok(Outcome::ContestNotActive))
    } else if !is_valid_answer(answer) {
        Step::Finish(Err(SubmitError::InvalidInput))
    } else {
        match expected {
            None => Step::Finish(Err(SubmitError::RiddleNotFound)),
            Some(e) => Step::Reserve { correct: answers_match_spec(answer, e) },
        }
    }
}

/// The decision once the reservation has been answered.
pub open spec fn step_after_reservation(recorded: RecordResult, correct: bool) -> Step {
    match recorded {
        RecordResult::Duplicate => Step::Finish(Ok(Outcome::AlreadyAttempted)),
        RecordResult::Failed => Step::Finish(Err(SubmitError::StorageFailure)),
        RecordResult::Accepted => if correct {
            Step::Transition
        } else {
            Step::Finish(Ok(Outcome::WrongAnswer))
        },
    }
}

/// The decision once the conditional transition has been answered: whether
/// it matched a riddle that was still unsolved is the verdict itself.
pub open spec fn outcome_after_transition(matched: bool) -> Outcome {
    if matched {
        Outcome::Win
    } else {
        Outcome::LostRace
    }
}

/// Decides a submission before any write.
pub fn decide_before_reservation(status: WindowStatus, answer: &str, expected: Option<&str>) -> (r: Step)
    ensures
        r == step_before_reservation(
            status,
            answer@,
            match expected {
                Some(e) => Some(e@),
                None => None,
            },
        ),
{
    if status != WindowStatus::Active {
        Step::Finish(Ok(Outcome::ContestNotActive))
    } else if !is_valid_answer_text(answer) {
        Step::Finish(Err(SubmitError::InvalidInput))
    } else {
        match expected {
            None => Step::Finish(Err(SubmitError::RiddleNotFound)),
            Some(e) => Step::Reserve { correct: answers_match(answer, e) },
        }
    }
}

/// Decides a submission once its reservation has been answered.
pub fn decide_after_reservation(recorded: RecordResult, correct: bool) -> (r: Step)
    ensures
        r == step_after_reservation(recorded, correct),
{
    match recorded {
        RecordResult::Duplicate => Step::Finish(Ok(Outcome::AlreadyAttempted)),
        RecordResult::Failed => Step::Finish(Err(SubmitError::StorageFailure)),
        RecordResult::Accepted => if correct {
            Step::Transition
        } else {
            Step::Finish(Ok(Outcome::WrongAnswer))
        },
    }
}

/// Decides a submission once its conditional transition has been answered.
pub fn decide_after_transition(matched: bool) -> (r: Outcome)
    ensures
        r == outcome_after_transition(matched),
{
    if matched {
        Outcome::Win
    } else {
        Outcome::LostRace
    }
}

/// The contest's durable state, as a value.
pub struct ContestView {
    pub window: Option<ActivityWindow>,
    pub riddles: Seq<Riddle>,
    pub attempts: Seq<GuessRecord>,
}

/// Whether `user` has a correct attempt at `riddle`.
pub open spec fn has_correct_attempt(rows: Seq<GuessRecord>, user: i64, riddle: i64) -> bool {
    exists|k: int|
        0 <= k < rows.len() && #[trigger] rows[k].user_id == user && rows[k].riddle_id == riddle
            && rows[k].is_solved
}

/// Every attempt is at a stored riddle.
pub open spec fn attempts_at_riddles(v: ContestView) -> bool {
    forall|k: int| 0 <= k < v.attempts.len() ==> has_riddle(v.riddles, #[trigger] v.attempts[k].riddle_id)
}

/// Every solved riddle's winner has a correct attempt at it.
pub open spec fn winners_recorded(v: ContestView) -> bool {
    forall|i: int|
        0 <= i < v.riddles.len() && #[trigger] v.riddles[i].is_solved ==> has_correct_attempt(
            v.attempts,
            v.riddles[i].solver_id->Some_0,
            v.riddles[i].id,
        )
}

/// The invariant of the contest's state.
pub open spec fn contest_wf(v: ContestView) -> bool {
    &&& ids_unique(v.riddles)
    &&& solved_has_winner(v.riddles)
    &&& pairs_unique(v.attempts)
    &&& rows_numbered(v.attempts)
    &&& times_ordered(v.attempts)
    &&& attempts_at_riddles(v)
    &&& winners_recorded(v)
}

/// The state after a submission, and its result.
pub open spec fn submit_spec(
    v: ContestView,
    user: i64,
    riddle: i64,
    answer: Seq<char>,
    now: i64,
) -> (ContestView, Result<Outcome, SubmitError>) {
    let w = effective_window(v.window, now);
    let v1 = ContestView { window: Some(w), ..v };
    if status_at(w, now) != WindowStatus::Active {
        (v1, Ok(Outcome::ContestNotActive))
    } else if !is_valid_answer(answer) {
        (v1, Err(SubmitError::InvalidInput))
    } else if !has_riddle(v.riddles, riddle) {
        (v1, Err(SubmitError::RiddleNotFound))
    } else {
        let i = riddle_index(v.riddles, riddle);
        let correct = answers_match_spec(answer, v.riddles[i].answer@);
        if has_attempt(v.attempts, user, riddle) {
            (v1, Ok(Outcome::AlreadyAttempted))
        } else if ledger_full(v.attempts) {
            (v1, Err(SubmitError::StorageFailure))
        } else {
            let v2 = ContestView {
                attempts: v.attempts.push(new_row(v.attempts, user, riddle, correct, now)),
                ..v1
            };
            if !correct {
                (v2, Ok(Outcome::WrongAnswer))
            } else if v.riddles[i].is_solved {
                (v2, Ok(Outcome::LostRace))
            } else {
                (ContestView { riddles: v.riddles.update(i, solved_by(v.riddles[i], user)), ..v2 }, Ok(Outcome::Win))
            }
        }
    }
}

/// Appending an attempt at a stored riddle keeps the invariant, whatever the
/// riddles' solved state.
pub(crate) proof fn lemma_append_attempt(v: ContestView, user: i64, riddle: i64, correct: bool, now: i64)
    requires
        contest_wf(v),
        has_riddle(v.riddles, riddle),
        !has_attempt(v.attempts, user, riddle),
        !ledger_full(v.attempts),
    ensures
        ({
            let v2 = ContestView { attempts: v.attempts.push(new_row(v.attempts, user, riddle, correct, now)), ..v };
            &&& pairs_unique(v2.attempts)
            &&& rows_numbered(v2.attempts)
            &&& times_ordered(v2.attempts)
            &&& attempts_at_riddles(v2)
            &&& winners_recorded(v2)
        }),
{
    let rows = v.attempts.push(new_row(v.attempts, user, riddle, correct, now));
    let v2 = ContestView { attempts: rows, ..v };
    lemma_push_keeps_order(v.attempts, user, riddle, correct, now);
    assert forall|i: int, j: int|
        0 <= i < j < rows.len() && #[trigger] rows[i].user_id == #[trigger] rows[j].user_id
        implies rows[i].riddle_id != rows[j].riddle_id by {
        if j == rows.len() - 1 && rows[i].riddle_id == riddle {
            assert(v.attempts[i].user_id == user && v.attempts[i].riddle_id == riddle);
        }
    }
    assert forall|k: int| 0 <= k < rows.len() implies has_riddle(v2.riddles, #[trigger] rows[k].riddle_id) by {
        if k < v.attempts.len() {
            assert(rows[k] == v.attempts[k]);
        }
    }
    assert forall|i: int|
        0 <= i < v2.riddles.len() && #[trigger] v2.riddles[i].is_solved implies has_correct_attempt(
            rows,
            v2.riddles[i].solver_id->Some_0,
            v2.riddles[i].id,
        ) by {
        let k = choose|k: int|
            0 <= k < v.attempts.len() && #[trigger] v.attempts[k].user_id == v.riddles[i].solver_id->Some_0
                && v.attempts[k].riddle_id == v.riddles[i].id && v.attempts[k].is_solved;
        assert(rows[k] == v.attempts[k]);
    }
}

/// The winning transition of an unsolved riddle at which `user` has a correct
/// attempt keeps the invariant.
pub(crate) proof fn lemma_win_transition(v: ContestView, i: int, user: i64)
    requires
        contest_wf(v),
        0 <= i < v.riddles.len(),
        !v.riddles[i].is_solved,
        has_correct_attempt(v.attempts, user, v.riddles[i].id),
    ensures
        contest_wf(ContestView { riddles: v.riddles.update(i, solved_by(v.riddles[i], user)), ..v }),
{
    let rs = v.riddles.update(i, solved_by(v.riddles[i], user));
    let v2 = ContestView { riddles: rs, ..v };
    assert forall|a: int, b: int| 0 <= a < b < rs.len() implies #[trigger] rs[a].id != #[trigger] rs[b].id by {
        assert(v.riddles[a].id != v.riddles[b].id);
    }
    assert forall|a: int| 0 <= a < rs.len() implies (#[trigger] rs[a].is_solved <==> rs[a].solver_id is Some) by {
        if a != i {
            assert(rs[a] == v.riddles[a]);
        }
    }
    assert forall|k: int| 0 <= k < v.attempts.len() implies has_riddle(rs, #[trigger] v.attempts[k].riddle_id) by {
        let j = choose|j: int| 0 <= j < v.riddles.len() && #[trigger] v.riddles[j].id == v.attempts[k].riddle_id;
        assert(rs[j].id == v.riddles[j].id);
    }
    assert forall|a: int|
        0 <= a < rs.len() && #[trigger] rs[a].is_solved implies has_correct_attempt(
            v.attempts,
            rs[a].solver_id->Some_0,
            rs[a].id,
        ) by {
        if a != i {
            assert(rs[a] == v.riddles[a]);
        }
    }
}

/// A row that records the win of its riddle: correct, and by the riddle's
/// winner.
pub open spec fn is_win_row(rs: Seq<Riddle>, row: GuessRecord) -> bool {
    row.is_solved && has_riddle(rs, row.riddle_id) && rs[riddle_index(rs, row.riddle_id)].solver_id == Some(row.user_id)
}

/// The rows that record wins, in the order they were recorded.
pub open spec fn win_rows(rs: Seq<Riddle>, rows: Seq<GuessRecord>) -> Seq<GuessRecord>
    decreases rows.len(),
{
    if rows.len() == 0 {
        Seq::empty()
    } else {
        let init = win_rows(rs, rows.drop_last());
        if is_win_row(rs, rows.last()) {
            init.push(rows.last())
        } else {
            init
        }
    }
}

/// Every row of `win_rows(rs, rows)` is a row of `rows`.
proof fn lemma_win_rows_rows(rs: Seq<Riddle>, rows: Seq<GuessRecord>)
    ensures
        forall|k: int| 0 <= k < win_rows(rs, rows).len() ==> exists|i: int|
            0 <= i < rows.len() && #[trigger] win_rows(rs, rows)[k] == rows[i],
    decreases rows.len(),
{
    if rows.len() > 0 {
        let init = rows.drop_last();
        lemma_win_rows_rows(rs, init);
        let w = win_rows(rs, rows);
        let rest = win_rows(rs, init);
        assert forall|k: int| 0 <= k < w.len() implies exists|i: int| 0 <= i < rows.len() && #[trigger] w[k] == rows[i] by {
            if k < rest.len() {
                let i = choose|i: int| 0 <= i < init.len() && #[trigger] rest[k] == init[i];
                assert(w[k] == rows[i]);
            } else {
                assert(w[k] == rows[rows.len() - 1]);
            }
        }
    }
}

/// Of rows in recorded order, the winning rows come earliest time first.
pub proof fn lemma_win_rows_sorted(rs: Seq<Riddle>, rows: Seq<GuessRecord>)
    requires
        times_ordered(rows),
    ensures
        forall|a: int, b: int| 0 <= a < b < win_rows(rs, rows).len()
            ==> time_of(#[trigger] win_rows(rs, rows)[a]) <= time_of(#[trigger] win_rows(rs, rows)[b]),
    decreases rows.len(),
{
    if rows.len() > 0 {
        let init = rows.drop_last();
        assert(times_ordered(init)) by {
            assert forall|i: int, j: int| 0 <= i < j < init.len() implies time_of(#[trigger] init[i]) <= time_of(#[trigger] init[j]) by {
                assert(init[i] == rows[i] && init[j] == rows[j]);
            }
        }
        lemma_win_rows_sorted(rs, init);
        lemma_win_rows_rows(rs, init);
        let w = win_rows(rs, rows);
        let rest = win_rows(rs, init);
        assert forall|a: int, b: int| 0 <= a < b < w.len() implies time_of(#[trigger] w[a]) <= time_of(#[trigger] w[b]) by {
            if b == rest.len() {
                let i = choose|i: int| 0 <= i < init.len() && #[trigger] rest[a] == init[i];
                assert(w[a] == rows[i]);
                assert(time_of(rows[i]) <= time_of(rows[rows.len() - 1]));
            } else {
                assert(w[a] == rest[a] && w[b] == rest[b]);
            }
        }
    }
}

/// The rows of page `[offset, offset + size)` of `rows`, cut at its end.
pub open spec fn page_of(rows: Seq<GuessRecord>, offset: int, size: int) -> Seq<GuessRecord> {
    let lo = if offset < rows.len() { offset } else { rows.len() as int };
    let hi = if offset + size < rows.len() { offset + size } else { rows.len() as int };
    rows.subrange(lo, hi)
}

/// The contest's state held in memory: the window, the riddles and the ledger.
pub struct ContestStore {
    window: Option<ActivityWindow>,
    riddles: RiddleStore,
    ledger: AttemptLedger,
}

impl View for ContestStore {
    type V = ContestView;

    closed spec fn view(&self) -> ContestView {
        ContestView { window: self.window, riddles: self.riddles@, attempts: self.ledger@ }
    }
}

impl ContestStore {
    pub open spec fn wf(&self) -> bool {
        contest_wf(self@)
    }

    closed spec fn parts_wf(&self) -> bool {
        self.riddles.wf() && self.ledger.wf() && contest_wf(self@)
    }

    /// An empty contest: no window configured, no riddles, no attempts.
    pub fn new() -> (r: ContestStore)
        ensures
            r.wf(),
            r@.window is None,
            r@.riddles == Seq::<Riddle>::empty(),
            r@.attempts == Seq::<GuessRecord>::empty(),
    {
        ContestStore { window: None, riddles: RiddleStore::new(), ledger: AttemptLedger::new() }
    }

    proof fn lemma_parts(&self)
        requires
            self.wf(),
        ensures
            self.parts_wf(),
    {
    }

    /// Configures the activity window.
    pub fn set_window(&mut self, w: ActivityWindow)
        requires
            old(self).wf(),
        ensures
            final(self).wf(),
            final(self)@ == (ContestView { window: Some(w), ..old(self)@ }),
    {
        self.window = Some(w);
    }

    /// The configured activity window, if any.
    pub fn window(&self) -> (r: Option<ActivityWindow>)
        ensures
            r == self@.window,
    {
        self.window
    }

    /// Adds an authored riddle, refused as `RiddleStore::add_riddle` refuses.
    pub fn add_riddle(&mut self, riddle: Riddle) -> (r: bool)
        requires
            old(self).wf(),
        ensures
            final(self).wf(),
            r == (!has_riddle(old(self)@.riddles, riddle.id) && !riddle.is_solved && riddle.solver_id is None),
            r ==> final(self)@ == (ContestView { riddles: old(self)@.riddles.push(riddle), ..old(self)@ }),
            !r ==> final(self)@ == old(self)@,
    {
        let ghost v = self@;
        let ok = self.riddles.add_riddle(riddle);
        proof {
            if ok {
                let rs = self@.riddles;
                assert forall|k: int| 0 <= k < v.attempts.len() implies has_riddle(rs, #[trigger] v.attempts[k].riddle_id) by {
                    let j = choose|j: int| 0 <= j < v.riddles.len() && #[trigger] v.riddles[j].id == v.attempts[k].riddle_id;
                    assert(rs[j] == v.riddles[j]);
                }
                assert forall|a: int| 0 <= a < rs.len() && #[trigger] rs[a].is_solved implies has_correct_attempt(
                    v.attempts,
                    rs[a].solver_id->Some_0,
                    rs[a].id,
                ) by {
                    assert(a < v.riddles.len());
                    assert(rs[a] == v.riddles[a]);
                }
            }
        }
        ok
    }

    /// The riddle with this id, if it is stored.
    pub fn riddle(&self, id: i64) -> (r: Option<&Riddle>)
        requires
            self.wf(),
        ensures
            r is None <==> !has_riddle(self@.riddles, id),
            r matches Some(x) ==> *x == self@.riddles[riddle_index(self@.riddles, id)],
    {
        proof { self.lemma_parts(); }
        match self.riddles.find(id) {
            None => None,
            Some(i) => Some(self.riddles.get(i)),
        }
    }

    /// The attempts of `user`, the most recently recorded first, which is
    /// the latest time first.
    pub fn attempts_for_user(&self, user: i64) -> (r: Vec<GuessRecord>)
        requires
            self.wf(),
        ensures
            r@ == newest_first(self@.attempts, user),
            forall|a: int, b: int| 0 <= a < b < r@.len() ==> time_of(#[trigger] r@[a]) >= time_of(#[trigger] r@[b]),
    {
        proof { self.lemma_parts(); }
        self.ledger.list_for_user(user)
    }

    /// The winning rows, earliest time first: the leaderboard.
    pub fn winning_rows(&self) -> (r: Vec<GuessRecord>)
        requires
            self.wf(),
        ensures
            r@ == win_rows(self@.riddles, self@.attempts),
            forall|a: int, b: int| 0 <= a < b < r@.len() ==> time_of(#[trigger] r@[a]) <= time_of(#[trigger] r@[b]),
    {
        proof {
            self.lemma_parts();
            lemma_win_rows_sorted(self@.riddles, self@.attempts);
        }
        let rows = self.ledger.rows();
        let mut out: Vec<GuessRecord> = Vec::new();
        let mut i: usize = 0;
        while i < rows.len()
            invariant
                self.parts_wf(),
                rows@ == self@.attempts,
                0 <= i <= rows@.len(),
                out@ == win_rows(self@.riddles, rows@.subrange(0, i as int)),
            decreases rows@.len() - i,
        {
            let row = rows[i];
            proof {
                let next = rows@.subrange(0, i + 1);
                assert(next.drop_last() =~= rows@.subrange(0, i as int));
                assert(next.last() == row);
            }
            if row.is_solved {
                match self.riddles.find(row.riddle_id) {
                    Some(j) => {
                        if self.riddles.get(j).solver_id == Some(row.user_id) {
                            out.push(row);
                        }
                    },
                    None => {},
                }
            }
            i += 1;
        }
        assert(rows@.subrange(0, rows@.len() as int) =~= rows@);
        out
    }

    /// A page of the leaderboard, earliest time first: pages count from one,
    /// `size` rows each.
    pub fn leaderboard_page(&self, page: u32, size: u32) -> (r: Vec<GuessRecord>)
        requires
            self.wf(),
        ensures
            r@ == page_of(win_rows(self@.riddles, self@.attempts), page_offset(page, size), size as int),
            forall|a: int, b: int| 0 <= a < b < r@.len() ==> time_of(#[trigger] r@[a]) <= time_of(#[trigger] r@[b]),
    {
        let all = self.winning_rows();
        let offset = offset_of(page, size);
        let n = all.len();
        let lo: usize = if offset < n as u64 { offset as usize } else { n };
        let hi: usize = if (size as u64) < (n - lo) as u64 { lo + size as usize } else { n };
        let mut out: Vec<GuessRecord> = Vec::new();
        let mut i: usize = lo;
        while i < hi
            invariant
                lo <= i <= hi <= n,
                n == all@.len(),
                out@ == all@.subrange(lo as int, i as int),
            decreases hi - i,
        {
            out.push(all[i]);
            assert(out@ =~= all@.subrange(lo as int, i + 1));
            i += 1;
        }
        assert(out@ =~= page_of(all@, page_offset(page, size), size as int));
        assert forall|a: int, b: int| 0 <= a < b < out@.len() implies time_of(#[trigger] out@[a]) <= time_of(#[trigger] out@[b]) by {
            assert(out@[a] == all@[lo + a] && out@[b] == all@[lo + b]);
        }
        out
    }

    /// Decides a submission and applies it: the window check (a missing window is
    /// replaced by the default one, which is persisted), the input, the
    /// riddle, the reservation of the (user, riddle) slot, and for a correct
    /// answer the conditional winning transition.
    pub fn submit_answer(&mut self, user_id: i64, riddle_id: i64, answer: &str, now: i64) -> (r: Result<Outcome, SubmitError>)
        requires
            old(self).wf(),
        ensures
            final(self).wf(),
            (final(self)@, r) == submit_spec(old(self)@, user_id, riddle_id, answer@, now),
    {
        proof { self.lemma_parts(); }
        let ghost v = self@;
        let (w, status) = window_verdict(self.window, now);
        self.window = Some(w);
        let ghost v1 = self@;
        assert(v1 == (ContestView { window: Some(w), ..v }));
        let found = self.riddles.find(riddle_id);
        let expected: Option<&str> = match found {
            None => None,
            Some(i) => Some(self.riddles.get(i).answer.as_str()),
        };
        let first = decide_before_reservation(status, answer, expected);
        match first {
            Step::Finish(result) => result,
            Step::Transition => Err(SubmitError::StorageFailure),
            Step::Reserve { correct } => {
                let recorded = self.ledger.record_attempt(user_id, riddle_id, correct, now);
                proof {
                    if recorded == RecordResult::Accepted {
                        lemma_append_attempt(v1, user_id, riddle_id, correct, now);
                    }
                }
                let next = decide_after_reservation(recorded, correct);
                match next {
                    Step::Finish(result) => result,
                    Step::Reserve { .. } => Err(SubmitError::StorageFailure),
                    Step::Transition => {
                        proof {
                            let i = riddle_index(v.riddles, riddle_id);
                            assert(v.riddles[i].id == riddle_id);
                            let k = self@.attempts.len() - 1;
                            assert(self@.attempts[k] == new_row(v.attempts, user_id, riddle_id, correct, now));
                            assert(self@.attempts[k].user_id == user_id && self@.attempts[k].riddle_id == riddle_id
                                && self@.attempts[k].is_solved);
                            if !v.riddles[i].is_solved {
                                lemma_win_transition(self@, i, user_id);
                            }
                        }
                        let matched = self.riddles.mark_solved_if_unsolved(riddle_id, user_id);
                        Ok(decide_after_transition(matched))
                    }
                }
            }
        }
    }
}

} // verus!
