//! What holds of every submission and every reachable state of a contest.
use vstd::prelude::*;
use crate::answer::{answers_match_spec, is_valid_answer};
use crate::engine::{
    contest_wf, has_correct_attempt, lemma_append_attempt, lemma_win_transition, outcome_after_transition,
    step_after_reservation, submit_spec, ContestView, Outcome, Step, SubmitError,
};
use crate::ledger::RecordResult;
use crate::models::GuessRecord;
use crate::ledger::{has_attempt, ledger_full, new_row};
use crate::riddle_store::{
    has_riddle, ids_unique, riddle_index, transition_spec, transitions_in_turn,
};
use crate::window::{effective_window, status_at, ActivityWindow, WindowStatus};

verus! {

/// An attempt row that names `riddle`'s winner as a correct solver of it.
pub open spec fn is_winning_row(v: ContestView, i: int, k: int) -> bool {
    &&& 0 <= k < v.attempts.len()
    &&& v.attempts[k].riddle_id == v.riddles[i].id
    &&& v.attempts[k].is_solved
    &&& v.riddles[i].solver_id == Some(v.attempts[k].user_id)
}

/// Row `k` is an attempt of `user` at `riddle`.
pub open spec fn is_attempt_of(v: ContestView, k: int, user: i64, riddle: i64) -> bool {
    0 <= k < v.attempts.len() && v.attempts[k].user_id == user && v.attempts[k].riddle_id == riddle
}

/// The position of a stored riddle is the one that holds its id.
pub proof fn lemma_riddle_index_unique(rs: Seq<crate::models::Riddle>, i: int)
    requires
        ids_unique(rs),
        0 <= i < rs.len(),
    ensures
        has_riddle(rs, rs[i].id),
        riddle_index(rs, rs[i].id) == i,
{
    let id = rs[i].id;
    assert(has_riddle(rs, id));
    let j = riddle_index(rs, id);
    if j < i {
        assert(rs[j].id != rs[i].id);
    } else if i < j {
        assert(rs[i].id != rs[j].id);
    }
}

/// Every submission keeps the contest's invariant, so it holds in every
/// state that submissions reach.
pub proof fn lemma_submit_keeps_invariant(v: ContestView, user: i64, riddle: i64, answer: Seq<char>, now: i64)
    requires
        contest_wf(v),
    ensures
        contest_wf(submit_spec(v, user, riddle, answer, now).0),
{
    let w = effective_window(v.window, now);
    let v1 = ContestView { window: Some(w), ..v };
    assert(contest_wf(v1));
    if status_at(w, now) == WindowStatus::Active && is_valid_answer(answer) && has_riddle(v.riddles, riddle)
        && !has_attempt(v.attempts, user, riddle) && !ledger_full(v.attempts) {
        let i = riddle_index(v.riddles, riddle);
        let correct = answers_match_spec(answer, v.riddles[i].answer@);
        lemma_append_attempt(v1, user, riddle, correct, now);
        let v2 = ContestView { attempts: v.attempts.push(new_row(v.attempts, user, riddle, correct, now)), ..v1 };
        if correct && !v.riddles[i].is_solved {
            let k = v.attempts.len() as int;
            assert(v2.attempts[k].user_id == user && v2.attempts[k].riddle_id == riddle && v2.attempts[k].is_solved);
            assert(has_correct_attempt(v2.attempts, user, v.riddles[i].id));
            lemma_win_transition(v2, i, user);
        }
    }
}

/// A solved riddle has exactly one winner: its winner is set, one attempt
/// row records that winner's correct answer to it, and no second row does.
pub proof fn lemma_one_winner_per_riddle(v: ContestView, i: int)
    requires
        contest_wf(v),
        0 <= i < v.riddles.len(),
        v.riddles[i].is_solved,
    ensures
        v.riddles[i].solver_id is Some,
        exists|k: int| is_winning_row(v, i, k),
        forall|k1: int, k2: int| is_winning_row(v, i, k1) && is_winning_row(v, i, k2) ==> k1 == k2,
{
    let u = v.riddles[i].solver_id->Some_0;
    let k = choose|k: int|
        0 <= k < v.attempts.len() && #[trigger] v.attempts[k].user_id == u && v.attempts[k].riddle_id == v.riddles[i].id
            && v.attempts[k].is_solved;
    assert(is_winning_row(v, i, k));
    assert forall|k1: int, k2: int| is_winning_row(v, i, k1) && is_winning_row(v, i, k2) implies k1 == k2 by {
        if k1 < k2 {
            assert(v.attempts[k1].user_id == v.attempts[k2].user_id);
        } else if k2 < k1 {
            assert(v.attempts[k2].user_id == v.attempts[k1].user_id);
        }
    }
}

/// A pair has at most one attempt, and a second submission for it, inside
/// the window and with an answer that is not blank, is `AlreadyAttempted`
/// whatever it says, and writes nothing.
pub proof fn lemma_second_submission_is_duplicate(
    v: ContestView,
    user: i64,
    riddle: i64,
    answer: Seq<char>,
    now: i64,
)
    requires
        contest_wf(v),
        has_attempt(v.attempts, user, riddle),
        status_at(effective_window(v.window, now), now) == WindowStatus::Active,
        is_valid_answer(answer),
    ensures
        forall|k1: int, k2: int|
            #[trigger] is_attempt_of(v, k1, user, riddle) && #[trigger] is_attempt_of(v, k2, user, riddle) ==> k1 == k2,
        submit_spec(v, user, riddle, answer, now).1 == Ok::<Outcome, SubmitError>(Outcome::AlreadyAttempted),
        submit_spec(v, user, riddle, answer, now).0.attempts == v.attempts,
        submit_spec(v, user, riddle, answer, now).0.riddles == v.riddles,
{
    let k = choose|k: int| 0 <= k < v.attempts.len() && #[trigger] v.attempts[k].user_id == user && v.attempts[k].riddle_id == riddle;
    assert(has_riddle(v.riddles, v.attempts[k].riddle_id));
    assert forall|k1: int, k2: int|
        #[trigger] is_attempt_of(v, k1, user, riddle) && #[trigger] is_attempt_of(v, k2, user, riddle) implies k1 == k2 by {
        if k1 < k2 {
            assert(v.attempts[k1].user_id == v.attempts[k2].user_id);
        } else if k2 < k1 {
            assert(v.attempts[k2].user_id == v.attempts[k1].user_id);
        }
    }
}

/// Retrying a submission that is already recorded never changes any
/// riddle's solved state or winner, nor the ledger.
pub proof fn lemma_retry_keeps_winner(v: ContestView, user: i64, riddle: i64, answer: Seq<char>, now: i64)
    requires
        contest_wf(v),
        has_attempt(v.attempts, user, riddle),
    ensures
        submit_spec(v, user, riddle, answer, now).0.riddles == v.riddles,
        submit_spec(v, user, riddle, answer, now).0.attempts == v.attempts,
{
}

/// A riddle's winner is written once: whatever is submitted, a riddle that
/// is solved stays solved by the same winner, and riddles are neither added
/// nor removed.
pub proof fn lemma_winner_written_once(v: ContestView, user: i64, riddle: i64, answer: Seq<char>, now: i64)
    requires
        contest_wf(v),
    ensures
        submit_spec(v, user, riddle, answer, now).0.riddles.len() == v.riddles.len(),
        forall|i: int|
            0 <= i < v.riddles.len() && #[trigger] v.riddles[i].is_solved
                ==> submit_spec(v, user, riddle, answer, now).0.riddles[i] == v.riddles[i],
{
}

/// A submission outside `[start, end)` of the configured window is
/// `ContestNotActive` whatever its answer, and changes nothing.
pub proof fn lemma_outside_window_not_active(
    v: ContestView,
    w: ActivityWindow,
    user: i64,
    riddle: i64,
    answer: Seq<char>,
    now: i64,
)
    requires
        v.window == Some(w),
        !(w.start <= now < w.end),
    ensures
        submit_spec(v, user, riddle, answer, now).1 == Ok::<Outcome, SubmitError>(Outcome::ContestNotActive),
        submit_spec(v, user, riddle, answer, now).0 == v,
{
    assert(submit_spec(v, user, riddle, answer, now).0 =~= v);
}

/// The state and the results after `users[k]` submits `answers[k]` for
/// `riddle`, one after another, all at the moment `now`.
pub open spec fn submit_in_turn(
    v: ContestView,
    users: Seq<i64>,
    answers: Seq<Seq<char>>,
    riddle: i64,
    now: i64,
) -> (ContestView, Seq<Result<Outcome, SubmitError>>)
    decreases users.len(),
{
    if users.len() == 0 || answers.len() == 0 {
        (v, Seq::empty())
    } else {
        let first = submit_spec(v, users[0], riddle, answers[0], now);
        let rest = submit_in_turn(first.0, users.drop_first(), answers.drop_first(), riddle, now);
        (rest.0, seq![first.1] + rest.1)
    }
}

/// Distinct users, none of whom has tried `riddle`, each with a correct
/// answer to it, at a moment inside the window, with room in the ledger.
pub open spec fn race_ready(
    v: ContestView,
    users: Seq<i64>,
    answers: Seq<Seq<char>>,
    riddle: i64,
    now: i64,
) -> bool {
    &&& contest_wf(v)
    &&& has_riddle(v.riddles, riddle)
    &&& status_at(effective_window(v.window, now), now) == WindowStatus::Active
    &&& answers.len() == users.len()
    &&& forall|k: int| 0 <= k < answers.len() ==> is_valid_answer(#[trigger] answers[k])
        && answers_match_spec(answers[k], v.riddles[riddle_index(v.riddles, riddle)].answer@)
    &&& forall|a: int, b: int| 0 <= a < b < users.len() ==> #[trigger] users[a] != #[trigger] users[b]
    &&& forall|k: int| 0 <= k < users.len() ==> !has_attempt(v.attempts, #[trigger] users[k], riddle)
    &&& v.attempts.len() + users.len() <= i64::MAX
}

/// One submission of a race: its result, and that the rest of the race is
/// still ready, with the riddle solved from then on.
proof fn lemma_race_step(v: ContestView, users: Seq<i64>, answers: Seq<Seq<char>>, riddle: i64, now: i64)
    requires
        race_ready(v, users, answers, riddle, now),
        users.len() > 0,
    ensures
        ({
            let i = riddle_index(v.riddles, riddle);
            let first = submit_spec(v, users[0], riddle, answers[0], now);
            &&& first.1 == if v.riddles[i].is_solved {
                Ok::<Outcome, SubmitError>(Outcome::LostRace)
            } else {
                Ok::<Outcome, SubmitError>(Outcome::Win)
            }
            &&& race_ready(first.0, users.drop_first(), answers.drop_first(), riddle, now)
            &&& riddle_index(first.0.riddles, riddle) == i
            &&& first.0.riddles[i].is_solved
        }),
{
    let i = riddle_index(v.riddles, riddle);
    let w = effective_window(v.window, now);
    let user = users[0];
    assert(is_valid_answer(answers[0]));
    assert(!has_attempt(v.attempts, users[0], riddle));
    let first = submit_spec(v, user, riddle, answers[0], now);
    let v1 = first.0;
    lemma_submit_keeps_invariant(v, user, riddle, answers[0], now);
    assert(v1.riddles[i].id == riddle && v1.riddles[i].answer == v.riddles[i].answer);
    assert(v1.riddles.len() == v.riddles.len());
    lemma_riddle_index_unique(v1.riddles, i);
    assert(v1.window == Some(w));
    assert(v1.attempts == v.attempts.push(new_row(v.attempts, user, riddle, true, now)));
    let us = users.drop_first();
    let ans = answers.drop_first();
    assert forall|k: int| 0 <= k < ans.len() implies is_valid_answer(#[trigger] ans[k])
        && answers_match_spec(ans[k], v1.riddles[riddle_index(v1.riddles, riddle)].answer@) by {
        assert(ans[k] == answers[k + 1]);
    }
    assert forall|a: int, b: int| 0 <= a < b < us.len() implies #[trigger] us[a] != #[trigger] us[b] by {
        assert(users[a + 1] != users[b + 1]);
    }
    assert forall|k: int| 0 <= k < us.len() implies !has_attempt(v1.attempts, #[trigger] us[k], riddle) by {
        assert(us[k] == users[k + 1]);
        assert(users[0] != users[k + 1]);
        assert(!has_attempt(v.attempts, users[k + 1], riddle));
        if has_attempt(v1.attempts, us[k], riddle) {
            let j = choose|j: int| 0 <= j < v1.attempts.len() && #[trigger] v1.attempts[j].user_id == us[k]
                && v1.attempts[j].riddle_id == riddle;
            if j < v.attempts.len() {
                assert(v1.attempts[j] == v.attempts[j]);
            }
        }
    }
}

/// The results of a race after the riddle is solved: every one is `LostRace`.
proof fn lemma_race_after_win(v: ContestView, users: Seq<i64>, answers: Seq<Seq<char>>, riddle: i64, now: i64)
    requires
        race_ready(v, users, answers, riddle, now),
        v.riddles[riddle_index(v.riddles, riddle)].is_solved,
    ensures
        submit_in_turn(v, users, answers, riddle, now).1.len() == users.len(),
        forall|k: int| 0 <= k < users.len() ==> #[trigger] submit_in_turn(v, users, answers, riddle, now).1[k]
            == Ok::<Outcome, SubmitError>(Outcome::LostRace),
    decreases users.len(),
{
    if users.len() > 0 {
        lemma_race_step(v, users, answers, riddle, now);
        let first = submit_spec(v, users[0], riddle, answers[0], now);
        lemma_race_after_win(first.0, users.drop_first(), answers.drop_first(), riddle, now);
        let rest = submit_in_turn(first.0, users.drop_first(), answers.drop_first(), riddle, now);
        let all = submit_in_turn(v, users, answers, riddle, now);
        assert(all.1 == seq![first.1] + rest.1);
        assert forall|k: int| 0 <= k < users.len() implies #[trigger] all.1[k]
            == Ok::<Outcome, SubmitError>(Outcome::LostRace) by {
            if k > 0 {
                assert(all.1[k] == rest.1[k - 1]);
            }
        }
    }
}

/// Correct submissions for a riddle that nobody has solved, from distinct
/// users who have not tried it, at the same moment inside the window: taken
/// in any order, exactly one (the first) is `Win` and all the others are
/// `LostRace`.
pub proof fn lemma_one_winner_among_simultaneous(
    v: ContestView,
    users: Seq<i64>,
    answers: Seq<Seq<char>>,
    riddle: i64,
    now: i64,
)
    requires
        race_ready(v, users, answers, riddle, now),
        !v.riddles[riddle_index(v.riddles, riddle)].is_solved,
        users.len() > 0,
    ensures
        submit_in_turn(v, users, answers, riddle, now).1.len() == users.len(),
        submit_in_turn(v, users, answers, riddle, now).1[0] == Ok::<Outcome, SubmitError>(Outcome::Win),
        forall|k: int| 1 <= k < users.len() ==> #[trigger] submit_in_turn(v, users, answers, riddle, now).1[k]
            == Ok::<Outcome, SubmitError>(Outcome::LostRace),
{
    lemma_race_step(v, users, answers, riddle, now);
    let first = submit_spec(v, users[0], riddle, answers[0], now);
    lemma_race_after_win(first.0, users.drop_first(), answers.drop_first(), riddle, now);
    let rest = submit_in_turn(first.0, users.drop_first(), answers.drop_first(), riddle, now);
    let all = submit_in_turn(v, users, answers, riddle, now);
    assert(all.1 == seq![first.1] + rest.1);
    assert forall|k: int| 1 <= k < users.len() implies #[trigger] all.1[k]
        == Ok::<Outcome, SubmitError>(Outcome::LostRace) by {
        assert(all.1[k] == rest.1[k - 1]);
    }
}

/// After a riddle is solved, every further conditional transition of it
/// fails and changes nothing.
proof fn lemma_transitions_after_solved(rs: Seq<crate::models::Riddle>, id: i64, users: Seq<i64>)
    requires
        ids_unique(rs),
        has_riddle(rs, id),
        rs[riddle_index(rs, id)].is_solved,
    ensures
        transitions_in_turn(rs, id, users).len() == users.len(),
        forall|k: int| 0 <= k < users.len() ==> !#[trigger] transitions_in_turn(rs, id, users)[k],
    decreases users.len(),
{
    if users.len() > 0 {
        lemma_transitions_after_solved(rs, id, users.drop_first());
        let all = transitions_in_turn(rs, id, users);
        let rest = transitions_in_turn(rs, id, users.drop_first());
        assert(all == seq![false] + rest);
        assert forall|k: int| 0 <= k < users.len() implies !#[trigger] all[k] by {
            if k > 0 {
                assert(all[k] == rest[k - 1]);
            }
        }
    }
}

/// The conditional transition orders concurrent winners: whatever the order
/// in which the transitions of any number of correct submissions for an
/// unsolved riddle reach the store, the first one matches and every later
/// one does not, so exactly one submission is `Win`.
pub proof fn lemma_first_transition_wins(rs: Seq<crate::models::Riddle>, id: i64, users: Seq<i64>)
    requires
        ids_unique(rs),
        has_riddle(rs, id),
        !rs[riddle_index(rs, id)].is_solved,
        users.len() > 0,
    ensures
        transitions_in_turn(rs, id, users).len() == users.len(),
        transitions_in_turn(rs, id, users)[0],
        forall|k: int| 1 <= k < users.len() ==> !#[trigger] transitions_in_turn(rs, id, users)[k],
{
    let i = riddle_index(rs, id);
    let first = transition_spec(rs, id, users[0]);
    let rs1 = first.0;
    assert(rs1[i].id == id && rs1[i].is_solved);
    assert forall|a: int, b: int| 0 <= a < b < rs1.len() implies #[trigger] rs1[a].id != #[trigger] rs1[b].id by {
        assert(rs[a].id != rs[b].id);
    }
    lemma_riddle_index_unique(rs1, i);
    lemma_transitions_after_solved(rs1, id, users.drop_first());
    let all = transitions_in_turn(rs, id, users);
    let rest = transitions_in_turn(rs1, id, users.drop_first());
    assert(all == seq![true] + rest);
    assert forall|k: int| 1 <= k < users.len() implies !#[trigger] all[k] by {
        assert(all[k] == rest[k - 1]);
    }
}

/// Where one of several concurrent submissions stands.
pub enum Stage {
    /// Its reservation has not reached the store.
    Waiting,
    /// Its slot is reserved; its conditional transition has not reached the
    /// store.
    Reserved,
    /// It is decided.
    Done(Result<Outcome, SubmitError>),
}

/// The store and the stages of concurrent submissions.
pub struct RaceState {
    pub riddles: Seq<crate::models::Riddle>,
    pub attempts: Seq<GuessRecord>,
    pub stages: Seq<Stage>,
}

/// The next store operation of submission `k` (a correct answer of
/// `users[k]` for `riddle`): its reservation, decided as the engine decides
/// it, and then its conditional transition.
pub open spec fn race_step(st: RaceState, users: Seq<i64>, riddle: i64, now: i64, k: int) -> RaceState {
    if !(0 <= k < st.stages.len()) {
        st
    } else {
        match st.stages[k] {
            Stage::Waiting => {
                let recorded = if has_attempt(st.attempts, users[k], riddle) {
                    RecordResult::Duplicate
                } else if ledger_full(st.attempts) {
                    RecordResult::Failed
                } else {
                    RecordResult::Accepted
                };
                let attempts = if recorded == RecordResult::Accepted {
                    st.attempts.push(new_row(st.attempts, users[k], riddle, true, now))
                } else {
                    st.attempts
                };
                let stage = match step_after_reservation(recorded, true) {
                    Step::Finish(r) => Stage::Done(r),
                    _ => Stage::Reserved,
                };
                RaceState { attempts, stages: st.stages.update(k, stage), ..st }
            },
            Stage::Reserved => {
                let t = transition_spec(st.riddles, riddle, users[k]);
                RaceState {
                    riddles: t.0,
                    stages: st.stages.update(k, Stage::Done(Ok(outcome_after_transition(t.1)))),
                    ..st
                }
            },
            Stage::Done(_) => st,
        }
    }
}

/// The state after the store operations of `schedule`, in its order: each
/// entry names the submission whose next operation reaches the store.
pub open spec fn race_run(st: RaceState, users: Seq<i64>, riddle: i64, now: i64, schedule: Seq<int>) -> RaceState
    decreases schedule.len(),
{
    if schedule.len() == 0 {
        st
    } else {
        race_run(race_step(st, users, riddle, now, schedule[0]), users, riddle, now, schedule.drop_first())
    }
}

pub open spec fn is_win(s: Stage) -> bool {
    s == Stage::Done(Ok::<Outcome, SubmitError>(Outcome::Win))
}

/// What holds at every point of a race for riddle `riddle`, at position `i`.
pub open spec fn race_inv(st: RaceState, users: Seq<i64>, riddle: i64, i: int) -> bool {
    &&& st.stages.len() == users.len()
    &&& ids_unique(st.riddles)
    &&& 0 <= i < st.riddles.len()
    &&& st.riddles[i].id == riddle
    &&& forall|k: int| 0 <= k < users.len() && #[trigger] st.stages[k] == Stage::Waiting
        ==> !has_attempt(st.attempts, users[k], riddle)
    &&& forall|k: int| 0 <= k < users.len() && #[trigger] st.stages[k] is Done ==> (
        st.stages[k] == Stage::Done(Ok::<Outcome, SubmitError>(Outcome::Win))
        || st.stages[k] == Stage::Done(Ok::<Outcome, SubmitError>(Outcome::LostRace))
        || st.stages[k] == Stage::Done(Err::<Outcome, SubmitError>(SubmitError::StorageFailure)))
    &&& forall|k: int| 0 <= k < users.len() && #[trigger] st.stages[k] == Stage::Done(Ok::<Outcome, SubmitError>(Outcome::LostRace))
        ==> st.riddles[i].is_solved
    &&& st.riddles[i].is_solved <==> exists|w: int| 0 <= w < users.len() && #[trigger] is_win(st.stages[w])
    &&& forall|w: int| 0 <= w < users.len() && #[trigger] is_win(st.stages[w]) ==> st.riddles[i].solver_id == Some(users[w])
    &&& forall|a: int, b: int| 0 <= a < users.len() && 0 <= b < users.len() && #[trigger] is_win(st.stages[a])
        && #[trigger] is_win(st.stages[b]) ==> a == b
}

proof fn lemma_race_step_inv(st: RaceState, users: Seq<i64>, riddle: i64, now: i64, i: int, k: int)
    requires
        race_inv(st, users, riddle, i),
        forall|a: int, b: int| 0 <= a < b < users.len() ==> #[trigger] users[a] != #[trigger] users[b],
    ensures
        race_inv(race_step(st, users, riddle, now, k), users, riddle, i),
{
    if 0 <= k < st.stages.len() {
        let next = race_step(st, users, riddle, now, k);
        match st.stages[k] {
            Stage::Waiting => {
                assert(!has_attempt(st.attempts, users[k], riddle));
                assert forall|j: int| 0 <= j < users.len() && #[trigger] next.stages[j] == Stage::Waiting
                    implies !has_attempt(next.attempts, users[j], riddle) by {
                    assert(j != k);
                    assert(st.stages[j] == next.stages[j]);
                    assert(users[j] != users[k]) by {
                        if j < k {
                            assert(users[j] != users[k]);
                        } else {
                            assert(users[k] != users[j]);
                        }
                    }
                    if has_attempt(next.attempts, users[j], riddle) {
                        let q = choose|q: int| 0 <= q < next.attempts.len() && #[trigger] next.attempts[q].user_id == users[j]
                            && next.attempts[q].riddle_id == riddle;
                        if q < st.attempts.len() {
                            assert(next.attempts[q] == st.attempts[q]);
                        }
                    }
                }
                assert forall|w: int| 0 <= w < users.len() && #[trigger] is_win(next.stages[w]) implies is_win(st.stages[w]) by {
                    if w == k {
                        assert(!is_win(next.stages[w]));
                    }
                }
                assert forall|w: int| 0 <= w < users.len() && #[trigger] is_win(st.stages[w]) implies is_win(next.stages[w]) by {
                    assert(w != k);
                }
            },
            Stage::Reserved => {
                lemma_riddle_index_unique(st.riddles, i);
                let t = transition_spec(st.riddles, riddle, users[k]);
                if !st.riddles[i].is_solved {
                    assert forall|a: int, b: int| 0 <= a < b < t.0.len() implies #[trigger] t.0[a].id != #[trigger] t.0[b].id by {
                        assert(st.riddles[a].id != st.riddles[b].id);
                    }
                    assert(is_win(next.stages[k]));
                    assert forall|w: int| 0 <= w < users.len() && #[trigger] is_win(next.stages[w]) implies w == k by {
                        if w != k {
                            assert(is_win(st.stages[w]));
                        }
                    }
                } else {
                    assert(!is_win(next.stages[k]));
                    assert forall|w: int| 0 <= w < users.len() && #[trigger] is_win(next.stages[w]) implies is_win(st.stages[w]) by {
                        assert(w != k);
                    }
                    assert forall|w: int| 0 <= w < users.len() && #[trigger] is_win(st.stages[w]) implies is_win(next.stages[w]) by {
                        assert(w != k);
                    }
                }
            },
            Stage::Done(_) => {},
        }
    }
}

proof fn lemma_race_run_inv(st: RaceState, users: Seq<i64>, riddle: i64, now: i64, i: int, schedule: Seq<int>)
    requires
        race_inv(st, users, riddle, i),
        forall|a: int, b: int| 0 <= a < b < users.len() ==> #[trigger] users[a] != #[trigger] users[b],
    ensures
        race_inv(race_run(st, users, riddle, now, schedule), users, riddle, i),
    decreases schedule.len(),
{
    if schedule.len() > 0 {
        lemma_race_step_inv(st, users, riddle, now, i, schedule[0]);
        lemma_race_run_inv(race_step(st, users, riddle, now, schedule[0]), users, riddle, now, i, schedule.drop_first());
    }
}

/// Concurrent correct submissions for a riddle that nobody has solved, from
/// distinct users who have not tried it: whatever the order in which their
/// reservations and conditional transitions reach the store, once every one
/// is decided without a storage failure, exactly one is `Win`, every other
/// is `LostRace`, and the riddle's winner is the winning user.
pub proof fn lemma_concurrent_submissions_one_winner(
    riddles: Seq<crate::models::Riddle>,
    attempts: Seq<GuessRecord>,
    users: Seq<i64>,
    riddle: i64,
    now: i64,
    schedule: Seq<int>,
)
    requires
        ids_unique(riddles),
        has_riddle(riddles, riddle),
        !riddles[riddle_index(riddles, riddle)].is_solved,
        users.len() > 0,
        forall|a: int, b: int| 0 <= a < b < users.len() ==> #[trigger] users[a] != #[trigger] users[b],
        forall|k: int| 0 <= k < users.len() ==> !has_attempt(attempts, #[trigger] users[k], riddle),
        ({
            let fin = race_run(
                RaceState { riddles, attempts, stages: Seq::new(users.len(), |k: int| Stage::Waiting) },
                users,
                riddle,
                now,
                schedule,
            );
            forall|k: int| 0 <= k < users.len() ==> (#[trigger] fin.stages[k] is Done && fin.stages[k]->Done_0 is Ok)
        }),
    ensures
        ({
            let fin = race_run(
                RaceState { riddles, attempts, stages: Seq::new(users.len(), |k: int| Stage::Waiting) },
                users,
                riddle,
                now,
                schedule,
            );
            exists|w: int| 0 <= w < users.len() && #[trigger] is_win(fin.stages[w])
                && fin.riddles[riddle_index(riddles, riddle)].solver_id == Some(users[w])
                && forall|k: int| 0 <= k < users.len() && k != w ==> #[trigger] fin.stages[k]
                    == Stage::Done(Ok::<Outcome, SubmitError>(Outcome::LostRace))
        }),
{
    let i = riddle_index(riddles, riddle);
    let st0 = RaceState { riddles, attempts, stages: Seq::new(users.len(), |k: int| Stage::Waiting) };
    assert(riddles[i].id == riddle);
    assert forall|w: int| 0 <= w < users.len() implies !#[trigger] is_win(st0.stages[w]) by {}
    lemma_race_run_inv(st0, users, riddle, now, i, schedule);
    let fin = race_run(st0, users, riddle, now, schedule);
    // Some submission lost or won; a loss means the riddle was solved, so a win exists.
    assert(fin.stages[0] is Done && fin.stages[0]->Done_0 is Ok);
    if !fin.riddles[i].is_solved {
        assert(!is_win(fin.stages[0]));
        assert(fin.stages[0] == Stage::Done(Ok::<Outcome, SubmitError>(Outcome::LostRace)));
    }
    assert(fin.riddles[i].is_solved);
    let w = choose|w: int| 0 <= w < users.len() && #[trigger] is_win(fin.stages[w]);
    assert forall|k: int| 0 <= k < users.len() && k != w implies #[trigger] fin.stages[k]
        == Stage::Done(Ok::<Outcome, SubmitError>(Outcome::LostRace)) by {
        assert(fin.stages[k] is Done && fin.stages[k]->Done_0 is Ok);
        if is_win(fin.stages[k]) {
            assert(k == w);
        }
    }
}

} // verus!
