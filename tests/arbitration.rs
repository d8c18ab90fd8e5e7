use lantern_riddle::engine::{
    decide_after_reservation, decide_after_transition, decide_before_reservation, ContestStore,
    Outcome, Step, SubmitError,
};
use lantern_riddle::ledger::{AttemptLedger, RecordResult};
use lantern_riddle::models::Riddle;
use lantern_riddle::riddle_store::RiddleStore;
use lantern_riddle::window::{window_verdict, ActivityWindow, WindowStatus, DEFAULT_WINDOW_SECONDS};

fn riddle(id: i64, answer: &str) -> Riddle {
    Riddle::unsolved(id, format!("question {}", id), answer.to_string(), "[]".to_string())
}

fn contest(start: i64, end: i64) -> ContestStore {
    let mut c = ContestStore::new();
    c.set_window(ActivityWindow::new(start, end));
    assert!(c.add_riddle(riddle(1, "lantern")));
    assert!(c.add_riddle(riddle(2, "moon")));
    c
}

#[test]
fn first_correct_answer_wins_then_late_one_loses() {
    let mut c = contest(0, 1000);
    assert_eq!(c.submit_answer(1, 1, "Lantern ", 10), Ok(Outcome::Win));
    assert_eq!(c.submit_answer(2, 1, "lantern", 11), Ok(Outcome::LostRace));
    let r = c.riddle(1).unwrap();
    assert!(r.is_solved);
    assert_eq!(r.solver_id, Some(1));
}

#[test]
fn wrong_answer_then_any_retry_is_already_attempted() {
    let mut c = contest(0, 1000);
    assert_eq!(c.submit_answer(1, 2, "x", 10), Ok(Outcome::WrongAnswer));
    assert_eq!(c.submit_answer(1, 2, "moon", 11), Ok(Outcome::AlreadyAttempted));
    assert_eq!(c.submit_answer(1, 2, "x", 12), Ok(Outcome::AlreadyAttempted));
    assert!(!c.riddle(2).unwrap().is_solved);
}

#[test]
fn submission_at_window_end_is_not_active() {
    let t0 = 100;
    let t1 = 200;
    let mut c = contest(t0, t1);
    assert_eq!(c.submit_answer(1, 1, "lantern", t1), Ok(Outcome::ContestNotActive));
    assert_eq!(c.submit_answer(1, 1, "lantern", t0 - 1), Ok(Outcome::ContestNotActive));
    assert_eq!(c.submit_answer(1, 1, "lantern", t1 + 5), Ok(Outcome::ContestNotActive));
    assert!(c.attempts_for_user(1).is_empty());
    assert_eq!(c.submit_answer(1, 1, "lantern", t0), Ok(Outcome::Win));
}

#[test]
fn outside_window_correct_answer_changes_nothing() {
    let mut c = contest(100, 200);
    assert_eq!(c.submit_answer(3, 1, "lantern", 50), Ok(Outcome::ContestNotActive));
    assert!(!c.riddle(1).unwrap().is_solved);
    assert_eq!(c.submit_answer(3, 1, "lantern", 150), Ok(Outcome::Win));
}

#[test]
fn simultaneous_correct_answers_have_one_winner() {
    let mut c = contest(0, 1000);
    let outcomes: Vec<_> = (10..15).map(|u| c.submit_answer(u, 1, "LANTERN", 500)).collect();
    assert_eq!(outcomes[0], Ok(Outcome::Win));
    for o in &outcomes[1..] {
        assert_eq!(*o, Ok(Outcome::LostRace));
    }
    assert_eq!(c.riddle(1).unwrap().solver_id, Some(10));
}

#[test]
fn retry_after_win_keeps_winner() {
    let mut c = contest(0, 1000);
    assert_eq!(c.submit_answer(7, 1, "lantern", 1), Ok(Outcome::Win));
    assert_eq!(c.submit_answer(7, 1, "lantern", 2), Ok(Outcome::AlreadyAttempted));
    assert_eq!(c.submit_answer(8, 1, "lantern", 3), Ok(Outcome::LostRace));
    assert_eq!(c.submit_answer(8, 1, "lantern", 4), Ok(Outcome::AlreadyAttempted));
    assert_eq!(c.riddle(1).unwrap().solver_id, Some(7));
}

#[test]
fn solved_riddle_has_one_winning_row() {
    let mut c = contest(0, 1000);
    for u in 1..6 {
        let _ = c.submit_answer(u, 1, "lantern", 10 + u);
    }
    let winner = c.riddle(1).unwrap().solver_id.unwrap();
    let mut winning = 0;
    for u in 1..6 {
        for row in c.attempts_for_user(u) {
            if row.riddle_id == 1 && row.is_solved && row.user_id == winner {
                winning += 1;
            }
        }
    }
    assert_eq!(winning, 1);
}

#[test]
fn blank_answer_is_invalid_input() {
    let mut c = contest(0, 1000);
    assert_eq!(c.submit_answer(1, 1, "   ", 10), Err(SubmitError::InvalidInput));
    assert_eq!(c.submit_answer(1, 1, "", 10), Err(SubmitError::InvalidInput));
    assert!(c.attempts_for_user(1).is_empty());
}

#[test]
fn unknown_riddle_is_not_found() {
    let mut c = contest(0, 1000);
    assert_eq!(c.submit_answer(1, 99, "lantern", 10), Err(SubmitError::RiddleNotFound));
    assert!(c.attempts_for_user(1).is_empty());
}

#[test]
fn missing_window_is_replaced_by_default() {
    let mut c = ContestStore::new();
    assert!(c.add_riddle(riddle(1, "lantern")));
    assert_eq!(c.window(), None);
    assert_eq!(c.submit_answer(1, 1, "lantern", 1000), Ok(Outcome::Win));
    assert_eq!(c.window(), Some(ActivityWindow::new(1000, 1000 + DEFAULT_WINDOW_SECONDS)));
}

#[test]
fn attempts_listed_newest_first() {
    let mut c = contest(0, 1000);
    assert_eq!(c.submit_answer(1, 2, "x", 10), Ok(Outcome::WrongAnswer));
    assert_eq!(c.submit_answer(2, 1, "y", 11), Ok(Outcome::WrongAnswer));
    assert_eq!(c.submit_answer(1, 1, "lantern", 12), Ok(Outcome::Win));
    let rows = c.attempts_for_user(1);
    assert_eq!(rows.len(), 2);
    assert_eq!(rows[0].riddle_id, 1);
    assert!(rows[0].is_solved);
    assert_eq!(rows[0].solve_time, Some(12));
    assert_eq!(rows[0].id, 3);
    assert_eq!(rows[1].riddle_id, 2);
    assert!(!rows[1].is_solved);
    assert_eq!(rows[1].id, 1);
}

#[test]
fn riddle_ids_are_unique_and_authored_unsolved() {
    let mut c = contest(0, 10);
    assert!(!c.add_riddle(riddle(1, "other")));
    let mut solved = riddle(3, "sun");
    solved.is_solved = true;
    solved.solver_id = Some(4);
    assert!(!c.add_riddle(solved));
    assert!(c.riddle(3).is_none());
}

#[test]
fn ledger_rejects_second_row_for_pair() {
    let mut l = AttemptLedger::new();
    assert_eq!(l.record_attempt(1, 1, false, 5), RecordResult::Accepted);
    assert_eq!(l.record_attempt(1, 1, true, 6), RecordResult::Duplicate);
    assert_eq!(l.record_attempt(1, 2, true, 7), RecordResult::Accepted);
    assert!(l.has_attempted(1, 1));
    assert!(!l.has_attempted(2, 1));
    assert_eq!(l.len(), 2);
    assert_eq!(l.list_for_user(1)[0].riddle_id, 2);
}

#[test]
fn conditional_transition_applies_once() {
    let mut s = RiddleStore::new();
    assert!(s.add_riddle(riddle(5, "a")));
    assert!(s.mark_solved_if_unsolved(5, 1));
    assert!(!s.mark_solved_if_unsolved(5, 2));
    assert!(!s.mark_solved_if_unsolved(6, 2));
    let i = s.find(5).unwrap();
    assert_eq!(s.get(i).solver_id, Some(1));
}

#[test]
fn window_verdicts() {
    let w = ActivityWindow::new(10, 20);
    assert_eq!(w.status(9), WindowStatus::NotStarted);
    assert_eq!(w.status(10), WindowStatus::Active);
    assert_eq!(w.status(19), WindowStatus::Active);
    assert_eq!(w.status(20), WindowStatus::Ended);
    assert!(w.contains(15));
    assert!(!w.contains(20));
    assert_eq!(window_verdict(Some(w), 25), (w, WindowStatus::Ended));
    assert_eq!(window_verdict(None, 5), (ActivityWindow::new(5, 5 + 86400), WindowStatus::Active));
    assert_eq!(ActivityWindow::default_at(i64::MAX - 10).end, i64::MAX);
}

#[test]
fn decision_steps() {
    assert!(matches!(
        decide_before_reservation(WindowStatus::Ended, "a", Some("a")),
        Step::Finish(Ok(Outcome::ContestNotActive))
    ));
    assert!(matches!(
        decide_before_reservation(WindowStatus::Active, " ", Some("a")),
        Step::Finish(Err(SubmitError::InvalidInput))
    ));
    assert!(matches!(
        decide_before_reservation(WindowStatus::Active, "a", None),
        Step::Finish(Err(SubmitError::RiddleNotFound))
    ));
    assert!(matches!(
        decide_before_reservation(WindowStatus::Active, " A", Some("a")),
        Step::Reserve { correct: true }
    ));
    assert!(matches!(
        decide_before_reservation(WindowStatus::Active, "b", Some("a")),
        Step::Reserve { correct: false }
    ));
    assert!(matches!(
        decide_after_reservation(RecordResult::Duplicate, true),
        Step::Finish(Ok(Outcome::AlreadyAttempted))
    ));
    assert!(matches!(
        decide_after_reservation(RecordResult::Failed, true),
        Step::Finish(Err(SubmitError::StorageFailure))
    ));
    assert!(matches!(
        decide_after_reservation(RecordResult::Accepted, false),
        Step::Finish(Ok(Outcome::WrongAnswer))
    ));
    assert!(matches!(decide_after_reservation(RecordResult::Accepted, true), Step::Transition));
    assert_eq!(decide_after_transition(true), Outcome::Win);
    assert_eq!(decide_after_transition(false), Outcome::LostRace);
}

#[test]
fn recorded_times_never_go_back() {
    let mut c = contest(0, 1000);
    assert_eq!(c.submit_answer(1, 2, "x", 50), Ok(Outcome::WrongAnswer));
    assert_eq!(c.submit_answer(1, 1, "lantern", 40), Ok(Outcome::Win));
    let rows = c.attempts_for_user(1);
    assert_eq!(rows[0].riddle_id, 1);
    assert_eq!(rows[0].solve_time, Some(50));
    assert_eq!(rows[1].solve_time, Some(50));
    assert_eq!(c.winning_rows()[0].solve_time, Some(50));
}
