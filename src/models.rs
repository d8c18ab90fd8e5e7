//! The persisted records. Times are seconds on the contest's clock.
use vstd::prelude::*;
use crate::window::ActivityWindow;

verus! {

/// A participant.
#[derive(Clone, Debug)]
pub struct User {
    pub id: i64,
    pub username: String,
    pub avatar: Option<String>,
    pub user_code: Option<String>,
    pub token: Option<String>,
    pub register_time: Option<i64>,
}

/// A riddle: its text, its answer, the candidate options as a JSON array,
/// and its solved state.
#[derive(Clone, Debug)]
pub struct Riddle {
    pub id: i64,
    pub question: String,
    pub remark: Option<String>,
    pub options_json: String,
    pub answer: String,
    pub add_time: Option<i64>,
    pub is_solved: bool,
    pub solver_id: Option<i64>,
}

/// The configured contest.
#[derive(Clone, Debug)]
pub struct Activity {
    pub id: i64,
    pub name: String,
    pub start_time: i64,
    pub end_time: i64,
}

/// One attempt of one user at one riddle: whether it was correct, and when.
#[derive(Clone, Copy, Debug, PartialEq, Eq, Structural)]
pub struct GuessRecord {
    pub id: i64,
    pub user_id: i64,
    pub riddle_id: i64,
    pub solve_time: Option<i64>,
    pub is_solved: bool,
}

/// A riddle with the display fields of its winner.
#[derive(Clone, Debug)]
pub struct RiddleWithSolver {
    pub id: i64,
    pub question: String,
    pub remark: Option<String>,
    pub options_json: String,
    pub answer: String,
    pub add_time: Option<i64>,
    pub is_solved: bool,
    pub solver_id: Option<i64>,
    pub solver_name: Option<String>,
    pub solver_avatar: Option<String>,
}

/// An attempt with the names that a listing shows beside it.
#[derive(Clone, Debug)]
pub struct GuessRecordWithInfo {
    pub id: i64,
    pub user_id: i64,
    pub user_name: Option<String>,
    pub riddle_id: i64,
    pub riddle_question: Option<String>,
    pub riddle_answer: Option<String>,
    pub solve_time: Option<i64>,
    pub is_solved: bool,
}

impl Riddle {
    /// A riddle as authored: not solved, no winner.
    pub fn unsolved(id: i64, question: String, answer: String, options_json: String) -> (r: Riddle)
        ensures
            r.id == id,
            r.question == question,
            r.answer == answer,
            r.options_json == options_json,
            r.remark is None,
            r.add_time is None,
            !r.is_solved,
            r.solver_id is None,
    {
        Riddle {
            id,
            question,
            remark: None,
            options_json,
            answer,
            add_time: None,
            is_solved: false,
            solver_id: None,
        }
    }
}

impl Activity {
    /// The window during which this contest accepts submissions.
    pub fn window(&self) -> (r: ActivityWindow)
        ensures
            r.start == self.start_time,
            r.end == self.end_time,
    {
        ActivityWindow::new(self.start_time, self.end_time)
    }
}

} // verus!
