//! Administrative edits of riddles: creating one, or changing the fields of
//! one that exists.
use vstd::prelude::*;
use crate::import::{json_of_strings, strings_to_json};
use crate::text::same_text;
use crate::models::Riddle;

verus! {

/// A flag as a request carries it: a boolean, a text, or something else.
#[derive(Clone, Debug)]
pub enum FlagValue {
    Bool(bool),
    Text(String),
    Other,
}

/// A flag is raised by `true` or by the text `"true"`.
pub open spec fn flag_raised(f: FlagValue) -> bool {
    match f {
        FlagValue::Bool(b) => b,
        FlagValue::Text(t) => t@ == "true"@,
        FlagValue::Other => false,
    }
}

/// A riddle as an administrator sends it: without an id it is new, with one
/// it changes the given fields of that riddle.
#[derive(Clone, Debug)]
pub struct RiddleUpsertPayload {
    pub id: Option<i64>,
    pub question: Option<String>,
    pub answer: Option<String>,
    pub remark: Option<String>,
    pub options: Option<Vec<String>>,
    pub reset_status: Option<FlagValue>,
}

pub open spec fn string_or(o: Option<String>, d: Seq<char>) -> Seq<char> {
    match o {
        Some(s) => s@,
        None => d,
    }
}

pub open spec fn options_view(o: Option<Vec<String>>) -> Seq<Seq<char>> {
    match o {
        Some(v) => v@.map_values(|s: String| s@),
        None => Seq::empty(),
    }
}

fn text_or(o: &Option<String>, d: &String) -> (r: String)
    ensures
        r@ == string_or(*o, d@),
{
    match o {
        Some(s) => s.clone(),
        None => d.clone(),
    }
}

impl RiddleUpsertPayload {
    /// Whether the edit asks that the riddle be unsolved again.
    pub fn asks_reset(&self) -> (r: bool)
        ensures
            r == match self.reset_status { Some(f) => flag_raised(f), None => false },
    {
        match &self.reset_status {
            Some(FlagValue::Bool(b)) => *b,
            Some(FlagValue::Text(t)) => same_text(t.as_str(), "true"),
            _ => false,
        }
    }

    /// The riddle after this edit: each given field replaces the stored one,
    /// a missing remark stays as stored (empty when none was), and a reset
    /// clears the solved state and the winner.
    pub fn apply_to(&self, existing: &Riddle) -> (r: Riddle)
        ensures
            r.id == existing.id,
            r.question@ == string_or(self.question, existing.question@),
            r.answer@ == string_or(self.answer, existing.answer@),
            r.remark matches Some(m) && m@ == string_or(self.remark, string_or(existing.remark, Seq::empty())),
            r.options_json@ == match self.options {
                Some(v) => json_of_strings(v@.map_values(|s: String| s@)),
                None => existing.options_json@,
            },
            r.add_time == existing.add_time,
            r.is_solved == (existing.is_solved && !(match self.reset_status { Some(f) => flag_raised(f), None => false })),
            r.solver_id == if (match self.reset_status { Some(f) => flag_raised(f), None => false }) {
                None
            } else {
                existing.solver_id
            },
    {
        let empty = String::new();
        let stored_remark = text_or(&existing.remark, &empty);
        let options_json = match &self.options {
            Some(v) => strings_to_json(v),
            None => existing.options_json.clone(),
        };
        let reset = self.asks_reset();
        Riddle {
            id: existing.id,
            question: text_or(&self.question, &existing.question),
            remark: Some(text_or(&self.remark, &stored_remark)),
            options_json,
            answer: text_or(&self.answer, &existing.answer),
            add_time: existing.add_time,
            is_solved: existing.is_solved && !reset,
            solver_id: if reset {
                None
            } else {
                existing.solver_id
            },
        }
    }

    /// The riddle that this payload creates under `id` at `now`: missing
    /// texts are empty, missing options an empty list, and it is unsolved.
    pub fn new_riddle(&self, id: i64, now: i64) -> (r: Riddle)
        ensures
            r.id == id,
            r.question@ == string_or(self.question, Seq::empty()),
            r.answer@ == string_or(self.answer, Seq::empty()),
            r.remark matches Some(m) && m@ == string_or(self.remark, Seq::empty()),
            r.options_json@ == json_of_strings(options_view(self.options)),
            r.add_time == Some(now),
            !r.is_solved,
            r.solver_id is None,
    {
        let empty = String::new();
        let no_options: Vec<String> = Vec::new();
        let options = match &self.options {
            Some(v) => v,
            None => &no_options,
        };
        assert(no_options@.map_values(|s: String| s@) =~= Seq::<Seq<char>>::empty());
        Riddle {
            id,
            question: text_or(&self.question, &empty),
            remark: Some(text_or(&self.remark, &empty)),
            options_json: strings_to_json(options),
            answer: text_or(&self.answer, &empty),
            add_time: Some(now),
            is_solved: false,
            solver_id: None,
        }
    }
}

} // verus!
