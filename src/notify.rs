//! The event that announces a win to the observers connected at the time.
use vstd::prelude::*;
use crate::models::User;

verus! {

/// A riddle was solved: by whom, with the winner's display fields.
#[derive(Clone, Debug)]
pub struct RiddleSolved {
    pub riddle_id: i64,
    pub solver_name: String,
    pub solver_avatar: Option<String>,
}

/// The announcement of `winner`'s win of `riddle_id`.
pub fn riddle_solved_event(riddle_id: i64, winner: &User) -> (r: RiddleSolved)
    ensures
        r.riddle_id == riddle_id,
        r.solver_name@ == winner.username@,
        r.solver_avatar == match winner.avatar { Some(a) => Some(a), None => None::<String> },
{
    let avatar = match &winner.avatar {
        Some(a) => Some(a.clone()),
        None => None,
    };
    RiddleSolved { riddle_id, solver_name: winner.username.clone(), solver_avatar: avatar }
}

} // verus!
