//! The riddle state store. A riddle's solved state changes in one way only:
//! the conditional transition "mark solved with this winner if still unsolved".
use vstd::prelude::*;
use crate::models::Riddle;

verus! {

/// Whether a riddle with this id is stored.
pub open spec fn has_riddle(rs: Seq<Riddle>, id: i64) -> bool {
    exists|i: int| 0 <= i < rs.len() && #[trigger] rs[i].id == id
}

/// The position of the riddle with this id (meaningful when there is one).
pub open spec fn riddle_index(rs: Seq<Riddle>, id: i64) -> int {
    choose|i: int| 0 <= i < rs.len() && #[trigger] rs[i].id == id
}

/// No two riddles share an id.
pub open spec fn ids_unique(rs: Seq<Riddle>) -> bool {
    forall|i: int, j: int| 0 <= i < j < rs.len() ==> #[trigger] rs[i].id != #[trigger] rs[j].id
}

/// A riddle is solved exactly when it has a winner.
pub open spec fn solved_has_winner(rs: Seq<Riddle>) -> bool {
    forall|i: int| 0 <= i < rs.len() ==> (#[trigger] rs[i].is_solved <==> rs[i].solver_id is Some)
}

/// The riddle after its winning transition.
pub open spec fn solved_by(r: Riddle, user: i64) -> Riddle {
    Riddle { is_solved: true, solver_id: Some(user), ..r }
}

/// The conditional winning transition as a function of the stored riddles:
/// the riddles after it, and whether it matched an unsolved riddle.
pub open spec fn transition_spec(rs: Seq<Riddle>, id: i64, user: i64) -> (Seq<Riddle>, bool) {
    if has_riddle(rs, id) && !rs[riddle_index(rs, id)].is_solved {
        (rs.update(riddle_index(rs, id), solved_by(rs[riddle_index(rs, id)], user)), true)
    } else {
        (rs, false)
    }
}

/// The answers of conditional transitions of riddle `id` made one after
/// another for `users`, in that order.
pub open spec fn transitions_in_turn(rs: Seq<Riddle>, id: i64, users: Seq<i64>) -> Seq<bool>
    decreases users.len(),
{
    if users.len() == 0 {
        Seq::empty()
    } else {
        let first = transition_spec(rs, id, users[0]);
        seq![first.1] + transitions_in_turn(first.0, id, users.drop_first())
    }
}

pub struct RiddleStore {
    riddles: Vec<Riddle>,
}

impl View for RiddleStore {
    type V = Seq<Riddle>;

    closed spec fn view(&self) -> Seq<Riddle> {
        self.riddles@
    }
}

impl RiddleStore {
    pub open spec fn wf(&self) -> bool {
        ids_unique(self@) && solved_has_winner(self@)
    }

    pub fn new() -> (r: RiddleStore)
        ensures
            r.wf(),
            r@ == Seq::<Riddle>::empty(),
    {
        RiddleStore { riddles: Vec::new() }
    }

    /// The position of the riddle with this id, if it is stored.
    pub fn find(&self, id: i64) -> (r: Option<usize>)
        requires
            self.wf(),
        ensures
            r is None <==> !has_riddle(self@, id),
            r matches Some(i) ==> i == riddle_index(self@, id) && i < self@.len() && self@[i as int].id == id,
    {
        let mut i: usize = 0;
        while i < self.riddles.len()
            invariant
                self.wf(),
                0 <= i <= self@.len(),
                forall|k: int| 0 <= k < i ==> #[trigger] self@[k].id != id,
            decreases self@.len() - i,
        {
            if self.riddles[i].id == id {
                proof {
                    let j = riddle_index(self@, id);
                    assert(0 <= j < self@.len() && self@[j].id == id);
                    if j != i {
                        if j < i {
                            assert(self@[j].id != self@[i as int].id);
                        } else {
                            assert(self@[i as int].id != self@[j].id);
                        }
                    }
                }
                return Some(i);
            }
            i += 1;
        }
        None
    }

    /// The riddle at a position.
    pub fn get(&self, i: usize) -> (r: &Riddle)
        requires
            i < self@.len(),
        ensures
            *r == self@[i as int],
    {
        &self.riddles[i]
    }

    /// Adds an authored riddle. It is refused when its id is taken or when it
    /// comes already solved or with a winner.
    pub fn add_riddle(&mut self, riddle: Riddle) -> (r: bool)
        requires
            old(self).wf(),
        ensures
            final(self).wf(),
            r == (!has_riddle(old(self)@, riddle.id) && !riddle.is_solved && riddle.solver_id is None),
            r ==> final(self)@ == old(self)@.push(riddle),
            !r ==> final(self)@ == old(self)@,
    {
        if riddle.is_solved || riddle.solver_id.is_some() {
            return false;
        }
        if self.find(riddle.id).is_some() {
            return false;
        }
        self.riddles.push(riddle);
        true
    }

    /// The winning transition, as one step: when the riddle is stored and
    /// not solved, marks it solved with `user` as its winner and answers
    /// `true`; otherwise changes nothing and answers `false`.
    pub fn mark_solved_if_unsolved(&mut self, id: i64, user: i64) -> (r: bool)
        requires
            old(self).wf(),
        ensures
            final(self).wf(),
            r == (has_riddle(old(self)@, id) && !old(self)@[riddle_index(old(self)@, id)].is_solved),
            r ==> final(self)@ == old(self)@.update(
                riddle_index(old(self)@, id),
                solved_by(old(self)@[riddle_index(old(self)@, id)], user),
            ),
            !r ==> final(self)@ == old(self)@,
            (final(self)@, r) == transition_spec(old(self)@, id, user),
    {
        match self.find(id) {
            None => false,
            Some(i) => {
                if self.riddles[i].is_solved {
                    false
                } else {
                    let mut riddle = self.riddles.remove(i);
                    riddle.is_solved = true;
                    riddle.solver_id = Some(user);
                    self.riddles.insert(i, riddle);
                    proof {
                        let ghost want = old(self)@.update(i as int, solved_by(old(self)@[i as int], user));
                        assert(self@ =~= want);
                    }
                    true
                }
            }
        }
    }
}

} // verus!
