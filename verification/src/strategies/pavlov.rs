//! Pavlov (Win-Stay, Lose-Shift): cooperates after a round in which both
//! players made the same move, defects otherwise.

use vstd::prelude::*;
use rand_chacha::ChaCha8Rng;

use crate::action::Action;
use crate::strategy::Strategy;

verus! {

pub open spec fn pavlov_move(my_history: Seq<Action>, opponent_history: Seq<Action>) -> Action {
    if my_history.len() == 0 || opponent_history.len() == 0 {
        Action::Cooperate
    } else if my_history.last() == opponent_history.last() {
        Action::Cooperate
    } else {
        Action::Defect
    }
}

#[derive(Clone, Copy, Default)]
pub struct Pavlov;

impl Strategy for Pavlov {
    open spec fn spec_name(&self) -> Seq<char> {
        "Pavlov (Win-Stay, Lose-Shift)"@
    }

    open spec fn names_itself(&self) -> bool {
        true
    }

    open spec fn allows(&self, my_history: Seq<Action>, opponent_history: Seq<Action>, r: Action) -> bool {
        &&& (r == pavlov_move(my_history, opponent_history))
    }

    fn name(&self) -> (r: &str)
        ensures
            r@ == "Pavlov (Win-Stay, Lose-Shift)"@,
    {
        "Pavlov (Win-Stay, Lose-Shift)"
    }

    fn next_move(&self, my_history: &[Action], opponent_history: &[Action], _rng: &mut ChaCha8Rng) -> (r: Action)
        ensures
            r == pavlov_move(my_history@, opponent_history@),
    {
        if my_history.len() == 0 || opponent_history.len() == 0 {
            Action::Cooperate
        } else if my_history[my_history.len() - 1] == opponent_history[opponent_history.len() - 1] {
            Action::Cooperate
        } else {
            Action::Defect
        }
    }
}

} // verus!
