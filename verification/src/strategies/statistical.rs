//! Statistical: defects when more than half of the opponent's moves so far
//! were defections.

use vstd::prelude::*;
use rand_chacha::ChaCha8Rng;

use crate::action::Action;
use crate::strategies::history::{count_moves, count_of};
use crate::strategy::Strategy;

verus! {

/// The defection rate exceeds one half: `defections / rounds > 0.5`.
pub open spec fn statistical_move(opponent_history: Seq<Action>) -> Action {
    if opponent_history.len() > 0 && 2 * count_of(opponent_history, Action::Defect)
        > opponent_history.len() {
        Action::Defect
    } else {
        Action::Cooperate
    }
}

#[derive(Clone, Copy, Default)]
pub struct Statistical;

impl Strategy for Statistical {
    open spec fn spec_name(&self) -> Seq<char> {
        "Statistical"@
    }

    open spec fn names_itself(&self) -> bool {
        true
    }

    open spec fn allows(&self, my_history: Seq<Action>, opponent_history: Seq<Action>, r: Action) -> bool {
        &&& (r == statistical_move(opponent_history))
    }

    fn name(&self) -> (r: &str)
        ensures
            r@ == "Statistical"@,
    {
        "Statistical"
    }

    fn next_move(&self, _my_history: &[Action], opponent_history: &[Action], _rng: &mut ChaCha8Rng) -> (r: Action)
        ensures
            r == statistical_move(opponent_history@),
    {
        if opponent_history.len() == 0 {
            return Action::Cooperate;
        }
        let defect_count = count_moves(opponent_history, Action::Defect);
        if defect_count > opponent_history.len() - defect_count {
            Action::Defect
        } else {
            Action::Cooperate
        }
    }
}

} // verus!
