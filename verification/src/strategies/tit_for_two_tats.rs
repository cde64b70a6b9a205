//! Tit For Two Tats: defects only when the opponent defected in both of
//! the last two rounds.

use vstd::prelude::*;
use rand_chacha::ChaCha8Rng;

use crate::action::Action;
use crate::strategy::Strategy;

verus! {

pub open spec fn tit_for_two_tats_move(opponent_history: Seq<Action>) -> Action {
    let n = opponent_history.len();
    if n >= 2 && opponent_history[n - 1] == Action::Defect && opponent_history[n - 2]
        == Action::Defect {
        Action::Defect
    } else {
        Action::Cooperate
    }
}

#[derive(Clone, Copy, Default)]
pub struct TitForTwoTats;

impl Strategy for TitForTwoTats {
    open spec fn spec_name(&self) -> Seq<char> {
        "Tit For Two Tats"@
    }

    open spec fn names_itself(&self) -> bool {
        true
    }

    open spec fn allows(&self, my_history: Seq<Action>, opponent_history: Seq<Action>, r: Action) -> bool {
        &&& (r == tit_for_two_tats_move(opponent_history))
    }

    fn name(&self) -> (r: &str)
        ensures
            r@ == "Tit For Two Tats"@,
    {
        "Tit For Two Tats"
    }

    fn next_move(&self, _my_history: &[Action], opponent_history: &[Action], _rng: &mut ChaCha8Rng) -> (r: Action)
        ensures
            r == tit_for_two_tats_move(opponent_history@),
    {
        let n = opponent_history.len();
        if n < 2 {
            return Action::Cooperate;
        }
        if opponent_history[n - 1] == Action::Defect && opponent_history[n - 2] == Action::Defect {
            Action::Defect
        } else {
            Action::Cooperate
        }
    }
}

} // verus!
