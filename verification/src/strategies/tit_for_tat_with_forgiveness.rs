//! Tit For Tat With Forgiveness: answers a defection with a defection nine
//! times in ten, and forgives it otherwise.

use vstd::prelude::*;
use rand_chacha::ChaCha8Rng;

use crate::action::Action;
use crate::chance::draw_ratio;
use crate::strategy::Strategy;

verus! {

/// The move once it is known whether a defection is forgiven this round.
pub open spec fn forgiving_rule(forgive: bool, opponent_history: Seq<Action>) -> Action {
    if opponent_history.len() > 0 && opponent_history.last() == Action::Defect && !forgive {
        Action::Defect
    } else {
        Action::Cooperate
    }
}

#[derive(Clone, Copy, Default)]
pub struct TitForTatWithForgiveness;

impl Strategy for TitForTatWithForgiveness {
    open spec fn spec_name(&self) -> Seq<char> {
        "Tit For Tat With Forgiveness"@
    }

    open spec fn names_itself(&self) -> bool {
        true
    }

    open spec fn allows(&self, my_history: Seq<Action>, opponent_history: Seq<Action>, r: Action) -> bool {
        &&& (r == forgiving_rule(true, opponent_history) || r == forgiving_rule(false, opponent_history))
        &&& ((opponent_history.len() == 0 || opponent_history.last() == Action::Cooperate) ==> r
                    == Action::Cooperate)
    }

    fn name(&self) -> (r: &str)
        ensures
            r@ == "Tit For Tat With Forgiveness"@,
    {
        "Tit For Tat With Forgiveness"
    }

    /// Forgives with probability 1/10; the draw is made only after a defection.
    fn next_move(&self, _my_history: &[Action], opponent_history: &[Action], rng: &mut ChaCha8Rng) -> (r: Action)
        ensures
            r == forgiving_rule(true, opponent_history@) || r == forgiving_rule(false, opponent_history@),
            (opponent_history@.len() == 0 || opponent_history@.last() == Action::Cooperate) ==> r
                == Action::Cooperate,
    {
        if opponent_history.len() > 0 && opponent_history[opponent_history.len() - 1] == Action::Defect {
            if draw_ratio(rng, 1, 10) {
                Action::Cooperate
            } else {
                Action::Defect
            }
        } else {
            Action::Cooperate
        }
    }
}

} // verus!
