//! Alternator: cooperates and defects in turn, starting with cooperation.

use vstd::prelude::*;
use rand_chacha::ChaCha8Rng;

use crate::action::Action;
use crate::strategy::Strategy;

verus! {

pub open spec fn alternator_move(my_history: Seq<Action>) -> Action {
    if my_history.len() % 2 == 0 {
        Action::Cooperate
    } else {
        Action::Defect
    }
}

#[derive(Clone, Copy, Default)]
pub struct Alternator;

impl Strategy for Alternator {
    open spec fn spec_name(&self) -> Seq<char> {
        "Alternator"@
    }

    open spec fn names_itself(&self) -> bool {
        true
    }

    open spec fn allows(&self, my_history: Seq<Action>, opponent_history: Seq<Action>, r: Action) -> bool {
        &&& (r == alternator_move(my_history))
    }

    fn name(&self) -> (r: &str)
        ensures
            r@ == "Alternator"@,
    {
        "Alternator"
    }

    fn next_move(&self, my_history: &[Action], _opponent_history: &[Action], _rng: &mut ChaCha8Rng) -> (r: Action)
        ensures
            r == alternator_move(my_history@),
    {
        if my_history.len() % 2 == 0 {
            Action::Cooperate
        } else {
            Action::Defect
        }
    }
}

} // verus!
