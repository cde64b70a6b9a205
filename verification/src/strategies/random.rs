//! Random: cooperates or defects with a fair coin.

use vstd::prelude::*;
use rand_chacha::ChaCha8Rng;

use crate::action::Action;
use crate::chance::draw_bool;
use crate::strategy::Strategy;

verus! {

#[derive(Clone, Copy, Default)]
pub struct Random;

impl Strategy for Random {
    open spec fn spec_name(&self) -> Seq<char> {
        "Random"@
    }

    open spec fn names_itself(&self) -> bool {
        true
    }

    fn name(&self) -> (r: &str)
        ensures
            r@ == "Random"@,
    {
        "Random"
    }

    fn next_move(&self, _my_history: &[Action], _opponent_history: &[Action], rng: &mut ChaCha8Rng) -> Action {
        if draw_bool(rng) {
            Action::Cooperate
        } else {
            Action::Defect
        }
    }
}

} // verus!
