//! Always Cooperate: never defects, whatever the opponent does.

use vstd::prelude::*;
use rand_chacha::ChaCha8Rng;

use crate::action::Action;
use crate::strategy::Strategy;

verus! {

#[derive(Clone, Copy, Default)]
pub struct AlwaysCooperate;

impl Strategy for AlwaysCooperate {
    open spec fn spec_name(&self) -> Seq<char> {
        "Always Cooperate"@
    }

    open spec fn names_itself(&self) -> bool {
        true
    }

    open spec fn allows(&self, my_history: Seq<Action>, opponent_history: Seq<Action>, r: Action) -> bool {
        &&& (r == Action::Cooperate)
    }

    fn name(&self) -> (r: &str)
        ensures
            r@ == "Always Cooperate"@,
    {
        "Always Cooperate"
    }

    fn next_move(&self, _my_history: &[Action], _opponent_history: &[Action], _rng: &mut ChaCha8Rng) -> (r: Action)
        ensures
            r == Action::Cooperate,
    {
        Action::Cooperate
    }
}

} // verus!
