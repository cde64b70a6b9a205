//! Always Defect: always defects and never cooperates.

use vstd::prelude::*;
use rand_chacha::ChaCha8Rng;

use crate::action::Action;
use crate::strategy::Strategy;

verus! {

#[derive(Clone, Copy, Default)]
pub struct AlwaysDefect;

impl Strategy for AlwaysDefect {
    open spec fn spec_name(&self) -> Seq<char> {
        "Always Defect"@
    }

    open spec fn names_itself(&self) -> bool {
        true
    }

    open spec fn allows(&self, my_history: Seq<Action>, opponent_history: Seq<Action>, r: Action) -> bool {
        &&& (r == Action::Defect)
    }

    fn name(&self) -> (r: &str)
        ensures
            r@ == "Always Defect"@,
    {
        "Always Defect"
    }

    fn next_move(&self, _my_history: &[Action], _opponent_history: &[Action], _rng: &mut ChaCha8Rng) -> (r: Action)
        ensures
            r == Action::Defect,
    {
        Action::Defect
    }
}

} // verus!
