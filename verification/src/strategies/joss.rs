//! Joss: a sneaky Tit For Tat that defects one time in ten regardless.

use vstd::prelude::*;
use rand_chacha::ChaCha8Rng;

use crate::action::Action;
use crate::chance::draw_ratio;
use crate::strategies::history::{last_or, last_or_else};
use crate::strategy::Strategy;

verus! {

/// Joss's move once it knows whether it sneaks in a defection this round.
pub open spec fn joss_rule(sneak: bool, opponent_history: Seq<Action>) -> Action {
    if sneak {
        Action::Defect
    } else {
        last_or(opponent_history, Action::Cooperate)
    }
}

#[derive(Clone, Copy, Default)]
pub struct Joss;

impl Strategy for Joss {
    open spec fn spec_name(&self) -> Seq<char> {
        "Joss"@
    }

    open spec fn names_itself(&self) -> bool {
        true
    }

    open spec fn allows(&self, my_history: Seq<Action>, opponent_history: Seq<Action>, r: Action) -> bool {
        &&& (r == joss_rule(true, opponent_history) || r == joss_rule(false, opponent_history))
    }

    fn name(&self) -> (r: &str)
        ensures
            r@ == "Joss"@,
    {
        "Joss"
    }

    /// Sneaks with probability 1/10.
    fn next_move(&self, _my_history: &[Action], opponent_history: &[Action], rng: &mut ChaCha8Rng) -> (r: Action)
        ensures
            r == joss_rule(true, opponent_history@) || r == joss_rule(false, opponent_history@),
    {
        if draw_ratio(rng, 1, 10) {
            Action::Defect
        } else {
            last_or_else(opponent_history, Action::Cooperate)
        }
    }
}

} // verus!
