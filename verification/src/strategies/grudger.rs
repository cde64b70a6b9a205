//! Grudger: cooperates until the opponent defects once, then defects forever.

use vstd::prelude::*;
use rand_chacha::ChaCha8Rng;

use crate::action::Action;
use crate::strategies::history::{any_defection, has_defected};
use crate::strategy::Strategy;

verus! {

pub open spec fn grudger_move(opponent_history: Seq<Action>) -> Action {
    if has_defected(opponent_history) {
        Action::Defect
    } else {
        Action::Cooperate
    }
}

#[derive(Clone, Copy, Default)]
pub struct Grudger;

impl Strategy for Grudger {
    open spec fn spec_name(&self) -> Seq<char> {
        "Grudger"@
    }

    open spec fn names_itself(&self) -> bool {
        true
    }

    open spec fn allows(&self, my_history: Seq<Action>, opponent_history: Seq<Action>, r: Action) -> bool {
        &&& (r == grudger_move(opponent_history))
    }

    fn name(&self) -> (r: &str)
        ensures
            r@ == "Grudger"@,
    {
        "Grudger"
    }

    fn next_move(&self, _my_history: &[Action], opponent_history: &[Action], _rng: &mut ChaCha8Rng) -> (r: Action)
        ensures
            r == grudger_move(opponent_history@),
    {
        if any_defection(opponent_history) {
            Action::Defect
        } else {
            Action::Cooperate
        }
    }
}

/// A grudge is never forgiven: once Grudger defects on a history, it
/// defects on every longer history that extends it.
pub proof fn law_grudge_is_permanent(prefix: Seq<Action>, rest: Seq<Action>)
    requires
        grudger_move(prefix) == Action::Defect,
    ensures
        grudger_move(prefix + rest) == Action::Defect,
{
    let i = choose|i: int| 0 <= i < prefix.len() && prefix[i] == Action::Defect;
    assert((prefix + rest)[i] == Action::Defect);
}

} // verus!
