//! Suspicious Tit For Tat: Tit For Tat that opens with a defection.

use vstd::prelude::*;
use rand_chacha::ChaCha8Rng;

use crate::action::Action;
use crate::strategies::history::{last_or, last_or_else};
use crate::strategies::tit_for_tat::tit_for_tat_move;
use crate::strategy::Strategy;

verus! {

pub open spec fn suspicious_tit_for_tat_move(opponent_history: Seq<Action>) -> Action {
    last_or(opponent_history, Action::Defect)
}

#[derive(Clone, Copy, Default)]
pub struct SuspiciousTitForTat;

impl Strategy for SuspiciousTitForTat {
    open spec fn spec_name(&self) -> Seq<char> {
        "Suspicious Tit For Tat"@
    }

    open spec fn names_itself(&self) -> bool {
        true
    }

    open spec fn allows(&self, my_history: Seq<Action>, opponent_history: Seq<Action>, r: Action) -> bool {
        &&& (r == suspicious_tit_for_tat_move(opponent_history))
    }

    fn name(&self) -> (r: &str)
        ensures
            r@ == "Suspicious Tit For Tat"@,
    {
        "Suspicious Tit For Tat"
    }

    fn next_move(&self, _my_history: &[Action], opponent_history: &[Action], _rng: &mut ChaCha8Rng) -> (r: Action)
        ensures
            r == suspicious_tit_for_tat_move(opponent_history@),
    {
        last_or_else(opponent_history, Action::Defect)
    }
}

/// Suspicious Tit For Tat differs from Tit For Tat only in its opening
/// move: once the opponent has moved, the two always agree.
pub proof fn law_suspicious_differs_only_at_opening(opponent_history: Seq<Action>)
    ensures
        opponent_history.len() > 0 ==> suspicious_tit_for_tat_move(opponent_history)
            == tit_for_tat_move(opponent_history),
        opponent_history.len() == 0 ==> suspicious_tit_for_tat_move(opponent_history)
            == Action::Defect && tit_for_tat_move(opponent_history) == Action::Cooperate,
{
}

} // verus!
