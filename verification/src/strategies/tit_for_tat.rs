//! Tit For Tat: cooperates first, then repeats the opponent's last move.

use vstd::prelude::*;
use rand_chacha::ChaCha8Rng;

use crate::action::Action;
use crate::strategies::history::{last_or, last_or_else};
use crate::strategy::Strategy;

verus! {

pub open spec fn tit_for_tat_move(opponent_history: Seq<Action>) -> Action {
    last_or(opponent_history, Action::Cooperate)
}

#[derive(Clone, Copy, Default)]
pub struct TitForTat;

impl Strategy for TitForTat {
    open spec fn spec_name(&self) -> Seq<char> {
        "Tit For Tat"@
    }

    open spec fn names_itself(&self) -> bool {
        true
    }

    open spec fn allows(&self, my_history: Seq<Action>, opponent_history: Seq<Action>, r: Action) -> bool {
        &&& (r == tit_for_tat_move(opponent_history))
    }

    fn name(&self) -> (r: &str)
        ensures
            r@ == "Tit For Tat"@,
    {
        "Tit For Tat"
    }

    fn next_move(&self, _my_history: &[Action], opponent_history: &[Action], _rng: &mut ChaCha8Rng) -> (r: Action)
        ensures
            r == tit_for_tat_move(opponent_history@),
    {
        last_or_else(opponent_history, Action::Cooperate)
    }
}

} // verus!
