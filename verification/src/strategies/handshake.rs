//! Handshake: opens with [Cooperate, Defect]. An opponent that answered
//! with the same two moves is cooperated with forever; any other opponent
//! is defected against forever.

use vstd::prelude::*;
use rand_chacha::ChaCha8Rng;

use crate::action::Action;
use crate::strategy::Strategy;

verus! {

pub open spec fn handshake_move(my_history: Seq<Action>, opponent_history: Seq<Action>) -> Action {
    if my_history.len() == 0 {
        Action::Cooperate
    } else if my_history.len() == 1 {
        Action::Defect
    } else if opponent_history.len() >= 2 && opponent_history[0] == Action::Cooperate
        && opponent_history[1] == Action::Defect {
        Action::Cooperate
    } else {
        Action::Defect
    }
}

#[derive(Clone, Copy, Default)]
pub struct Handshake;

impl Strategy for Handshake {
    open spec fn spec_name(&self) -> Seq<char> {
        "Handshake"@
    }

    open spec fn names_itself(&self) -> bool {
        true
    }

    open spec fn allows(&self, my_history: Seq<Action>, opponent_history: Seq<Action>, r: Action) -> bool {
        &&& (r == handshake_move(my_history, opponent_history))
    }

    fn name(&self) -> (r: &str)
        ensures
            r@ == "Handshake"@,
    {
        "Handshake"
    }

    fn next_move(&self, my_history: &[Action], opponent_history: &[Action], _rng: &mut ChaCha8Rng) -> (r: Action)
        ensures
            r == handshake_move(my_history@, opponent_history@),
    {
        let turn = my_history.len();
        if turn == 0 {
            Action::Cooperate
        } else if turn == 1 {
            Action::Defect
        } else if opponent_history.len() >= 2 && opponent_history[0] == Action::Cooperate
            && opponent_history[1] == Action::Defect {
            Action::Cooperate
        } else {
            Action::Defect
        }
    }
}

} // verus!
