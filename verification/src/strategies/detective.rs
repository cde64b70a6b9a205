//! Detective: opens with [C, D, C, C]. If the opponent never defected
//! during those four rounds, it defects forever to exploit it; otherwise it
//! plays Tit For Tat.

use vstd::prelude::*;
use rand_chacha::ChaCha8Rng;

use crate::action::Action;
use crate::strategies::history::{any_defection, has_defected, last_or, last_or_else};
use crate::strategy::Strategy;

verus! {

pub open spec fn detective_opening() -> Seq<Action> {
    seq![Action::Cooperate, Action::Defect, Action::Cooperate, Action::Cooperate]
}

/// The opponent's answers to the opening: its first four moves, or all of
/// them while it has played fewer.
pub open spec fn opening_answers(opponent_history: Seq<Action>) -> Seq<Action> {
    if opponent_history.len() < 4 {
        opponent_history
    } else {
        opponent_history.take(4)
    }
}

pub open spec fn detective_move(my_history: Seq<Action>, opponent_history: Seq<Action>) -> Action {
    if my_history.len() < 4 {
        detective_opening()[my_history.len() as int]
    } else if !has_defected(opening_answers(opponent_history)) {
        Action::Defect
    } else {
        last_or(opponent_history, Action::Cooperate)
    }
}

#[derive(Clone, Copy, Default)]
pub struct Detective;

impl Strategy for Detective {
    open spec fn spec_name(&self) -> Seq<char> {
        "Detective"@
    }

    open spec fn names_itself(&self) -> bool {
        true
    }

    open spec fn allows(&self, my_history: Seq<Action>, opponent_history: Seq<Action>, r: Action) -> bool {
        &&& (r == detective_move(my_history, opponent_history))
    }

    fn name(&self) -> (r: &str)
        ensures
            r@ == "Detective"@,
    {
        "Detective"
    }

    fn next_move(&self, my_history: &[Action], opponent_history: &[Action], _rng: &mut ChaCha8Rng) -> (r: Action)
        ensures
            r == detective_move(my_history@, opponent_history@),
    {
        let turn = my_history.len();
        let opening = [Action::Cooperate, Action::Defect, Action::Cooperate, Action::Cooperate];
        proof {
            assert(opening@ =~= detective_opening());
        }
        if turn < 4 {
            return opening[turn];
        }
        let seen = if opponent_history.len() < 4 {
            opponent_history.len()
        } else {
            4
        };
        let answers = opponent_history.split_at(seen).0;
        proof {
            assert(answers@ =~= opening_answers(opponent_history@));
        }
        if !any_defection(answers) {
            Action::Defect
        } else {
            last_or_else(opponent_history, Action::Cooperate)
        }
    }
}

} // verus!
