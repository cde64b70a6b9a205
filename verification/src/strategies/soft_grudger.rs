//! Soft Grudger: cooperates until the opponent defects, then punishes with
//! four defections before cooperating again.

use vstd::prelude::*;
use rand_chacha::ChaCha8Rng;

use crate::action::Action;
use crate::strategy::Strategy;

verus! {

/// Defect exactly when one of the opponent's last four moves was a defection.
pub open spec fn soft_grudger_move(opponent_history: Seq<Action>) -> Action {
    if exists|i: int|
        opponent_history.len() - 4 <= i < opponent_history.len() && 0 <= i
            && opponent_history[i] == Action::Defect {
        Action::Defect
    } else {
        Action::Cooperate
    }
}

#[derive(Clone, Copy, Default)]
pub struct SoftGrudger;

impl Strategy for SoftGrudger {
    open spec fn spec_name(&self) -> Seq<char> {
        "Soft Grudger"@
    }

    open spec fn names_itself(&self) -> bool {
        true
    }

    open spec fn allows(&self, my_history: Seq<Action>, opponent_history: Seq<Action>, r: Action) -> bool {
        &&& (r == soft_grudger_move(opponent_history))
    }

    fn name(&self) -> (r: &str)
        ensures
            r@ == "Soft Grudger"@,
    {
        "Soft Grudger"
    }

    fn next_move(&self, _my_history: &[Action], opponent_history: &[Action], _rng: &mut ChaCha8Rng) -> (r: Action)
        ensures
            r == soft_grudger_move(opponent_history@),
    {
        let h = opponent_history;
        let mut last_defector_idx: Option<usize> = None;
        let mut i: usize = 0;
        while i < h.len()
            invariant
                i <= h@.len(),
                match last_defector_idx {
                    Some(k) => k < i && h@[k as int] == Action::Defect && forall|j: int|
                        k < j < i ==> h@[j] != Action::Defect,
                    None => forall|j: int| 0 <= j < i ==> h@[j] != Action::Defect,
                },
            decreases h@.len() - i,
        {
            if h[i] == Action::Defect {
                last_defector_idx = Some(i);
            }
            i = i + 1;
        }
        match last_defector_idx {
            Some(idx) => {
                let turns_since = h.len() - idx - 1;
                if turns_since <= 3 {
                    Action::Defect
                } else {
                    Action::Cooperate
                }
            },
            None => Action::Cooperate,
        }
    }
}

} // verus!
