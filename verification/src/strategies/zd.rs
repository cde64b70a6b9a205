//! Memory-1 stochastic strategies: the chance of cooperating depends only
//! on the previous round's joint move. The zero-determinant members of the
//! population (Press & Dyson 2012, Stewart & Plotkin 2013) are built with
//! the closed-form chances of their family. Each chance is the ratio
//! `numerator / denominator`.

use vstd::prelude::*;
use rand_chacha::ChaCha8Rng;

use crate::action::Action;
use crate::chance::{draw_ratio, is_chance};
use crate::strategy::Strategy;

verus! {

/// Cooperation chances after (my C, opp C), (C, D), (D, C) and (D, D).
pub struct Memory1Stochastic {
    label: String,
    p_cc: (u32, u32),
    p_cd: (u32, u32),
    p_dc: (u32, u32),
    p_dd: (u32, u32),
    first_move: Action,
}

/// The move a memory-1 strategy may answer: its first move on an empty
/// history; afterwards cooperation when the chance that the last joint move
/// picks is certain, defection when it is zero, and either otherwise.
pub open spec fn memory_one_allows(
    s: Memory1Stochastic,
    my_history: Seq<Action>,
    opponent_history: Seq<Action>,
    r: Action,
) -> bool {
    if my_history.len() == 0 || opponent_history.len() == 0 {
        r == s.spec_first_move()
    } else {
        let chance = s.spec_chance(my_history.last(), opponent_history.last());
        &&& chance.0 == chance.1 ==> r == Action::Cooperate
        &&& chance.0 == 0 ==> r == Action::Defect
    }
}

impl Memory1Stochastic {
    #[verifier::type_invariant]
    spec fn well_formed(self) -> bool {
        is_chance(self.p_cc) && is_chance(self.p_cd) && is_chance(self.p_dc) && is_chance(self.p_dd)
    }

    pub closed spec fn spec_label(&self) -> Seq<char> {
        self.label@
    }

    pub closed spec fn spec_first_move(&self) -> Action {
        self.first_move
    }

    /// The chance of cooperating after the joint move `(my_last, opponent_last)`.
    pub closed spec fn spec_chance(&self, my_last: Action, opponent_last: Action) -> (u32, u32) {
        match (my_last, opponent_last) {
            (Action::Cooperate, Action::Cooperate) => self.p_cc,
            (Action::Cooperate, Action::Defect) => self.p_cd,
            (Action::Defect, Action::Cooperate) => self.p_dc,
            (Action::Defect, Action::Defect) => self.p_dd,
        }
    }

    pub fn new(
        label: String,
        p_cc: (u32, u32),
        p_cd: (u32, u32),
        p_dc: (u32, u32),
        p_dd: (u32, u32),
        first_move: Action,
    ) -> (r: Self)
        requires
            is_chance(p_cc),
            is_chance(p_cd),
            is_chance(p_dc),
            is_chance(p_dd),
        ensures
            r.spec_label() == label@,
            r.spec_first_move() == first_move,
            r.spec_chance(Action::Cooperate, Action::Cooperate) == p_cc,
            r.spec_chance(Action::Cooperate, Action::Defect) == p_cd,
            r.spec_chance(Action::Defect, Action::Cooperate) == p_dc,
            r.spec_chance(Action::Defect, Action::Defect) == p_dd,
    {
        Memory1Stochastic { label, p_cc, p_cd, p_dc, p_dd, first_move }
    }

    /// The chance of cooperating after the joint move `(my_last, opponent_last)`.
    pub fn cooperation_chance(&self, my_last: Action, opponent_last: Action) -> (r: (u32, u32))
        ensures
            r == self.spec_chance(my_last, opponent_last),
            is_chance(r),
    {
        proof {
            use_type_invariant(self);
        }
        match (my_last, opponent_last) {
            (Action::Cooperate, Action::Cooperate) => self.p_cc,
            (Action::Cooperate, Action::Defect) => self.p_cd,
            (Action::Defect, Action::Cooperate) => self.p_dc,
            (Action::Defect, Action::Defect) => self.p_dd,
        }
    }
}

impl Strategy for Memory1Stochastic {
    open spec fn spec_name(&self) -> Seq<char> {
        self.spec_label()
    }

    open spec fn names_itself(&self) -> bool {
        true
    }

    open spec fn allows(&self, my_history: Seq<Action>, opponent_history: Seq<Action>, r: Action) -> bool {
        memory_one_allows(*self, my_history, opponent_history, r)
    }

    fn name(&self) -> (r: &str) {
        self.label.as_str()
    }

    /// The first move opens; after that, cooperates with the chance that
    /// `cooperation_chance` picks for the last joint move.
    fn next_move(&self, my_history: &[Action], opponent_history: &[Action], rng: &mut ChaCha8Rng) -> (r: Action) {
        let n = my_history.len();
        if n == 0 || opponent_history.len() == 0 {
            return self.first_move;
        }
        let chance = self.cooperation_chance(my_history[n - 1], opponent_history[opponent_history.len() - 1]);
        if draw_ratio(rng, chance.0, chance.1) {
            Action::Cooperate
        } else {
            Action::Defect
        }
    }
}

} // verus!
