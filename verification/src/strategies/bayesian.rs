//! The opponent archetypes that the Bayesian classifier reasons over.

use vstd::prelude::*;

use crate::action::Action;
use crate::strategies::history::{last_or, last_or_else};

verus! {

#[derive(Clone, Copy, Debug, PartialEq, Eq, Structural)]
pub enum Archetype {
    AlwaysC,
    AlwaysD,
    TitForTat,
    Random,
}

impl Archetype {
    /// The move the archetype predicts for the opponent, given the
    /// classifier's own history (Tit For Tat mirrors the classifier's last
    /// move); `None` for the archetype that tosses a fair coin.
    pub open spec fn spec_predicted(self, my_history: Seq<Action>) -> Option<Action> {
        match self {
            Archetype::AlwaysC => Some(Action::Cooperate),
            Archetype::AlwaysD => Some(Action::Defect),
            Archetype::TitForTat => Some(last_or(my_history, Action::Cooperate)),
            Archetype::Random => None,
        }
    }

    pub fn predicted(self, my_history: &[Action]) -> (r: Option<Action>)
        ensures
            r == self.spec_predicted(my_history@),
    {
        match self {
            Archetype::AlwaysC => Some(Action::Cooperate),
            Archetype::AlwaysD => Some(Action::Defect),
            Archetype::TitForTat => Some(last_or_else(my_history, Action::Cooperate)),
            Archetype::Random => None,
        }
    }

    pub fn short(self) -> (r: &'static str)
        ensures
            r@ == match self {
                Archetype::AlwaysC => "AC"@,
                Archetype::AlwaysD => "AD"@,
                Archetype::TitForTat => "TFT"@,
                Archetype::Random => "RND"@,
            },
    {
        match self {
            Archetype::AlwaysC => "AC",
            Archetype::AlwaysD => "AD",
            Archetype::TitForTat => "TFT",
            Archetype::Random => "RND",
        }
    }
}

} // verus!
