//! Stochastic Win-Stay-Lose-Shift: after a win (the opponent cooperated)
//! it repeats its move with one chance, after a loss it switches with
//! another. With both chances certain it is Pavlov. Each chance is the
//! ratio `numerator / denominator`.

use vstd::prelude::*;
use rand_chacha::ChaCha8Rng;

use crate::action::Action;
use crate::chance::{draw_ratio, is_chance};
use crate::strategies::labels::{append_hundredths, hundredths_text};
use crate::strategies::pavlov::pavlov_move;
use crate::strategy::Strategy;

verus! {

/// The move after `(my_last, opponent_last)` once the draws are known:
/// after a win it stays when `stay` came up, after a loss it switches when
/// `switch` came up.
pub open spec fn wsls_rule(my_last: Action, opponent_last: Action, stay: bool, switch: bool) -> Action {
    let won = opponent_last == Action::Cooperate;
    let keep = if won {
        stay
    } else {
        !switch
    };
    if keep {
        my_last
    } else {
        my_last.flipped()
    }
}

/// The decision of `wsls_rule` for a single draw, read as the stay draw
/// after a win and as the switch draw after a loss.
pub fn wsls_decide(my_last: Action, opponent_last: Action, draw_result: bool) -> (r: Action)
    ensures
        r == wsls_rule(my_last, opponent_last, draw_result, draw_result),
{
    let won = opponent_last == Action::Cooperate;
    let keep = if won {
        draw_result
    } else {
        !draw_result
    };
    if keep {
        my_last
    } else {
        my_last.flip()
    }
}

pub struct StochasticWSLS {
    label: String,
    /// Chance of staying after a win, as `(numerator, denominator)`.
    stay_win: (u32, u32),
    /// Chance of switching after a loss, as `(numerator, denominator)`.
    switch_loss: (u32, u32),
}

impl StochasticWSLS {
    #[verifier::type_invariant]
    spec fn well_formed(self) -> bool {
        is_chance(self.stay_win) && is_chance(self.switch_loss)
    }

    pub closed spec fn spec_label(&self) -> Seq<char> {
        self.label@
    }

    pub closed spec fn spec_stay_win(&self) -> (u32, u32) {
        self.stay_win
    }

    pub closed spec fn spec_switch_loss(&self) -> (u32, u32) {
        self.switch_loss
    }

    pub fn new(label: String, stay_win: (u32, u32), switch_loss: (u32, u32)) -> (r: Self)
        requires
            is_chance(stay_win),
            is_chance(switch_loss),
        ensures
            r.spec_label() == label@,
            r.spec_stay_win() == stay_win,
            r.spec_switch_loss() == switch_loss,
    {
        StochasticWSLS { label, stay_win, switch_loss }
    }

    /// The chance drawn after the opponent's move `opponent_last`: the
    /// stay chance after a win, the switch chance after a loss.
    pub open spec fn chance_after(&self, opponent_last: Action) -> (u32, u32) {
        if opponent_last == Action::Cooperate {
            self.spec_stay_win()
        } else {
            self.spec_switch_loss()
        }
    }
}

impl Strategy for StochasticWSLS {
    open spec fn spec_name(&self) -> Seq<char> {
        self.spec_label()
    }

    open spec fn names_itself(&self) -> bool {
        true
    }

    open spec fn allows(&self, my_history: Seq<Action>, opponent_history: Seq<Action>, r: Action) -> bool {
        &&& ((my_history.len() == 0 || opponent_history.len() == 0) ==> r == Action::Cooperate)
        &&& ((my_history.len() > 0 && opponent_history.len() > 0) ==> {
                    let m = my_history.last();
                    let o = opponent_history.last();
                    let chance = self.chance_after(o);
                    &&& r == wsls_rule(m, o, true, true) || r == wsls_rule(m, o, false, false)
                    &&& chance.0 == chance.1 ==> r == wsls_rule(m, o, true, true)
                    &&& chance.0 == 0 ==> r == wsls_rule(m, o, false, false)
        })
    }

    fn name(&self) -> (r: &str)
        ensures
            r@ == self.spec_label(),
    {
        self.label.as_str()
    }

    /// Cooperates first; then draws the stay chance after a win or the
    /// switch chance after a loss. A certain chance always comes up, a
    /// chance of zero never does.
    fn next_move(&self, my_history: &[Action], opponent_history: &[Action], rng: &mut ChaCha8Rng) -> (r: Action)
        ensures
            (my_history@.len() == 0 || opponent_history@.len() == 0) ==> r == Action::Cooperate,
            (my_history@.len() > 0 && opponent_history@.len() > 0) ==> {
                let m = my_history@.last();
                let o = opponent_history@.last();
                let chance = self.chance_after(o);
                &&& r == wsls_rule(m, o, true, true) || r == wsls_rule(m, o, false, false)
                &&& chance.0 == chance.1 ==> r == wsls_rule(m, o, true, true)
                &&& chance.0 == 0 ==> r == wsls_rule(m, o, false, false)
            },
    {
        proof {
            use_type_invariant(self);
        }
        let n = my_history.len();
        if n == 0 || opponent_history.len() == 0 {
            return Action::Cooperate;
        }
        let my_last = my_history[n - 1];
        let opponent_last = opponent_history[opponent_history.len() - 1];
        let chance = if opponent_last == Action::Cooperate {
            self.stay_win
        } else {
            self.switch_loss
        };
        let came_up = draw_ratio(rng, chance.0, chance.1);
        wsls_decide(my_last, opponent_last, came_up)
    }
}

/// The chances, in hundredths, that the WSLS grid takes for staying after a
/// win and for switching after a loss.
pub open spec fn wsls_grid_levels() -> Seq<u32> {
    seq![50u32, 70, 85, 95, 100]
}

/// The name of the grid member with the given chances in hundredths.
pub open spec fn wsls_label(stay_win: nat, switch_loss: nat) -> Seq<char> {
    "WSLS (sw="@ + hundredths_text(stay_win) + ", sl="@ + hundredths_text(switch_loss) + ")"@
}

/// The Win-Stay-Lose-Shift grid of the generative population: one member
/// for each pair of levels, the stay chance varying slowest.
pub fn wsls_grid() -> (grid: Vec<StochasticWSLS>)
    ensures
        grid@.len() == wsls_grid_levels().len() * wsls_grid_levels().len(),
        forall|i: int|
            0 <= i < grid@.len() ==> {
                let stay = wsls_grid_levels()[i / 5];
                let switch = wsls_grid_levels()[i % 5];
                &&& (#[trigger] grid@[i]).spec_stay_win() == (stay, 100u32)
                &&& grid@[i].spec_switch_loss() == (switch, 100u32)
                &&& grid@[i].spec_label() == wsls_label(stay as nat, switch as nat)
            },
{
    let levels: Vec<u32> = vec![50, 70, 85, 95, 100];
    proof {
        assert(levels@ =~= wsls_grid_levels());
    }
    let mut grid: Vec<StochasticWSLS> = Vec::new();
    let mut i: usize = 0;
    while i < 25
        invariant
            i <= 25,
            levels@ == wsls_grid_levels(),
            grid@.len() == i,
            forall|k: int|
                0 <= k < i ==> {
                    let stay = wsls_grid_levels()[k / 5];
                    let switch = wsls_grid_levels()[k % 5];
                    &&& (#[trigger] grid@[k]).spec_stay_win() == (stay, 100u32)
                    &&& grid@[k].spec_switch_loss() == (switch, 100u32)
                    &&& grid@[k].spec_label() == wsls_label(stay as nat, switch as nat)
                },
        decreases 25 - i,
    {
        let stay = levels[i / 5];
        let switch = levels[i % 5];
        let mut label = String::from_str("WSLS (sw=");
        append_hundredths(&mut label, stay as u64);
        label.append(", sl=");
        append_hundredths(&mut label, switch as u64);
        label.append(")");
        proof {
            assert(label@ =~= wsls_label(stay as nat, switch as nat));
        }
        grid.push(StochasticWSLS::new(label, (stay, 100), (switch, 100)));
        i = i + 1;
    }
    grid
}

/// When staying after a win and switching after a loss are certain,
/// Win-Stay-Lose-Shift plays exactly Pavlov's move.
pub proof fn law_certain_wsls_is_pavlov(my_history: Seq<Action>, opponent_history: Seq<Action>)
    requires
        my_history.len() > 0,
        opponent_history.len() > 0,
    ensures
        wsls_rule(my_history.last(), opponent_history.last(), true, true) == pavlov_move(
            my_history,
            opponent_history,
        ),
{
}

} // verus!
