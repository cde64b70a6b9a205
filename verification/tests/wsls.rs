//! Win-Stay-Lose-Shift with certain stay and switch chances is Pavlov.

use game_theory::strategies::wsls::{wsls_decide, wsls_grid, StochasticWSLS};
use game_theory::Action::{Cooperate, Defect};
use game_theory::{ChaCha8Rng, Game, Strategy};
use rand::SeedableRng;

fn certain_wsls() -> StochasticWSLS {
    StochasticWSLS::new("WSLS (sw=1.00, sl=1.00)".to_string(), (1, 1), (1, 1))
}

#[test]
fn deterministic_wsls_equals_pavlov() {
    let game = Game { iterations: 200, seed: Some(99), ..Game::default() };
    let a = certain_wsls();
    let b = certain_wsls();
    let (sc_a, sc_b, history) = game.play(&a, &b, Some(99));
    assert_eq!(sc_a, sc_b, "symmetric Pavlov-equivalents tie");
    let r = game.payoffs.1;
    assert_eq!(sc_a, r * 200, "two deterministic WSLS lock into mutual cooperation");
    assert!(
        history.iter().all(|&(m1, m2)| m1 == Cooperate && m2 == Cooperate),
        "every turn must be mutual cooperation"
    );
}

#[test]
fn wsls_decision_table() {
    // A win (opponent cooperated): stay when the draw came up, else switch.
    assert_eq!(wsls_decide(Defect, Cooperate, true), Defect);
    assert_eq!(wsls_decide(Defect, Cooperate, false), Cooperate);
    // A loss (opponent defected): switch when the draw came up, else stay.
    assert_eq!(wsls_decide(Cooperate, Defect, true), Defect);
    assert_eq!(wsls_decide(Cooperate, Defect, false), Cooperate);
    assert_eq!(wsls_decide(Defect, Defect, true), Cooperate);
}

#[test]
fn certain_and_impossible_chances_decide() {
    let mut rng = ChaCha8Rng::seed_from_u64(4);
    let stay_always = StochasticWSLS::new("s".to_string(), (5, 5), (0, 3));
    for _ in 0..50 {
        // A win with a certain stay keeps the move.
        assert_eq!(stay_always.next_move(&[Defect], &[Cooperate], &mut rng), Defect);
        // A loss with no chance of switching keeps the move too.
        assert_eq!(stay_always.next_move(&[Cooperate], &[Defect], &mut rng), Cooperate);
    }
    assert_eq!(stay_always.name(), "s");
    assert_eq!(stay_always.next_move(&[], &[], &mut rng), Cooperate);
}

#[test]
fn wsls_grid_pairs_every_level() {
    let grid = wsls_grid();
    assert_eq!(grid.len(), 25);
    assert_eq!(grid[0].name(), "WSLS (sw=0.50, sl=0.50)");
    assert_eq!(grid[1].name(), "WSLS (sw=0.50, sl=0.70)");
    assert_eq!(grid[7].name(), "WSLS (sw=0.70, sl=0.85)");
    assert_eq!(grid[24].name(), "WSLS (sw=1.00, sl=1.00)");
    assert_eq!(grid[18].name(), "WSLS (sw=0.95, sl=0.95)");
}
