//! Zero-determinant strategies for the canonical payoffs with chi = 2:
//! extortion out-scores an unconditional cooperator, generosity cooperates.

use game_theory::strategies::always_cooperate::AlwaysCooperate;
use game_theory::strategies::zd::Memory1Stochastic;
use game_theory::{Action, ChaCha8Rng, Game, Strategy};
use rand::SeedableRng;

/// Chances of the extortioner with chi = 2: phi = 1/9, so
/// (p_cc, p_cd, p_dc, p_dd) = (7/9, 0, 6/9, 0).
fn extortioner() -> Memory1Stochastic {
    Memory1Stochastic::new("ZD-Extortion (chi=2.0)".to_string(), (7, 9), (0, 9), (6, 9), (0, 9), Action::Cooperate)
}

/// Chances of the generous strategy with chi = 2: phi = 1/9, so
/// (p_cc, p_cd, p_dc, p_dd) = (1, 3/9, 5/9, 1/9).
fn generous() -> Memory1Stochastic {
    Memory1Stochastic::new("ZD-Generous (chi=2.0)".to_string(), (9, 9), (3, 9), (5, 9), (1, 9), Action::Cooperate)
}

#[test]
fn extortion_invariant_vs_alld() {
    let game = Game { iterations: 5000, seed: Some(7), ..Game::default() };
    let zd = extortioner();
    let opp = AlwaysCooperate;
    let (sc_zd, sc_opp, _) = game.play(&zd, &opp, Some(7));
    assert!(sc_zd > sc_opp, "ZD-Extortion should out-score AllC (got zd={}, opp={})", sc_zd, sc_opp);
    assert!(sc_zd > 5000, "ZD-Extortion vs AllC should beat mutual-defection floor");
}

#[test]
fn generous_vs_allc() {
    let game = Game { iterations: 5000, seed: Some(11), ..Game::default() };
    let zd = generous();
    let opp = AlwaysCooperate;
    let (sc_zd, sc_opp, _) = game.play(&zd, &opp, Some(11));
    let r = game.payoffs.1;
    let n = game.iterations as i32;
    let floor = (r * n) * 8 / 10;
    assert!(sc_zd >= floor, "ZD-Generous should mostly cooperate with AllC (got {}, floor {})", sc_zd, floor);
    assert!(sc_opp >= floor, "AllC should mostly receive R against ZD-Generous (got {}, floor {})", sc_opp, floor);
}

#[test]
fn memory_one_chance_follows_last_joint_move() {
    let zd = extortioner();
    assert_eq!(zd.cooperation_chance(Action::Cooperate, Action::Defect), (0, 9));
    assert_eq!(zd.cooperation_chance(Action::Defect, Action::Cooperate), (6, 9));
    assert_eq!(zd.cooperation_chance(Action::Defect, Action::Defect), (0, 9));
    assert_eq!(zd.cooperation_chance(Action::Cooperate, Action::Cooperate), (7, 9));
}

#[test]
fn certain_and_zero_chances_decide_the_move() {
    let mut rng = ChaCha8Rng::seed_from_u64(3);
    let g = generous();
    let x = extortioner();
    for _ in 0..50 {
        assert_eq!(g.next_move(&[Action::Cooperate], &[Action::Cooperate], &mut rng), Action::Cooperate);
        assert_eq!(x.next_move(&[Action::Defect], &[Action::Defect], &mut rng), Action::Defect);
    }
    assert_eq!(x.next_move(&[], &[], &mut rng), Action::Cooperate);
}
