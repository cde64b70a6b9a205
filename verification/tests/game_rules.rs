//! Moves, payoffs, the payoff constraints and single matches.

use game_theory::action::{largest_payoff_magnitude, round_payoffs};
use game_theory::strategies::alternator::Alternator;
use game_theory::strategies::always_cooperate::AlwaysCooperate;
use game_theory::strategies::always_defect::AlwaysDefect;
use game_theory::strategies::tit_for_tat::TitForTat;
use game_theory::Action::{Cooperate, Defect};
use game_theory::game::effective_seed;
use game_theory::Game;

#[test]
fn flip_swaps_and_twice_restores() {
    assert_eq!(Cooperate.flip(), Defect);
    assert_eq!(Defect.flip(), Cooperate);
    assert_eq!(Cooperate.flip().flip(), Cooperate);
}

#[test]
fn round_payoffs_follow_the_matrix() {
    let p = (5, 3, 1, 0);
    assert_eq!(round_payoffs(p, Cooperate, Cooperate), (3, 3));
    assert_eq!(round_payoffs(p, Cooperate, Defect), (0, 5));
    assert_eq!(round_payoffs(p, Defect, Cooperate), (5, 0));
    assert_eq!(round_payoffs(p, Defect, Defect), (1, 1));
}

#[test]
fn default_game_is_axelrods() {
    let g = Game::default();
    assert_eq!(g.iterations, 200);
    assert_eq!(g.payoffs, (5, 3, 1, 0));
    assert!(g.discount_factor.is_none());
    assert_eq!(g.seed, None);
    assert_eq!(g.action_noise, (0, 1));
    assert_eq!(g.perception_noise, (0, 1));
    assert!(g.validate().is_ok());
}

#[test]
fn validate_rejects_unordered_payoffs() {
    let g = Game { payoffs: (3, 5, 1, 0), ..Game::default() };
    assert_eq!(
        g.validate(),
        Err("Axelrod payoffs must satisfy T > R > P > S (got T=3, R=5, P=1, S=0)".to_string())
    );
}

#[test]
fn validate_rejects_profitable_alternation() {
    let g = Game { payoffs: (10, 3, 1, 0), ..Game::default() };
    assert_eq!(
        g.validate(),
        Err("Axelrod payoffs must satisfy 2R > T + S (got R=3, T=10, S=0; otherwise alternating defection beats mutual cooperation)".to_string())
    );
}

#[test]
fn validate_boundary_of_alternation() {
    // 2R == T + S is not enough.
    let g = Game { payoffs: (6, 3, 1, 0), ..Game::default() };
    assert!(g.validate().is_err());
    let g = Game { payoffs: (5, 3, 1, 0), ..Game::default() };
    assert_eq!(g.validate(), Ok(()));
}

#[test]
fn cooperator_against_defector_scores() {
    let game = Game { iterations: 10, seed: Some(3), ..Game::default() };
    let (a, b, history) = game.play(&AlwaysCooperate, &AlwaysDefect, None);
    assert_eq!(history.len(), 10);
    assert_eq!((a, b), (0, 50));
    assert!(history.iter().all(|&m| m == (Cooperate, Defect)));
}

#[test]
fn tit_for_tat_against_alternator() {
    let game = Game { iterations: 4, seed: Some(1), ..Game::default() };
    let (a, b, history) = game.play(&TitForTat, &Alternator, None);
    assert_eq!(history, vec![(Cooperate, Cooperate), (Cooperate, Defect), (Defect, Cooperate), (Cooperate, Defect)]);
    assert_eq!((a, b), (3 + 0 + 5 + 0, 3 + 5 + 0 + 5));
}

#[test]
fn certain_discount_ends_every_match_at_once() {
    let game = Game {
        iterations: 50,
        discount_factor: Some((1, 1)),
        seed: Some(8),
        ..Game::default()
    };
    let (a, b, history) = game.play(&TitForTat, &TitForTat, None);
    assert!(history.is_empty());
    assert_eq!((a, b), (0, 0));
}

#[test]
fn certain_action_noise_flips_every_move() {
    let game = Game {
        iterations: 6,
        action_noise: (1, 1),
        seed: Some(8),
        ..Game::default()
    };
    let (a, b, history) = game.play(&AlwaysCooperate, &AlwaysCooperate, None);
    assert!(history.iter().all(|&m| m == (Defect, Defect)));
    assert_eq!((a, b), (6, 6));
}

#[test]
fn seeded_matches_repeat() {
    let game = Game {
        iterations: 100,
        action_noise: (1, 10),
        perception_noise: (1, 10),
        seed: Some(12),
        ..Game::default()
    };
    let first = game.play(&TitForTat, &TitForTat, Some(77));
    let second = game.play(&TitForTat, &TitForTat, Some(77));
    assert_eq!(first, second);
}

#[test]
fn zero_discount_chance_runs_full_length() {
    let game = Game { iterations: 12, discount_factor: Some((0, 5)), seed: Some(2), ..Game::default() };
    let (_, _, history) = game.play(&TitForTat, &AlwaysDefect, None);
    assert_eq!(history.len(), 12);
}

#[test]
fn match_seed_wins_over_game_seed() {
    assert_eq!(effective_seed(Some(3), Some(9)), Some(3));
    assert_eq!(effective_seed(None, Some(9)), Some(9));
    assert_eq!(effective_seed(None, None), None);
}

#[test]
fn validate_writes_negative_payoffs() {
    let g = Game { payoffs: (3, 5, -1, i32::MIN), ..Game::default() };
    assert_eq!(
        g.validate(),
        Err(format!("Axelrod payoffs must satisfy T > R > P > S (got T=3, R=5, P=-1, S={})", i32::MIN))
    );
    let g = Game { payoffs: (10, 2, -4, -5), ..Game::default() };
    assert_eq!(
        g.validate(),
        Err("Axelrod payoffs must satisfy 2R > T + S (got R=2, T=10, S=-5; otherwise alternating defection beats mutual cooperation)".to_string())
    );
}

#[test]
fn largest_payoff_magnitude_bounds_a_round() {
    assert_eq!(largest_payoff_magnitude((5, 3, 1, 0)), 5);
    assert_eq!(largest_payoff_magnitude((5, 3, 1, -9)), 9);
    assert_eq!(largest_payoff_magnitude((0, 0, 0, i32::MIN)), 2147483648);
}
