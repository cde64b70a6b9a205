//! Adaptive TFT: the generative population holds fifty of them, and each
//! defects as soon as the opponent's cooperation rate falls below its target.

use game_theory::strategies::always_defect::AlwaysDefect;
use game_theory::strategies::families::generative_families;
use game_theory::{Action, Game, Strategy};

#[test]
fn adaptive_tft_present_and_named() {
    let all = generative_families();
    let n_adaptive = all
        .iter()
        .filter(|s| s.name().starts_with("Adaptive TFT"))
        .count();
    assert_eq!(n_adaptive, 50, "expected 50 Adaptive TFT variants, got {}", n_adaptive);
}

#[test]
fn adaptive_tft_50_pct_defects_against_pure_defector() {
    let strategies = generative_families();
    let target = strategies
        .iter()
        .find(|s| s.name() == "Adaptive TFT (Target 50%)")
        .expect("Adaptive TFT (Target 50%) must exist");
    let alld = AlwaysDefect;
    let game = Game { iterations: 20, seed: Some(1), ..Game::default() };
    let (_, _, history) = game.play(target, &alld, Some(1));
    assert_eq!(history[0].0, Action::Cooperate, "first move must be C (no history)");
    for (turn, &(my, _)) in history.iter().enumerate().skip(1) {
        assert_eq!(my, Action::Defect, "turn {} must defect (opp coop-rate=0 < 50%)", turn);
    }
}

#[test]
fn adaptive_tft_targets_run_in_steps_of_two_percent() {
    let all = generative_families();
    let names: Vec<&str> = all
        .iter()
        .map(|s| s.name())
        .filter(|n| n.starts_with("Adaptive TFT"))
        .collect();
    assert_eq!(names[0], "Adaptive TFT (Target 2%)");
    assert_eq!(names[24], "Adaptive TFT (Target 50%)");
    assert_eq!(names[49], "Adaptive TFT (Target 100%)");
}
