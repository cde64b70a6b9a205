//! A strategy can keep its own state in `StrategyScratch::Custom` and have
//! it survive across the rounds of a match.

use game_theory::{Action, ChaCha8Rng, Game, Strategy, StrategyScratch};

/// Counts the rounds played in the first word of its scratch.
#[derive(Clone)]
struct CountingCooperator;

impl Strategy for CountingCooperator {
    fn name(&self) -> &str {
        "CountingCooperator"
    }

    fn next_move(&self, _: &[Action], _: &[Action], _: &mut ChaCha8Rng) -> Action {
        Action::Cooperate
    }

    fn init_scratch(&self) -> StrategyScratch {
        StrategyScratch::Custom(vec![0])
    }

    fn next_move_stateful(
        &self,
        my: &[Action],
        _opp: &[Action],
        scratch: &mut StrategyScratch,
        _: &mut ChaCha8Rng,
    ) -> Action {
        if let StrategyScratch::Custom(words) = scratch {
            assert_eq!(words[0] as usize, my.len(), "the scratch survives between rounds");
            words[0] += 1;
        }
        Action::Cooperate
    }
}

#[test]
fn test_custom_scratch_persists() {
    let game = Game { iterations: 10, seed: Some(42), ..Game::default() };
    let s1 = CountingCooperator;
    let s2 = CountingCooperator;
    let (sc1, sc2, history) = game.play(&s1, &s2, Some(42));
    assert_eq!(history.len(), 10, "discount_factor=0 → match runs to completion");
    assert_eq!(sc1, sc2, "symmetric cooperators score identically");
    let r = game.payoffs.1; // R
    assert_eq!(sc1, r * 10, "two CountingCooperators always cooperate → 10*R");
}

#[test]
fn default_scratch_is_empty() {
    assert!(matches!(StrategyScratch::default(), StrategyScratch::Empty));
}
