//! Spatial step seed determinism and conservation of the population.

use std::sync::Arc;

use game_theory::strategies::always_cooperate::AlwaysCooperate;
use game_theory::strategies::always_defect::AlwaysDefect;
use game_theory::strategies::tit_for_tat::TitForTat;
use game_theory::spatial::neighbour_match_seed;
use game_theory::{Game, Neighborhood, SpatialTournament, Strategy};

fn total(counts: &[(String, usize)]) -> usize {
    counts.iter().map(|(_, c)| *c).sum()
}

#[test]
fn consecutive_steps_use_distinct_seeds() {
    let strats: Vec<Arc<dyn Strategy>> = vec![Arc::new(AlwaysCooperate), Arc::new(TitForTat)];
    let game = Game {
        iterations: 100,
        action_noise: (1, 5),
        seed: Some(2026),
        ..Game::default()
    };
    let mut grid = SpatialTournament::new_with_topology(4, 4, strats, game, Neighborhood::Moore);

    let counts_step_0 = grid.get_population_counts();
    grid.step();
    let counts_step_1 = grid.get_population_counts();
    grid.step();
    let counts_step_2 = grid.get_population_counts();

    // 1. Each step must terminate (no panic, counts always sum to N*N=16).
    assert_eq!(total(&counts_step_0), 16);
    assert_eq!(total(&counts_step_1), 16);
    assert_eq!(total(&counts_step_2), 16);

    // 2. Step is reproducible: same seed → same trajectory.
    let strats2: Vec<Arc<dyn Strategy>> = vec![Arc::new(AlwaysCooperate), Arc::new(TitForTat)];
    let game2 = Game {
        iterations: 100,
        action_noise: (1, 5),
        seed: Some(2026),
        ..Game::default()
    };
    let mut grid_b = SpatialTournament::new_with_topology(4, 4, strats2, game2, Neighborhood::Moore);
    grid_b.step();
    grid_b.step();
    assert_eq!(
        counts_step_2,
        grid_b.get_population_counts(),
        "identical seed → identical 2-step trajectory (reproducibility preserved)"
    );
}

#[test]
fn defectors_take_over_cooperators_without_noise() {
    // AllD beats AllC head-on; on a noiseless grid AllC can never score more
    // than an AllD neighbour, so AllC cells never spread.
    let strats: Vec<Arc<dyn Strategy>> = vec![Arc::new(AlwaysCooperate), Arc::new(AlwaysDefect)];
    let game = Game { iterations: 10, seed: Some(5), ..Game::default() };
    let mut grid = SpatialTournament::new(5, 5, strats, game);
    let count_of = |counts: &[(String, usize)], name: &str| {
        counts.iter().find(|(n, _)| n == name).map(|(_, c)| *c).unwrap_or(0)
    };
    let before = grid.get_population_counts();
    let defectors_before = count_of(&before, "Always Defect");
    grid.step();
    let after = grid.get_population_counts();
    assert_eq!(total(&after), 25);
    assert!(count_of(&after, "Always Defect") >= defectors_before);
}

#[test]
fn single_strategy_grid_is_stable() {
    let strats: Vec<Arc<dyn Strategy>> = vec![Arc::new(TitForTat)];
    let game = Game { iterations: 5, seed: Some(1), ..Game::default() };
    let mut grid = SpatialTournament::new_with_topology(3, 4, strats, game, Neighborhood::Hex);
    grid.step();
    assert_eq!(grid.get_population_counts(), vec![("Tit For Tat".to_string(), 12)]);
}

#[test]
fn adopting_follows_the_best_scoring_neighbour() {
    // Two strategies; scores are given by hand so the update rule alone decides.
    let strats: Vec<Arc<dyn Strategy>> = vec![Arc::new(AlwaysCooperate), Arc::new(AlwaysDefect)];
    let game = Game { iterations: 1, seed: Some(3), ..Game::default() };
    let mut grid = SpatialTournament::new_with_topology(3, 3, strats, game, Neighborhood::VonNeumann);
    // Every cell sees the centre (index 4) as a neighbour or itself only for
    // the centre row/column; make cell 4 the unique best.
    let mut scores = vec![0i32; 9];
    scores[4] = 100;
    let counts_before = grid.get_population_counts();
    grid.adopt_best_neighbours(&scores);
    let counts_after = grid.get_population_counts();
    assert_eq!(total(&counts_before), 9);
    assert_eq!(total(&counts_after), 9);
    // Cells 1, 3, 5, 7 and 4 itself now all hold the centre's strategy, so at
    // least five cells share one name.
    assert!(counts_after.iter().any(|(_, c)| *c >= 5));
}

#[test]
fn neighbour_seeds_follow_step_cell_and_offset() {
    assert_eq!(neighbour_match_seed(Some(10), 2, 3, 4), Some(10 + 2 * 1_000_003 + 3 * 31 + 4));
    assert_eq!(neighbour_match_seed(None, 2, 3, 4), None);
    // Consecutive steps reseed the same match, even across wrap-around.
    let a = neighbour_match_seed(Some(u64::MAX), 7, 5, 1);
    let b = neighbour_match_seed(Some(u64::MAX), 8, 5, 1);
    assert_ne!(a, b);
}
