//! Round-robin schedules, derived seeds, scheduled matches, Swiss pairing,
//! truncation selection and the census.

use std::sync::Arc;

use game_theory::census::tally;
use game_theory::strategies::always_cooperate::AlwaysCooperate;
use game_theory::strategies::always_defect::AlwaysDefect;
use game_theory::strategies::tit_for_tat::TitForTat;
use game_theory::tournament::{swiss_pairs, truncation_parents};
use game_theory::{Game, MatchRecord, Strategy, Tournament};

fn trio(seed: Option<u64>) -> Tournament {
    let strategies: Vec<Arc<dyn Strategy>> =
        vec![Arc::new(AlwaysCooperate), Arc::new(AlwaysDefect), Arc::new(TitForTat)];
    Tournament::new(strategies, Game { iterations: 10, seed, ..Game::default() })
}

#[test]
fn new_tournament_defaults() {
    let t = trio(None);
    assert_eq!(t.match_repetitions, 1);
    assert!(t.include_self_play);
    assert_eq!(t.strategies.len(), 3);
}

#[test]
fn repetitions_are_at_least_one() {
    assert_eq!(trio(None).with_match_repetitions(0).match_repetitions, 1);
    assert_eq!(trio(None).with_match_repetitions(4).match_repetitions, 4);
    assert!(!trio(None).with_include_self_play(false).include_self_play);
}

#[test]
fn schedule_with_and_without_self_play() {
    let t = trio(None);
    assert_eq!(
        t.schedule(),
        vec![(0, 0, 0), (0, 1, 0), (0, 2, 0), (1, 1, 0), (1, 2, 0), (2, 2, 0)]
    );
    let t = trio(None).with_include_self_play(false).with_match_repetitions(2);
    assert_eq!(
        t.schedule(),
        vec![(0, 1, 0), (0, 1, 1), (0, 2, 0), (0, 2, 1), (1, 2, 0), (1, 2, 1)]
    );
}

#[test]
fn match_seeds_are_derived_from_the_game_seed() {
    let t = trio(Some(100)).with_match_repetitions(2);
    // seed + (i * n + j) * reps + rep
    assert_eq!(t.match_seed(1, 2, 1), Some(100 + (1 * 3 + 2) * 2 + 1));
    assert_eq!(t.match_seed(0, 0, 0), Some(100));
    assert_eq!(trio(None).match_seed(1, 2, 0), None);
    let wrap = trio(Some(u64::MAX));
    assert_eq!(wrap.match_seed(0, 1, 0), Some(0));
    // seed + round * len + i
    assert_eq!(t.swiss_match_seed(3, 4, 2), Some(114));
    assert_eq!(trio(None).swiss_match_seed(3, 4, 2), None);
}

#[test]
fn scheduled_match_scores() {
    let t = trio(Some(9));
    assert_eq!(t.play_match(0, 1, 0), MatchRecord { i: 0, j: 1, score_i: 0, score_j: 50, turns: 10 });
    assert_eq!(t.play_match(1, 2, 0), MatchRecord { i: 1, j: 2, score_i: 5 + 9, score_j: 9, turns: 10 });
    assert_eq!(t.play_match(2, 2, 0), MatchRecord { i: 2, j: 2, score_i: 30, score_j: 30, turns: 10 });
}

#[test]
fn swiss_pairs_neighbours_and_drops_the_odd_one() {
    assert_eq!(swiss_pairs(5), vec![(0, 1), (2, 3)]);
    assert_eq!(swiss_pairs(4), vec![(0, 1), (2, 3)]);
    assert!(swiss_pairs(1).is_empty());
    assert!(swiss_pairs(0).is_empty());
}

#[test]
fn truncation_refills_from_the_survivors() {
    let ranked = vec![7, 3, 9, 1, 4];
    assert_eq!(truncation_parents(&ranked, 2), vec![7, 3, 7, 3, 7]);
    assert_eq!(truncation_parents(&ranked, 5), ranked);
    assert_eq!(truncation_parents(&ranked, 1), vec![7, 7, 7, 7, 7]);
}

#[test]
fn census_counts_each_name_once() {
    let names: Vec<String> = ["a", "b", "a", "c", "a"].iter().map(|s| s.to_string()).collect();
    let counts = tally(&names);
    assert_eq!(counts.len(), 3);
    assert!(counts.contains(&("a".to_string(), 3)));
    assert!(counts.contains(&("b".to_string(), 1)));
    assert!(counts.contains(&("c".to_string(), 1)));
    assert!(tally(&Vec::new()).is_empty());
}

#[test]
fn population_counts_by_name() {
    let strategies: Vec<Arc<dyn Strategy>> =
        vec![Arc::new(TitForTat), Arc::new(AlwaysDefect), Arc::new(TitForTat)];
    let t = Tournament::new(strategies, Game::default());
    let counts = t.population_counts();
    assert_eq!(counts.len(), 2);
    assert!(counts.contains(&("Tit For Tat".to_string(), 2)));
    assert!(counts.contains(&("Always Defect".to_string(), 1)));
}

#[test]
fn every_scheduled_match_has_its_own_seed() {
    let t = trio(Some(u64::MAX - 3)).with_match_repetitions(3);
    let seeds: Vec<u64> = t.schedule().iter().map(|&(i, j, r)| t.match_seed(i, j, r).unwrap()).collect();
    let mut unique = seeds.clone();
    unique.sort();
    unique.dedup();
    assert_eq!(unique.len(), seeds.len());
    assert_eq!(seeds.len(), 6 * 3);
}
