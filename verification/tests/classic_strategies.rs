//! Decisions of the classic strategies on given histories.

use game_theory::strategies::alternator::Alternator;
use game_theory::strategies::always_cooperate::AlwaysCooperate;
use game_theory::strategies::always_defect::AlwaysDefect;
use game_theory::strategies::detective::Detective;
use game_theory::strategies::gradual::Gradual;
use game_theory::strategies::grudger::Grudger;
use game_theory::strategies::handshake::Handshake;
use game_theory::strategies::joss::Joss;
use game_theory::strategies::omega_tft::OmegaTFT;
use game_theory::strategies::pavlov::Pavlov;
use game_theory::strategies::random::Random;
use game_theory::strategies::soft_grudger::SoftGrudger;
use game_theory::strategies::statistical::Statistical;
use game_theory::strategies::suspicious_tit_for_tat::SuspiciousTitForTat;
use game_theory::strategies::tit_for_tat::TitForTat;
use game_theory::strategies::tit_for_tat_with_forgiveness::TitForTatWithForgiveness;
use game_theory::strategies::tit_for_two_tats::TitForTwoTats;
use game_theory::strategies::wsls::StochasticWSLS;
use game_theory::Action::{self, Cooperate as C, Defect as D};
use game_theory::{ChaCha8Rng, Strategy, StrategyScratch};
use rand::SeedableRng;

fn rng() -> ChaCha8Rng {
    ChaCha8Rng::seed_from_u64(5)
}

fn decide(s: &dyn Strategy, my: &[Action], opp: &[Action]) -> Action {
    s.next_move(my, opp, &mut rng())
}

/// Plays `s` round by round through the engine's stateful entry point.
fn stateful_moves(s: &dyn Strategy, my: &[Action], opp: &[Action]) -> Vec<Action> {
    let mut scratch = s.init_scratch();
    let mut out = Vec::new();
    for t in 0..=my.len() {
        out.push(s.next_move_stateful(&my[..t], &opp[..t], &mut scratch, &mut rng()));
    }
    out
}

fn stateless_moves(s: &dyn Strategy, my: &[Action], opp: &[Action]) -> Vec<Action> {
    (0..=my.len()).map(|t| decide(s, &my[..t], &opp[..t])).collect()
}

#[test]
fn names_of_the_classics() {
    assert_eq!(AlwaysCooperate.name(), "Always Cooperate");
    assert_eq!(AlwaysDefect.name(), "Always Defect");
    assert_eq!(TitForTat.name(), "Tit For Tat");
    assert_eq!(Pavlov.name(), "Pavlov (Win-Stay, Lose-Shift)");
    assert_eq!(OmegaTFT.name(), "Omega Tit For Tat");
    assert_eq!(SoftGrudger.name(), "Soft Grudger");
}

#[test]
fn unconditional_strategies() {
    assert_eq!(decide(&AlwaysCooperate, &[D, D], &[D, D]), C);
    assert_eq!(decide(&AlwaysDefect, &[], &[]), D);
}

#[test]
fn tit_for_tat_family() {
    assert_eq!(decide(&TitForTat, &[], &[]), C);
    assert_eq!(decide(&TitForTat, &[C, C], &[C, D]), D);
    assert_eq!(decide(&SuspiciousTitForTat, &[], &[]), D);
    assert_eq!(decide(&SuspiciousTitForTat, &[D], &[C]), C);
    assert_eq!(decide(&TitForTwoTats, &[C], &[D]), C);
    assert_eq!(decide(&TitForTwoTats, &[C, C, C], &[C, D, D]), D);
    assert_eq!(decide(&TitForTwoTats, &[C, C, C], &[D, C, D]), C);
}

#[test]
fn grudgers() {
    assert_eq!(decide(&Grudger, &[C, C, C], &[C, C, C]), C);
    assert_eq!(decide(&Grudger, &[C, C, C], &[D, C, C]), D);
    // Soft Grudger punishes for four rounds after a defection.
    assert_eq!(decide(&SoftGrudger, &[C, C, C, C], &[C, D, C, C]), D);
    assert_eq!(decide(&SoftGrudger, &[C; 5], &[D, C, C, C, C]), C);
    assert_eq!(decide(&SoftGrudger, &[C; 4], &[D, C, C, C]), D);
}

#[test]
fn pavlov_and_alternator() {
    assert_eq!(decide(&Pavlov, &[], &[]), C);
    assert_eq!(decide(&Pavlov, &[D], &[D]), C);
    assert_eq!(decide(&Pavlov, &[C], &[D]), D);
    assert_eq!(decide(&Alternator, &[], &[]), C);
    assert_eq!(decide(&Alternator, &[C], &[C]), D);
    assert_eq!(decide(&Alternator, &[C, D], &[C, C]), C);
}

#[test]
fn statistical_needs_a_strict_majority_of_defections() {
    assert_eq!(decide(&Statistical, &[], &[]), C);
    assert_eq!(decide(&Statistical, &[C, C], &[D, C]), C);
    assert_eq!(decide(&Statistical, &[C, C, C], &[D, C, D]), D);
}

#[test]
fn detective_opens_then_exploits_or_copies() {
    let opening: Vec<Action> = (0..4).map(|t| decide(&Detective, &vec![C; t], &vec![C; t])).collect();
    assert_eq!(opening, vec![C, D, C, C]);
    assert_eq!(decide(&Detective, &[C, D, C, C], &[C, C, C, C]), D);
    assert_eq!(decide(&Detective, &[C, D, C, C], &[C, C, D, C]), C);
    assert_eq!(decide(&Detective, &[C, D, C, C], &[C, C, C, D]), D);
    // Only the opening counts: a later defection does not end the exploitation.
    assert_eq!(decide(&Detective, &[C, D, C, C, D, D], &[C, C, C, C, D, C]), D);
    assert_eq!(decide(&Detective, &[C, D, C, C, D], &[C, C, C, C, D]), D);
}

#[test]
fn handshake_recognises_its_own_kind() {
    assert_eq!(decide(&Handshake, &[], &[]), C);
    assert_eq!(decide(&Handshake, &[C], &[C]), D);
    assert_eq!(decide(&Handshake, &[C, D, C], &[C, D, C]), C);
    assert_eq!(decide(&Handshake, &[C, D, C], &[C, C, C]), D);
    // A matched partner is cooperated with forever, whatever it plays later.
    assert_eq!(decide(&Handshake, &[C, D], &[C, D]), C);
    assert_eq!(decide(&Handshake, &[C, D, C], &[C, D, D]), C);
    assert_eq!(decide(&Handshake, &[C, D, D], &[D, D, C]), D);
}

#[test]
fn gradual_punishes_more_each_time() {
    // The first defection is punished once, then two calm rounds follow.
    assert_eq!(decide(&Gradual, &[C], &[D]), D);
    assert_eq!(decide(&Gradual, &[C, D], &[D, C]), C);
    assert_eq!(decide(&Gradual, &[C, D, C], &[D, C, C]), C);
    // Defections during punishment or the calm rounds are not counted.
    assert_eq!(decide(&Gradual, &[C, C, C, C], &[D, C, C, D]), C);
    // The second counted defection is punished twice.
    assert_eq!(decide(&Gradual, &[C, D, C, C, C], &[D, C, C, C, D]), D);
    assert_eq!(decide(&Gradual, &[C, D, C, C, C, D], &[D, C, C, C, D, C]), D);
    assert_eq!(decide(&Gradual, &[C, D, C, C, C, D, D], &[D, C, C, C, D, C, C]), C);
    let opp = [D, C, C, D, D, C, C, C, C, C];
    let my = [C; 10];
    let stateless = stateless_moves(&Gradual, &my, &opp);
    assert_eq!(stateful_moves(&Gradual, &my, &opp), stateless);
}

#[test]
fn omega_tft_stateful_agrees_with_rescan() {
    let my = [C, C, C, C, C, C, C, C, C, C, C, C, C, C, C];
    let opp = [C, D, D, D, D, D, D, D, C, C, C, C, D, C, D];
    assert_eq!(stateful_moves(&OmegaTFT, &my, &opp), stateless_moves(&OmegaTFT, &my, &opp));
    // Six inconsistencies after warm-up: defect from then on.
    assert_eq!(decide(&OmegaTFT, &my, &opp), D);
    // Before warm-up it is Tit For Tat.
    assert_eq!(decide(&OmegaTFT, &my[..3], &opp[..3]), D);
    assert_eq!(decide(&OmegaTFT, &my[..1], &opp[..1]), C);
}

#[test]
fn randomised_classics_stay_in_their_lanes() {
    let mut r = rng();
    for _ in 0..200 {
        // Joss copies a cooperation or sneaks a defection; it never forgives.
        assert_eq!(Joss.next_move(&[C], &[D], &mut r), D);
        // Forgiving TFT cooperates after a cooperation.
        assert_eq!(TitForTatWithForgiveness.next_move(&[C], &[C], &mut r), C);
        assert_eq!(TitForTatWithForgiveness.next_move(&[], &[], &mut r), C);
    }
    let defections = (0..1000).filter(|_| Random.next_move(&[], &[], &mut r) == D).count();
    assert!(defections > 400 && defections < 600, "about half, got {}", defections);
}

#[test]
fn soft_grudger_reads_only_the_opponent() {
    let long_own = [C, D, C, D, C, D, C];
    assert_eq!(decide(&SoftGrudger, &[], &[C, C]), C);
    assert_eq!(decide(&SoftGrudger, &long_own, &[C, C]), C);
    assert_eq!(decide(&SoftGrudger, &long_own, &[D, C, C, C]), D);
    assert_eq!(decide(&SoftGrudger, &[], &[D, C, C, C, C]), C);
}

#[test]
fn omega_skips_rounds_past_its_own_history() {
    // Twelve opponent moves, alternating D and C after the first; my own
    // history is only two long, so at most round 1 can be inconsistent.
    let mut opp = vec![C];
    for t in 0..11 {
        opp.push(if t % 2 == 0 { D } else { C });
    }
    assert_eq!(decide(&OmegaTFT, &[C, C], &opp), *opp.last().unwrap());
    let mut scratch = OmegaTFT.init_scratch();
    let m = OmegaTFT.next_move_stateful(&[C, C], &opp, &mut scratch, &mut rng());
    assert_eq!(m, *opp.last().unwrap());
    match scratch {
        StrategyScratch::OmegaDetector { inconsistencies, processed } => {
            assert_eq!(inconsistencies, 1);
            assert_eq!(processed, 3);
        }
        _ => panic!("OmegaTFT keeps an Omega scratch"),
    }
}

#[test]
fn omega_scratch_counts_every_round_of_equal_histories() {
    let my = [C, C, C, C, C, C, C, C, C, C, C, C];
    let opp = [C, D, D, D, D, D, D, D, C, C, C, C];
    let mut scratch = OmegaTFT.init_scratch();
    for t in 0..=my.len() {
        let stateful = OmegaTFT.next_move_stateful(&my[..t], &opp[..t], &mut scratch, &mut rng());
        assert_eq!(stateful, decide(&OmegaTFT, &my[..t], &opp[..t]));
    }
    match scratch {
        StrategyScratch::OmegaDetector { inconsistencies, processed } => {
            assert_eq!(inconsistencies, 7);
            assert_eq!(processed, 12);
        }
        _ => panic!("OmegaTFT keeps an Omega scratch"),
    }
    assert_eq!(decide(&OmegaTFT, &my, &opp), D);
}

#[test]
fn wsls_and_memory_one_read_each_last_move() {
    let pavlov_like = StochasticWSLS::new("p".to_string(), (1, 1), (1, 1));
    // My last move D, the opponent's last C: a win, so stay with D.
    assert_eq!(decide(&pavlov_like, &[C, D], &[C, C, D, C]), D);
    assert_eq!(decide(&pavlov_like, &[C], &[]), C);
}
