//! The parameterised families of the generative population.

use game_theory::strategies::families::{
    generative_families, Backstabber, GradualFamily, HandshakeCode, OmegaDetectorFamily, PatternMatcher,
};
use game_theory::Action::{self, Cooperate as C, Defect as D};
use game_theory::{ChaCha8Rng, Strategy};
use rand::SeedableRng;

fn rng() -> ChaCha8Rng {
    ChaCha8Rng::seed_from_u64(21)
}

fn decide(s: &dyn Strategy, my: &[Action], opp: &[Action]) -> Action {
    s.next_move(my, opp, &mut rng())
}

fn stateful_moves(s: &dyn Strategy, my: &[Action], opp: &[Action]) -> Vec<Action> {
    let mut scratch = s.init_scratch();
    (0..=my.len())
        .map(|t| s.next_move_stateful(&my[..t], &opp[..t], &mut scratch, &mut rng()))
        .collect()
}

fn stateless_moves(s: &dyn Strategy, my: &[Action], opp: &[Action]) -> Vec<Action> {
    (0..=my.len()).map(|t| decide(s, &my[..t], &opp[..t])).collect()
}

#[test]
fn population_order_and_names() {
    let all = generative_families();
    assert_eq!(all.len(), 610);
    let expected = [
        (0, "Reactive (p=0.1, q=0.1)"),
        (1, "Reactive (p=0.1, q=0.2)"),
        (99, "Reactive (p=1.0, q=1.0)"),
        (100, "Pattern Matcher (W=2)"),
        (109, "Pattern Matcher (W=11)"),
        (110, "Adaptive TFT (Target 2%)"),
        (160, "Backstabber (T=10)"),
        (209, "Backstabber (T=500)"),
        (210, "Bully (2%)"),
        (259, "Bully (100%)"),
        (260, "Forgiving TFT (1.0%)"),
        (359, "Forgiving TFT (100.0%)"),
        (360, "Gradual (x1)"),
        (409, "Gradual (x50)"),
        (410, "Handshake (Code #1)"),
        (460, "Omega-Detector (Thresh 2)"),
        (509, "Omega-Detector (Thresh 51)"),
        (510, "Biased Random (1%)"),
        (609, "Biased Random (100%)"),
    ];
    for (i, name) in expected {
        assert_eq!(all[i].name(), name, "member {}", i);
    }
}

#[test]
fn certain_members_are_deterministic() {
    let all = generative_families();
    let mut r = rng();
    for _ in 0..50 {
        // Reactive (1.0, 1.0) always cooperates.
        assert_eq!(all[99].next_move(&[C], &[D], &mut r), C);
        // Bully (100%) inverts the opponent's last move.
        assert_eq!(all[259].next_move(&[C], &[C], &mut r), D);
        assert_eq!(all[259].next_move(&[C], &[D], &mut r), C);
        assert_eq!(all[259].next_move(&[], &[], &mut r), C);
        // Forgiving TFT (100%) always forgives.
        assert_eq!(all[359].next_move(&[C], &[D], &mut r), C);
        // Biased Random (100%) always cooperates.
        assert_eq!(all[609].next_move(&[], &[], &mut r), C);
        // Any Forgiving TFT cooperates after a cooperation.
        assert_eq!(all[260].next_move(&[C], &[C], &mut r), C);
    }
}

#[test]
fn pattern_matcher_defects_on_a_repeated_window() {
    let pm = PatternMatcher::new(2);
    assert_eq!(decide(&pm, &[C, C, C], &[C, D, C]), C);
    assert_eq!(decide(&pm, &[C; 4], &[C, D, C, D]), D);
    assert_eq!(decide(&pm, &[C; 4], &[C, C, C, D]), D);
    assert_eq!(decide(&pm, &[C; 4], &[D, C, C, C]), C);
}

#[test]
fn backstabber_turns_at_its_round() {
    let b = Backstabber::new(10);
    assert_eq!(decide(&b, &[C; 9], &[C; 9]), C);
    assert_eq!(decide(&b, &[C; 10], &[C; 10]), D);
    assert_eq!(decide(&b, &[C; 30], &[C; 30]), D);
}

#[test]
fn handshake_codes_open_by_parity() {
    let odd = HandshakeCode::new(1);
    let opening: Vec<Action> = (0..3).map(|t| decide(&odd, &vec![C; t], &vec![C; t])).collect();
    assert_eq!(opening, vec![D, C, D]);
    // A partner with the same code is answered like Tit For Tat.
    assert_eq!(decide(&odd, &[D, C, D], &[D, C, D]), D);
    assert_eq!(decide(&odd, &[D, C, D, D], &[D, C, D, C]), C);
    // A stranger is punished.
    assert_eq!(decide(&odd, &[D, C, D, D], &[C, C, C, C]), D);
}

#[test]
fn gradual_family_scratch_agrees_with_rescan() {
    let g = GradualFamily::new(10);
    let opp = [C, D, C, C, C, D, C, C, C, C, C, D, D, C, C];
    let my = [C; 15];
    assert_eq!(stateful_moves(&g, &my, &opp), stateless_moves(&g, &my, &opp));
    // The first defection is punished for 1 * 10 / 10 + 1 = 2 rounds.
    assert_eq!(decide(&g, &my[..2], &opp[..2]), D);
    assert_eq!(decide(&g, &my[..3], &opp[..3]), D);
    assert_eq!(decide(&g, &my[..4], &opp[..4]), C);
}

#[test]
fn omega_detector_scratch_agrees_with_rescan() {
    let o = OmegaDetectorFamily::new(4);
    let my = [C, C, C, C, C, C, C, C];
    let opp = [C, D, C, D, D, C, C, C];
    assert_eq!(stateful_moves(&o, &my, &opp), stateless_moves(&o, &my, &opp));
    // Three inconsistencies exceed 4 / 2: defect.
    assert_eq!(decide(&o, &my, &opp), D);
    // Below the threshold length it copies.
    assert_eq!(decide(&o, &my[..2], &opp[..2]), D);
    assert_eq!(decide(&o, &my[..3], &opp[..3]), C);
}
