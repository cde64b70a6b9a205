//! The Q-learner's state code, the archetype predictions and strategy labels.

use game_theory::strategies::bayesian::Archetype;
use game_theory::strategies::labels::{numbered_label, tenths_label};
use game_theory::strategies::q_learning::encode_state;
use game_theory::Action::{Cooperate as C, Defect as D};

#[test]
fn state_code_packs_the_last_rounds() {
    assert_eq!(encode_state(&[], &[], 2), 0);
    // One round (my D, opponent C) is the digit 2.
    assert_eq!(encode_state(&[D], &[C], 1), 2);
    // Two rounds, oldest first: (C, D) then (D, D) is 1 * 4 + 3.
    assert_eq!(encode_state(&[C, D], &[D, D], 2), 7);
    // Only the last k rounds count.
    assert_eq!(encode_state(&[D, C, D], &[D, D, D], 2), 1 * 4 + 3);
    // A shorter history uses all it has.
    assert_eq!(encode_state(&[D], &[D], 3), 3);
}

#[test]
fn archetypes_predict_and_abbreviate() {
    assert_eq!(Archetype::AlwaysC.predicted(&[D]), Some(C));
    assert_eq!(Archetype::AlwaysD.predicted(&[]), Some(D));
    assert_eq!(Archetype::TitForTat.predicted(&[]), Some(C));
    assert_eq!(Archetype::TitForTat.predicted(&[C, D]), Some(D));
    assert_eq!(Archetype::Random.predicted(&[C]), None);
    let shorts: Vec<&str> =
        [Archetype::AlwaysC, Archetype::AlwaysD, Archetype::TitForTat, Archetype::Random].iter().map(|a| a.short()).collect();
    assert_eq!(shorts, vec!["AC", "AD", "TFT", "RND"]);
}

#[test]
fn labels_write_decimal_numbers() {
    assert_eq!(numbered_label("Gradual (x", 0, ")"), "Gradual (x0)");
    assert_eq!(numbered_label("T=", 1234567890, ""), "T=1234567890");
    assert_eq!(numbered_label("", u64::MAX, "!"), format!("{}!", u64::MAX));
    assert_eq!(tenths_label("p=", 7, ""), "p=0.7");
    assert_eq!(tenths_label("p=", 10, "%"), "p=1.0%");
    assert_eq!(tenths_label("", 123, ""), "12.3");
}
