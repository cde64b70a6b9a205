//! The strategies of the library.

pub mod alternator;
pub mod always_cooperate;
pub mod always_defect;
pub mod bayesian;
pub mod detective;
pub mod families;
pub mod gradual;
pub mod grudger;
pub mod handshake;
pub mod history;
pub mod joss;
pub mod labels;
pub mod omega_tft;
pub mod pavlov;
pub mod q_learning;
pub mod random;
pub mod soft_grudger;
pub mod statistical;
pub mod suspicious_tit_for_tat;
pub mod tit_for_tat;
pub mod tit_for_tat_with_forgiveness;
pub mod tit_for_two_tats;
pub mod wsls;
pub mod zd;
