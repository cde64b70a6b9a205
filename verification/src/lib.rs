//! An iterated prisoner's dilemma engine: moves and payoffs, the strategy
//! interface, single matches with noise and discounting, round-robin
//! scheduling and a spatial cellular automaton.

pub mod action;
pub mod census;
pub mod chance;
pub mod game;
pub mod spatial;
pub mod strategies;
pub mod strategy;
pub mod tournament;

pub use action::{Action, History};
pub use rand_chacha::ChaCha8Rng;
pub use game::Game;

pub use spatial::{Neighborhood, SpatialTournament};
pub use tournament::{MatchRecord, Tournament};
pub use strategy::{Strategy, StrategyScratch};

