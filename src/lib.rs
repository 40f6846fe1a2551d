//! Core of a small multiplayer guessing game: the catalog of numeric
//! predicates, the binary wire codec and the session state machine.

pub mod catalog;
pub mod messaging;
pub mod game;

pub use catalog::{GameAxiom, probability_counts};
