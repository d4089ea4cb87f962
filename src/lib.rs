pub mod automaton;
pub mod image;
pub mod rng;
pub mod rules;
pub mod simulation;
