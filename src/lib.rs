//! Lifelong artificial-life simulation: creatures on a torus sense food and
//! neighbours, steer with a small genome-encoded network, and are replaced in
//! place by an evolutionary engine between epochs.
pub mod network;
pub mod rng;
pub mod geometry;
pub mod eye;
pub mod config;
pub mod brain;
pub mod animal;
pub mod animal_individual;
pub mod median;
pub mod simulation;
