//! An ant colony simulation on fixed-point arithmetic: a decaying, diffusing
//! pheromone field, ants that forage and steer by it, food sources and a nest
//! that turns stored food into new ants.

pub mod ant;
pub mod config;
pub mod diffusion;
pub mod food;
pub mod geometry;
pub mod nest;
pub mod rng;
pub mod simulation;
pub mod steering;
pub mod sum;
pub mod track;
