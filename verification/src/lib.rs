//! A small two-dimensional gravity simulator: point-mass bodies, pairwise
//! gravitational acceleration, a two-phase (compute-then-commit) integrator,
//! and a closed-form initializer for circular orbits.
//!
//! All kinematic quantities are fixed-point values: an `i128` holds the
//! quantity multiplied by [`fixed::SCALE`]. Positions are micrometres,
//! velocities micrometres per second, masses microkilograms, and time deltas
//! microseconds. Every arithmetic step of the simulation is specified exactly
//! over these integers, so a step has one defined result on every input.

pub mod body;
pub mod fixed;
pub mod laws;
pub mod orbit;
pub mod params;
pub mod rng;
pub mod vec2;
pub mod world;
