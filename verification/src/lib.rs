//! A simulation of cells that move, feed, reproduce and evolve on a field
//! with food, advanced in ticks. Fractions are fixed-point numbers, so that a
//! run is the same on every machine, and every function carries a contract
//! that Verus proves.

pub mod angle;
pub mod cell;
pub mod fixed;
pub mod food;
pub mod genes;
pub mod randoms;
pub mod simulator;
pub mod statistics;
pub mod tick;
