//! An evolutionary micro-ecosystem: mobile agents steered by small
//! feed-forward neural controllers forage for food, evade predators,
//! navigate rocks and mud, and reproduce by crossover and mutation.
//!
//! All quantities are fixed-point integers in milli-units (1000 = 1.0),
//! and all randomness comes from a seeded generator owned by the world,
//! so every run is deterministic and every routine is verified.

pub mod brain;
pub mod constants;
pub mod fixed;
pub mod rng;
pub mod simulation;
pub mod spatial_grid;
