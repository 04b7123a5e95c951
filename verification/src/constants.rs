//! World and physics constants, all in milli-units: 1000 milli = 1.0
//! world unit (one pixel of the plane, one unit of energy, one radian).

use vstd::prelude::*;

verus! {

/// Fixed-point scale: 1000 milli-units = 1.0.
pub const SCALE: i64 = 1000;

// World population at construction.
pub const AGENT_COUNT: usize = 800;
pub const FOOD_COUNT: usize = 100;
pub const PREDATOR_COUNT: usize = 5;
pub const ROCK_COUNT: usize = 15;
pub const MUD_COUNT: usize = 10;
/// Number of tribe color tags.
pub const TRIBE_COUNT: u8 = 4;

// Physics.
pub const AGENT_SPEED_MODIFIER: i64 = 1500;
pub const TURN_SPEED: i64 = 200;

// Energy and metabolism.
pub const STARTING_ENERGY: i64 = 100_000;
pub const FOOD_ENERGY: i64 = 40_000;
pub const ENERGY_CAP: i64 = 200_000;
pub const MOVE_COST: i64 = 200;
pub const WARRIOR_THRESHOLD: i64 = 150_000;
pub const BATTLE_COST: i64 = 50_000;
/// Energy value that marks an agent killed by a predator within a tick.
pub const DEATH_SENTINEL: i64 = -10_000;
/// Energy each tournament-selected parent pays at a birth.
pub const PARENT_COST: i64 = 20_000;
/// Energy a bred offspring starts with.
pub const OFFSPRING_ENERGY: i64 = 60_000;

// Interaction radii.
pub const EAT_RADIUS: i64 = 10_000;
pub const PREDATOR_KILL_RADIUS: i64 = 15_000;
pub const WHISKER_LEN: i64 = 50_000;
/// Radius within which another agent's voice is heard.
pub const HEARING_RADIUS: i64 = 100_000;

// Evolution.
pub const BASE_MUTATION_RATE: i64 = 100;
pub const DEFAULT_REPRODUCTION_THRESHOLD: i64 = 60_000;
/// Candidates drawn in one tournament.
pub const TOURNAMENT_SIZE: usize = 5;

// Controller topology: the sensing vector and the network input arity
// agree by construction.
pub const INPUT_COUNT: usize = 11;
pub const HIDDEN_COUNT: usize = 8;
pub const OUTPUT_COUNT: usize = 3;
/// INPUT_COUNT * HIDDEN_COUNT.
pub const INPUT_WEIGHTS: usize = 88;
/// HIDDEN_COUNT * OUTPUT_COUNT.
pub const OUTPUT_WEIGHTS: usize = 24;
/// HIDDEN_COUNT + OUTPUT_COUNT.
pub const BIAS_COUNT: usize = 11;
/// Weights and biases are clamped into [-WEIGHT_LIMIT, WEIGHT_LIMIT].
pub const WEIGHT_LIMIT: i64 = 1_000_000_000;
/// Controller inputs are clamped into [-INPUT_LIMIT, INPUT_LIMIT].
pub const INPUT_LIMIT: i64 = 10_000;

// Angles, in milli-radians.
pub const PI_MILLI: i64 = 3141;
pub const TWO_PI_MILLI: i64 = 6283;
pub const HALF_PI_MILLI: i64 = 1571;
/// Whisker heading offset (0.78 rad).
pub const WHISKER_OFFSET: i64 = 780;

// Defaults of the control surface.
pub const DEFAULT_PREDATOR_SPEED: i64 = 2200;
pub const PREDATOR_SEPARATION_RADIUS: i64 = 30_000;
pub const PREDATOR_SEPARATION_PUSH: i64 = 800;

// Sentinel distances reported when a scan finds nothing nearer.
pub const SENSE_SENTINEL: i64 = 9_999_000;
pub const PREDATOR_SCAN_SENTINEL: i64 = 999_999_000;

// View state.
pub const ZOOM_MIN: i64 = 100;
pub const ZOOM_MAX: i64 = 5000;
pub const VIEW_LIMIT: i64 = 1_000_000_000_000;

/// Cell size of the spatial index the world rebuilds every tick.
pub const GRID_CELL_SIZE: i64 = 100_000;

// Machine limits: bounds that keep every intermediate 64-bit value exact.
pub const MAX_COORD: i64 = 100_000_000;
pub const MAX_AGENTS: usize = 100_000;
pub const MAX_PREDATORS: usize = 10_000;
pub const MAX_FOOD: usize = 1_000_000;
pub const MAX_TERRAIN: usize = 10_000;
pub const MAX_ENERGY_ABS: i64 = 10_000_000_000_000;
pub const MAX_RATE: i64 = 1_000_000_000_000;
pub const MAX_THRESHOLD_ABS: i64 = 1_000_000_000_000;
pub const MAX_PREDATOR_SPEED: i64 = 100_000_000;
pub const MAX_GRID_CELLS: usize = 1_000_000;

} // verus!
