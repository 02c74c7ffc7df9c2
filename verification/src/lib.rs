//! A toroidal-grid artificial-life engine.
//!
//! A square lattice of cells, each empty or occupied by one individual of
//! one species, evolves over discrete ticks under predation, foraging,
//! starvation, reproduction and periodic evolutionary pressure.  All
//! probabilities are fixed-point fractions of [`SCALE`], so every rule is
//! exact integer arithmetic.

use vstd::prelude::*;

pub mod grid;
pub mod rng;
pub mod species;
pub mod sim;
pub mod eat;
pub mod starve;
pub mod repro;
pub mod evolve;

verus! {

/// Fixed-point denominator: a probability `p` is an integer in `[0, SCALE]`
/// meaning `p / SCALE`, and a uniform draw is an integer in `[0, SCALE)`.
pub const SCALE: u64 = 1_000_000;

/// Largest accepted grid side length; keeps `size * size` within `u32` range
/// so index arithmetic and population counters cannot overflow.
pub const MAX_GRID_SIZE: usize = 46_340;

/// Largest accepted number of species; keeps species ids within `i32` range.
pub const MAX_SPECIES: usize = 1_000_000;

/// Minimum winning Moore-neighbourhood tally for a birth.
pub const REPRO_LIMIT: usize = 2;

/// Chance (out of [`SCALE`]) that evolutionary pressure re-rolls a species'
/// predation-eligibility vector.
pub const REROLL_PROB: u64 = 50_000;

/// Chance (out of [`SCALE`]) that a re-rolled eligibility entry is set.
pub const EAT_PROB: u64 = 650_000;

/// Chance (out of [`SCALE`]) that a hazard cell survives one decay step.
pub const HAZARD_KEEP_PROB: u64 = 950_000;

} // verus!
