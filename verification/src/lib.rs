//! Core simulation of a two-player arena game: players hop across a grid of
//! claimable blocks while a rising lava plane removes the lowest rows,
//! crediting each removed block's value to its owner. All world coordinates
//! and times are fixed-point integers: one grid cell is `MILLI` milli-units
//! wide, and time is counted in milliseconds.

use vstd::prelude::*;

pub mod ai;
pub mod block;
pub mod game;
pub mod laws;
pub mod motion;
pub mod numeric;
pub mod player;
pub mod rng;

verus! {

/// Milli-units per world unit: the fixed-point scale of every coordinate.
pub const MILLI: i64 = 1000;

/// A coordinate bound generous enough for any simulation run; every world
/// coordinate stays within it so that fixed-point arithmetic cannot overflow.
pub const COORD_LIMIT: i64 = 1_000_000_000_000;

} // verus!
