//! Per-frame simulation kernel of a small first-person forest game, on a
//! fixed-point model of the playfield.
//!
//! Lengths are counted in thousandths of a world unit, angles in
//! milliradians, times in milliseconds and velocities in thousandths of a
//! world unit per second. The host supplies what needs trigonometry or noise
//! (heading vectors, terrain heights) as integers in the same units.
use vstd::prelude::*;

pub mod enemies;
pub mod fixed;
pub mod game;
pub mod player;
pub mod rng;
pub mod seqs;
pub mod view;
pub mod world;

verus! {

} // verus!
