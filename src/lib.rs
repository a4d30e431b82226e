//! An arcade simulation on a wrap-around field: a ship shoots drifting asteroids, which split
//! when hit, across levels of growing pace, while rare special asteroids disrupt the controls.
//! The world advances in fixed frames; all lengths are integers in `geometry::UNIT`s per pixel
//! and headings are in tenths of a degree.
use vstd::prelude::*;

pub mod entities;
pub mod game;
pub mod geometry;
pub mod laws;
pub mod rng;
pub mod rules;

pub use game::{DisruptionType, Game, Overlay, Sound};

verus! {

} // verus!
