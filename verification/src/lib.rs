//! Geometry and collision rules of a side-scrolling arcade shooter.
//!
//! Shapes are points, circles, axis-aligned rectangles and groups of those.
//! Every operation is stated over the mathematical view of a shape and proved
//! against it.

use vstd::prelude::*;

mod chance;
pub mod collide;
pub mod enemy;
pub mod player;
pub mod projectile;
pub mod shape;
pub mod starfield;

verus! {

/// Width of the playfield in pixels.
pub const WIDTH: u32 = 512;

/// Height of the playfield in pixels.
pub const HEIGHT: u32 = 384;

} // verus!
