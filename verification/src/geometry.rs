//! Plane coordinates in whole world units.

use vstd::prelude::*;

verus! {

/// A point or a velocity in the plane. The origin is the centre of the screen,
/// x grows to the right and y grows upward.
#[derive(Clone, Copy, Debug, PartialEq, Eq, Structural)]
pub struct Vector2 {
    pub x: i32,
    pub y: i32,
}

impl Vector2 {
    /// The origin, which is also the velocity of a body at rest.
    pub open spec fn zero() -> Vector2 {
        Vector2 { x: 0, y: 0 }
    }
}

} // verus!
