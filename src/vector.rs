//! Two-dimensional integer vectors in world units.
use vstd::prelude::*;

verus! {

/// A 2D vector of integer world units (positions), or of world units per
/// second (velocities), or of force units (forces, impulses).
#[derive(Clone, Copy, Debug, PartialEq, Eq, Structural)]
pub struct Vector {
    pub x: i32,
    pub y: i32,
}

impl Vector {
    /// The zero vector.
    pub open spec fn zero_spec() -> Vector {
        Vector { x: 0, y: 0 }
    }

    /// The zero vector.
    #[verifier::when_used_as_spec(zero_spec)]
    pub fn zero() -> (r: Vector)
        ensures
            r == Vector::zero_spec(),
    {
        Vector { x: 0, y: 0 }
    }

    /// Builds a vector from its two components.
    pub fn new(x: i32, y: i32) -> (r: Vector)
        ensures
            r.x == x && r.y == y,
    {
        Vector { x, y }
    }
}

} // verus!
