//! Compact fixed-point 2D vectors for the wire.
use vstd::prelude::*;

verus! {

/// A 2D vector quantised to `i16` components (world units times the
/// quantisation scale, rounded).
#[derive(Debug, Clone, Copy, PartialEq, Eq, Structural, Hash)]
pub struct Vec2i16 {
    pub x: i16,
    pub y: i16,
}

impl Vec2i16 {
    /// The zero vector.
    pub fn zero() -> (r: Self)
        ensures
            r.x == 0,
            r.y == 0,
    {
        Vec2i16 { x: 0, y: 0 }
    }

    /// Builds a vector from raw quantised components.
    pub fn new(x: i16, y: i16) -> (r: Self)
        ensures
            r.x == x,
            r.y == y,
    {
        Vec2i16 { x, y }
    }
}

impl Default for Vec2i16 {
    fn default() -> (r: Self)
        ensures
            r.x == 0,
            r.y == 0,
    {
        Vec2i16 { x: 0, y: 0 }
    }
}

} // verus!
