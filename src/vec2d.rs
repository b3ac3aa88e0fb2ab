use vstd::prelude::*;

verus! {

/// A two-dimensional vector with integer coordinates.
#[derive(Clone, Copy, Debug, PartialEq, Eq, Structural)]
pub struct Vec2D {
    pub x: i64,
    pub y: i64,
}

impl Vec2D {
    /// Componentwise sum.
    pub fn add(self, rhs: Vec2D) -> (r: Vec2D)
        requires
            i64::MIN <= self.x + rhs.x <= i64::MAX,
            i64::MIN <= self.y + rhs.y <= i64::MAX,
        ensures
            r.x == self.x + rhs.x,
            r.y == self.y + rhs.y,
    {
        Vec2D { x: self.x + rhs.x, y: self.y + rhs.y }
    }

    /// Componentwise product with a scalar.
    pub fn mul(self, k: i64) -> (r: Vec2D)
        requires
            i64::MIN <= self.x * k <= i64::MAX,
            i64::MIN <= self.y * k <= i64::MAX,
        ensures
            r.x == self.x * k,
            r.y == self.y * k,
    {
        Vec2D { x: self.x * k, y: self.y * k }
    }
}

} // verus!
