//! Points of the integer lattice on which bodies live.
use vstd::prelude::*;

verus! {

/// A point of the lattice. Both axes are non-negative; `y` grows southward.
#[derive(Debug, Clone, Copy, PartialEq, Eq, Structural)]
pub struct Coordinate {
    pub x: u32,
    pub y: u32,
}

/// Squared Euclidean distance between two points.
pub open spec fn dist_sq(a: Coordinate, b: Coordinate) -> int {
    (a.x - b.x) * (a.x - b.x) + (a.y - b.y) * (a.y - b.y)
}

/// The sign pair that orients a force from `a` towards `b`: on each axis
/// `-1` when `a` lies strictly below `b` on that axis, else `+1`.
pub open spec fn direction(a: Coordinate, b: Coordinate) -> (i8, i8) {
    (if a.x < b.x { -1i8 } else { 1i8 }, if a.y < b.y { -1i8 } else { 1i8 })
}

impl Coordinate {
    pub fn new(x: u32, y: u32) -> (r: Self)
        ensures
            r.x == x,
            r.y == y,
    {
        Coordinate { x, y }
    }

    pub fn get_x(&self) -> (r: u32)
        ensures
            r == self.x,
    {
        self.x
    }

    pub fn get_y(&self) -> (r: u32)
        ensures
            r == self.y,
    {
        self.y
    }

    /// Squared distance to `other`, exact.
    pub fn get_distance_squared(&self, other: Coordinate) -> (r: u128)
        ensures
            r == dist_sq(*self, other),
    {
        let dx: u128 = if self.x >= other.x {
            (self.x - other.x) as u128
        } else {
            (other.x - self.x) as u128
        };
        let dy: u128 = if self.y >= other.y {
            (self.y - other.y) as u128
        } else {
            (other.y - self.y) as u128
        };
        assert(dx * dx <= 0xffff_ffffu128 * 0xffff_ffffu128) by (nonlinear_arith)
            requires
                dx <= 0xffff_ffffu128,
        ;
        assert(dy * dy <= 0xffff_ffffu128 * 0xffff_ffffu128) by (nonlinear_arith)
            requires
                dy <= 0xffff_ffffu128,
        ;
        assert(dx * dx == (self.x - other.x) * (self.x - other.x)) by (nonlinear_arith)
            requires
                dx == self.x - other.x || dx == other.x - self.x,
        ;
        assert(dy * dy == (self.y - other.y) * (self.y - other.y)) by (nonlinear_arith)
            requires
                dy == self.y - other.y || dy == other.y - self.y,
        ;
        dx * dx + dy * dy
    }

    /// Sign pair that, applied to a force of the restricted arctangent bearing,
    /// points it the right way.
    pub fn get_direction(&self, other: Coordinate) -> (r: (i8, i8))
        ensures
            r == direction(*self, other),
    {
        let x: i8 = if self.x < other.x {
            -1
        } else {
            1
        };
        let y: i8 = if self.y < other.y {
            -1
        } else {
            1
        };
        (x, y)
    }
}

} // verus!
