//! Axis-aligned squares of the lattice and their fixed split into four.
use vstd::prelude::*;

use crate::coordinate::Coordinate;

verus! {

/// The square `[x, x + length] x [y - length, y]`: `(x, y)` is its
/// south-west corner, and north lies toward smaller `y`.
#[derive(Debug, Clone, Copy, PartialEq, Eq, Structural)]
pub struct Quadrant {
    pub x: u32,
    pub y: u32,
    pub length: u32,
}

impl Quadrant {
    /// Whether the whole square lies on the lattice, so that its
    /// children can be represented.
    pub open spec fn fits(self) -> bool {
        self.x + self.length <= u32::MAX && self.length <= self.y
    }

    /// Boundary-inclusive containment.
    pub open spec fn holds(self, c: Coordinate) -> bool {
        &&& self.x <= c.x <= self.x + self.length
        &&& self.y - self.length <= c.y <= self.y
    }

    /// Side length of each child: half the parent's, rounded down.
    pub open spec fn half(self) -> u32 {
        (self.length / 2) as u32
    }

    /// Offset of the eastern and northern children: half the parent's side,
    /// rounded up. For an odd side the two halves are then one lattice step
    /// apart, so every lattice point of the parent lies in exactly one child
    /// column and one child row.
    pub open spec fn offset(self) -> u32 {
        (self.length - self.length / 2) as u32
    }

    /// Any square of positive side has strictly smaller children. A square of
    /// side zero is a single lattice point.
    pub open spec fn splittable(self) -> bool {
        self.length >= 1
    }

    pub open spec fn ne_child(self) -> Quadrant {
        Quadrant {
            x: (self.x + self.offset()) as u32,
            y: (self.y - self.offset()) as u32,
            length: self.half(),
        }
    }

    pub open spec fn nw_child(self) -> Quadrant {
        Quadrant { x: self.x, y: (self.y - self.offset()) as u32, length: self.half() }
    }

    pub open spec fn se_child(self) -> Quadrant {
        Quadrant { x: (self.x + self.offset()) as u32, y: self.y, length: self.half() }
    }

    pub open spec fn sw_child(self) -> Quadrant {
        Quadrant { x: self.x, y: self.y, length: self.half() }
    }

    pub fn new(x: u32, y: u32, length: u32) -> (r: Self)
        ensures
            r.x == x,
            r.y == y,
            r.length == length,
    {
        Quadrant { x, y, length }
    }

    pub fn get_x(&self) -> (r: u32)
        ensures
            r == self.x,
    {
        self.x
    }

    pub fn get_y(&self) -> (r: u32)
        ensures
            r == self.y,
    {
        self.y
    }

    pub fn get_length(&self) -> (r: u32)
        ensures
            r == self.length,
    {
        self.length
    }

    /// The four children in the order northeast, northwest, southeast,
    /// southwest, each of half the side length (rounded down), the eastern and
    /// northern ones offset by half the side rounded up. Together they hold
    /// exactly the parent's lattice points.
    pub fn get_child_quadrants(&self) -> (r: (Quadrant, Quadrant, Quadrant, Quadrant))
        requires
            self.fits(),
        ensures
            r == (self.ne_child(), self.nw_child(), self.se_child(), self.sw_child()),
            r.0.fits() && r.1.fits() && r.2.fits() && r.3.fits(),
            forall|c: Coordinate|
                self.holds(c) <==> (r.0.holds(c) || r.1.holds(c) || r.2.holds(c) || r.3.holds(c)),
    {
        let h = self.length / 2;
        let o = self.length - h;
        (
            Quadrant { x: self.x + o, y: self.y - o, length: h },
            Quadrant { x: self.x, y: self.y - o, length: h },
            Quadrant { x: self.x + o, y: self.y, length: h },
            Quadrant { x: self.x, y: self.y, length: h },
        )
    }

    /// Whether `coordinate` lies in the square, edges included.
    pub fn contains(&self, coordinate: &Coordinate) -> (r: bool)
        ensures
            r == self.holds(*coordinate),
    {
        let x_end = self.x as u64 + self.length as u64;
        let y_start = self.y as i64 - self.length as i64;
        let x_contains = coordinate.x >= self.x && coordinate.x as u64 <= x_end;
        let y_contains = coordinate.y as i64 >= y_start && coordinate.y <= self.y;
        x_contains && y_contains
    }
}

/// The four children of a square cover it exactly, whatever its side: every
/// lattice point of the parent lies in one of them, and every point of a
/// child lies in the parent.
pub proof fn lemma_children_tile(q: Quadrant, c: Coordinate)
    requires
        q.fits(),
    ensures
        q.holds(c) <==> (q.ne_child().holds(c) || q.nw_child().holds(c) || q.se_child().holds(c)
            || q.sw_child().holds(c)),
{
}

/// Children overlap only on shared edges: when the side is odd no lattice
/// point lies in two of them; when it is even two children share at most
/// the line between them.
pub proof fn lemma_children_disjoint(q: Quadrant, c: Coordinate)
    requires
        q.fits(),
    ensures
        q.length % 2 == 1 ==> {
            &&& !(q.ne_child().holds(c) && q.nw_child().holds(c))
            &&& !(q.ne_child().holds(c) && q.se_child().holds(c))
            &&& !(q.ne_child().holds(c) && q.sw_child().holds(c))
            &&& !(q.nw_child().holds(c) && q.se_child().holds(c))
            &&& !(q.nw_child().holds(c) && q.sw_child().holds(c))
            &&& !(q.se_child().holds(c) && q.sw_child().holds(c))
        },
        q.ne_child().holds(c) && q.nw_child().holds(c) ==> c.x == q.x + q.half(),
        q.se_child().holds(c) && q.sw_child().holds(c) ==> c.x == q.x + q.half(),
        q.ne_child().holds(c) && q.se_child().holds(c) ==> c.y == q.y - q.half(),
        q.nw_child().holds(c) && q.sw_child().holds(c) ==> c.y == q.y - q.half(),
{
}

} // verus!
