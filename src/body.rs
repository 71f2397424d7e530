//! Point masses and their exact mass-weighted aggregation.
use vstd::prelude::*;

use crate::coordinate::{Coordinate, dist_sq};

verus! {

/// Largest coordinate value on either axis.
pub const COORD_MAX: u32 = 0xffff_ffff;

/// A point mass. Real bodies carry `Some(identity)`; aggregates built from
/// several bodies carry `None`, so they can never be mistaken for a real one.
#[derive(Debug, Clone, Copy, PartialEq, Eq, Structural)]
pub struct Body {
    pub id: Option<u64>,
    pub mass: u64,
    pub coordinate: Coordinate,
}

/// Floor of the mass-weighted mean `moment / mass`; zero for no mass.
pub open spec fn mean(mass: int, moment: int) -> int {
    if mass == 0 {
        0
    } else {
        moment / mass
    }
}

/// Total mass and first moments (mass times position, per axis) of a
/// collection of bodies. The centroid is `moment / mass` on each axis.
#[derive(Debug, Clone, Copy, PartialEq, Eq, Structural)]
pub struct MassMoment {
    pub mass: u64,
    pub x: u128,
    pub y: u128,
}

/// The moment of a single body.
pub open spec fn body_moment(b: Body) -> MassMoment {
    MassMoment {
        mass: b.mass,
        x: (b.mass * b.coordinate.x) as u128,
        y: (b.mass * b.coordinate.y) as u128,
    }
}

impl MassMoment {
    /// Every position summed lies on the lattice.
    pub open spec fn wf(self) -> bool {
        self.x <= self.mass * COORD_MAX && self.y <= self.mass * COORD_MAX
    }

    pub open spec fn plus(self, o: MassMoment) -> MassMoment {
        MassMoment {
            mass: (self.mass + o.mass) as u64,
            x: (self.x + o.x) as u128,
            y: (self.y + o.y) as u128,
        }
    }

    pub open spec fn centroid(self) -> Coordinate {
        Coordinate { x: mean(self.mass as int, self.x as int) as u32, y: mean(self.mass as int, self.y as int) as u32 }
    }

    /// The synthetic body that stands for the whole collection.
    pub open spec fn aggregate(self) -> Body {
        Body { id: None, mass: self.mass, coordinate: self.centroid() }
    }

    pub fn zero() -> (r: MassMoment)
        ensures
            r == (MassMoment { mass: 0, x: 0, y: 0 }),
            r.wf(),
    {
        MassMoment { mass: 0, x: 0, y: 0 }
    }

    pub fn of(b: &Body) -> (r: MassMoment)
        ensures
            r == body_moment(*b),
            r.wf(),
            r.mass == b.mass,
            r.x == b.mass * b.coordinate.x,
            r.y == b.mass * b.coordinate.y,
    {
        proof {
            lemma_body_moment(*b);
        }
        MassMoment {
            mass: b.mass,
            x: b.mass as u128 * b.coordinate.x as u128,
            y: b.mass as u128 * b.coordinate.y as u128,
        }
    }

    pub fn add(&self, o: &MassMoment) -> (r: MassMoment)
        requires
            self.wf(),
            o.wf(),
            self.mass + o.mass <= u64::MAX,
        ensures
            r == self.plus(*o),
            r.wf(),
            r.mass == self.mass + o.mass,
            r.x == self.x + o.x,
            r.y == self.y + o.y,
    {
        proof {
            lemma_plus(*self, *o);
        }
        MassMoment { mass: self.mass + o.mass, x: self.x + o.x, y: self.y + o.y }
    }

    /// The aggregate body: total mass at the (floored) centroid.
    pub fn to_body(&self) -> (r: Body)
        requires
            self.wf(),
        ensures
            r == self.aggregate(),
            r.coordinate.x == mean(self.mass as int, self.x as int),
            r.coordinate.y == mean(self.mass as int, self.y as int),
    {
        proof {
            lemma_mean_on_lattice(self.mass as int, self.x as int);
            lemma_mean_on_lattice(self.mass as int, self.y as int);
        }
        if self.mass == 0 {
            Body { id: None, mass: 0, coordinate: Coordinate { x: 0, y: 0 } }
        } else {
            let x = (self.x / self.mass as u128) as u32;
            let y = (self.y / self.mass as u128) as u32;
            Body { id: None, mass: self.mass, coordinate: Coordinate { x, y } }
        }
    }
}

pub proof fn lemma_body_moment(b: Body)
    ensures
        body_moment(b).wf(),
        body_moment(b).x == b.mass * b.coordinate.x,
        body_moment(b).y == b.mass * b.coordinate.y,
{
    assert(b.mass * b.coordinate.x <= b.mass * COORD_MAX) by (nonlinear_arith)
        requires
            b.coordinate.x <= COORD_MAX,
    ;
    assert(b.mass * b.coordinate.y <= b.mass * COORD_MAX) by (nonlinear_arith)
        requires
            b.coordinate.y <= COORD_MAX,
    ;
    assert(b.mass * COORD_MAX <= u64::MAX * COORD_MAX) by (nonlinear_arith)
        requires
            b.mass <= u64::MAX,
    ;
}

pub proof fn lemma_plus(a: MassMoment, o: MassMoment)
    requires
        a.wf(),
        o.wf(),
        a.mass + o.mass <= u64::MAX,
    ensures
        a.plus(o).wf(),
        a.plus(o).mass == a.mass + o.mass,
        a.plus(o).x == a.x + o.x,
        a.plus(o).y == a.y + o.y,
{
    assert((a.mass + o.mass) * COORD_MAX == a.mass * COORD_MAX + o.mass * COORD_MAX)
        by (nonlinear_arith);
    assert((a.mass + o.mass) * COORD_MAX <= u64::MAX * COORD_MAX) by (nonlinear_arith)
        requires
            a.mass + o.mass <= u64::MAX,
    ;
}

/// A mean of lattice positions lies on the lattice.
pub proof fn lemma_mean_on_lattice(mass: int, moment: int)
    requires
        0 <= mass,
        0 <= moment <= mass * COORD_MAX,
    ensures
        0 <= mean(mass, moment) <= COORD_MAX,
{
    if mass > 0 {
        vstd::arithmetic::div_mod::lemma_div_is_ordered(moment, mass * COORD_MAX, mass);
        vstd::arithmetic::div_mod::lemma_div_multiples_vanish(COORD_MAX as int, mass);
        vstd::arithmetic::div_mod::lemma_div_pos_is_pos(moment, mass);
    }
}

impl Body {
    /// A real body with the given identity.
    pub fn new(id: u64, mass: u64, coordinate: Coordinate) -> (r: Self)
        ensures
            r.id == Some(id),
            r.mass == mass,
            r.coordinate == coordinate,
    {
        Body { id: Some(id), mass, coordinate }
    }

    pub fn get_id(&self) -> (r: Option<u64>)
        ensures
            r == self.id,
    {
        self.id
    }

    pub fn get_coordinate(&self) -> (r: Coordinate)
        ensures
            r == self.coordinate,
    {
        self.coordinate
    }

    pub fn get_mass(&self) -> (r: u64)
        ensures
            r == self.mass,
    {
        self.mass
    }

    /// The aggregate of two bodies: their summed mass at their mass-weighted
    /// centroid (floored), with no identity.
    pub fn add_body(&self, body: &Body) -> (r: Body)
        requires
            self.mass + body.mass <= u64::MAX,
        ensures
            r == body_moment(*self).plus(body_moment(*body)).aggregate(),
            r.id.is_none(),
            r.mass == self.mass + body.mass,
            r.coordinate.x == mean(
                self.mass + body.mass,
                self.mass * self.coordinate.x + body.mass * body.coordinate.x,
            ),
            r.coordinate.y == mean(
                self.mass + body.mass,
                self.mass * self.coordinate.y + body.mass * body.coordinate.y,
            ),
    {
        let a = MassMoment::of(self);
        let b = MassMoment::of(body);
        a.add(&b).to_body()
    }

    /// Squared distance between the two bodies' positions.
    pub fn get_distance_squared(&self, body: &Body) -> (r: u128)
        ensures
            r == dist_sq(self.coordinate, body.coordinate),
    {
        self.coordinate.get_distance_squared(body.coordinate)
    }
}

} // verus!
