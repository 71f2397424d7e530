//! Quadtree nodes: insertion with exact aggregates, subtree grafting, and the
//! theta-thresholded choice of the point masses that act on a body.
use vstd::prelude::*;

use crate::body::{Body, MassMoment, body_moment, lemma_body_moment, lemma_plus};
use crate::coordinate::{Coordinate, dist_sq};
use crate::quadrant::{Quadrant, lemma_children_tile};

verus! {

/// A node of the tree. An empty node holds no body; a leaf holds the one
/// body inserted into it; any other node holds the aggregate of its subtree.
/// `total` is the exact mass and moment of everything in the subtree.
#[derive(Debug)]
pub struct Node {
    pub body: Option<Body>,
    pub children: Option<Children>,
    pub quadrant: Quadrant,
    pub total: MassMoment,
}

/// The four subtrees of an internal node.
#[derive(Debug)]
pub struct Children {
    pub ne: Box<Node>,
    pub nw: Box<Node>,
    pub se: Box<Node>,
    pub sw: Box<Node>,
}

/// The empty node over `q`.
pub open spec fn empty_node(q: Quadrant) -> Node {
    Node { body: None, children: None, quadrant: q, total: MassMoment { mass: 0, x: 0, y: 0 } }
}

/// Four empty children over the split of `q`.
pub open spec fn empty_children(q: Quadrant) -> Children {
    Children {
        ne: Box::new(empty_node(q.ne_child())),
        nw: Box::new(empty_node(q.nw_child())),
        se: Box::new(empty_node(q.se_child())),
        sw: Box::new(empty_node(q.sw_child())),
    }
}

/// Whether a square of side `s` seen from distance `sqrt(d2)` is far enough
/// to stand for its contents: `s / d < num / den`.
pub open spec fn far_enough(s: int, d2: int, num: int, den: int) -> bool {
    s * s * den * den < num * num * d2
}

impl Children {
    pub open spec fn mass_sum(self) -> int {
        self.ne.total.mass + self.nw.total.mass + self.se.total.mass + self.sw.total.mass
    }

    pub open spec fn x_sum(self) -> int {
        self.ne.total.x + self.nw.total.x + self.se.total.x + self.sw.total.x
    }

    pub open spec fn y_sum(self) -> int {
        self.ne.total.y + self.nw.total.y + self.se.total.y + self.sw.total.y
    }

    /// The four children's masses and moments add up to `t`.
    pub open spec fn sums_to(self, t: MassMoment) -> bool {
        &&& t.mass == self.mass_sum()
        &&& t.x == self.x_sum()
        &&& t.y == self.y_sum()
    }

    /// Some child's square holds `c`.
    pub open spec fn holds_any(self, c: Coordinate) -> bool {
        self.ne.quadrant.holds(c) || self.nw.quadrant.holds(c) || self.se.quadrant.holds(c)
            || self.sw.quadrant.holds(c)
    }

    /// All four children are well formed and of one size.
    pub open spec fn uniform(self) -> bool {
        &&& self.ne.wf() && self.nw.wf() && self.se.wf() && self.sw.wf()
        &&& self.nw.quadrant.length == self.ne.quadrant.length
        &&& self.se.quadrant.length == self.ne.quadrant.length
        &&& self.sw.quadrant.length == self.ne.quadrant.length
    }

    /// The children after routing `b` to the first child (in the order NE,
    /// NW, SE, SW) whose square holds it. Only children smaller than `bound`
    /// are descended into.
    pub open spec fn routed(self, b: Body, bound: int) -> Children
        decreases bound, 0int,
    {
        if self.ne.quadrant.holds(b.coordinate) {
            if self.ne.quadrant.length < bound {
                Children { ne: Box::new(self.ne.inserted(b)), ..self }
            } else {
                self
            }
        } else if self.nw.quadrant.holds(b.coordinate) {
            if self.nw.quadrant.length < bound {
                Children { nw: Box::new(self.nw.inserted(b)), ..self }
            } else {
                self
            }
        } else if self.se.quadrant.holds(b.coordinate) {
            if self.se.quadrant.length < bound {
                Children { se: Box::new(self.se.inserted(b)), ..self }
            } else {
                self
            }
        } else if self.sw.quadrant.holds(b.coordinate) {
            if self.sw.quadrant.length < bound {
                Children { sw: Box::new(self.sw.inserted(b)), ..self }
            } else {
                self
            }
        } else {
            self
        }
    }
}

/// The aggregate `b` of a node is the target itself (a real body under the
/// target's identity).
pub open spec fn is_self(b: Body, target: Body) -> bool {
    b.id.is_some() && b.id == target.id
}

/// The sum of four subtree totals, as one node's total.
pub open spec fn merged_total(c: Children) -> MassMoment {
    MassMoment { mass: c.mass_sum() as u64, x: c.x_sum() as u128, y: c.y_sum() as u128 }
}

/// A node over `q` grafted from four subtrees: its aggregate covers them all.
pub open spec fn merged_node(q: Quadrant, c: Children) -> Node {
    Node {
        body: Some(merged_total(c).aggregate()),
        children: Some(c),
        quadrant: q,
        total: merged_total(c),
    }
}

impl Node {
    /// The point masses that act on `target` under the threshold
    /// `num / den`, in the order NE, NW, SE, SW. An empty node and the target
    /// itself contribute nothing; a node far enough contributes its
    /// aggregate; otherwise its children contribute, or, for a leaf, its body.
    pub open spec fn sources(self, target: Body, num: int, den: int) -> Seq<Body>
        decreases self,
    {
        match self.body {
            None => seq![],
            Some(b) => if is_self(b, target) {
                seq![]
            } else if far_enough(
                self.quadrant.length as int,
                dist_sq(b.coordinate, target.coordinate),
                num,
                den,
            ) {
                seq![b]
            } else {
                match self.children {
                    Some(c) => c.ne.sources(target, num, den) + c.nw.sources(target, num, den)
                        + c.se.sources(target, num, den) + c.sw.sources(target, num, den),
                    None => seq![b],
                }
            },
        }
    }

    /// The childless non-empty nodes of the subtree, in the order NE, NW, SE,
    /// SW.
    pub open spec fn leaves(self) -> Seq<Node>
        decreases self,
    {
        match self.body {
            None => seq![],
            Some(_) => match self.children {
                Some(c) => c.ne.leaves() + c.nw.leaves() + c.se.leaves() + c.sw.leaves(),
                None => seq![self],
            },
        }
    }

    /// Every body held by a leaf of the subtree, other than the target, in
    /// the order NE, NW, SE, SW.
    pub open spec fn leaf_bodies(self, target: Body) -> Seq<Body>
        decreases self,
    {
        match self.body {
            None => seq![],
            Some(b) => if is_self(b, target) {
                seq![]
            } else {
                match self.children {
                    Some(c) => c.ne.leaf_bodies(target) + c.nw.leaf_bodies(target)
                        + c.se.leaf_bodies(target) + c.sw.leaf_bodies(target),
                    None => seq![b],
                }
            },
        }
    }
}

impl Node {
    /// Structural invariant of a subtree. A childless node holds one body
    /// inside its square, or is a single lattice point holding the aggregate
    /// of the bodies that sit on it.
    pub open spec fn wf(self) -> bool
        decreases self,
    {
        &&& self.quadrant.fits()
        &&& self.total.wf()
        &&& match self.body {
            None => self.children.is_none() && self.total == (MassMoment { mass: 0, x: 0, y: 0 }),
            Some(b) => match self.children {
                None => (self.total == body_moment(b) && self.quadrant.holds(b.coordinate)) || (
                !self.quadrant.splittable() && b == self.total.aggregate()),
                Some(_) => b == self.total.aggregate(),
            },
        }
        &&& match self.children {
            None => true,
            Some(c) => {
                &&& self.quadrant.splittable()
                &&& c.ne.quadrant == self.quadrant.ne_child()
                &&& c.nw.quadrant == self.quadrant.nw_child()
                &&& c.se.quadrant == self.quadrant.se_child()
                &&& c.sw.quadrant == self.quadrant.sw_child()
                &&& c.sums_to(self.total)
                &&& c.ne.wf()
                &&& c.nw.wf()
                &&& c.se.wf()
                &&& c.sw.wf()
            },
        }
    }

    /// The node after inserting `b`. A body outside the node's square is
    /// ignored. An empty node becomes a leaf holding `b`. A node of positive
    /// side that holds a body splits: the previous leaf body (if it was a
    /// leaf) and then `b` go down to the children. A node of side zero is a
    /// single lattice point, so the bodies it receives all sit exactly there:
    /// it merges `b` into its aggregate, the floor on distance that keeps
    /// coincident bodies from splitting forever. Either way the node then
    /// holds the aggregate of everything it contains.
    pub open spec fn inserted(self, b: Body) -> Node
        decreases self.quadrant.length, 1int,
    {
        if !self.quadrant.holds(b.coordinate) {
            self
        } else {
            let t = self.total.plus(body_moment(b));
            match self.body {
                None => Node {
                    body: Some(b),
                    children: None,
                    quadrant: self.quadrant,
                    total: body_moment(b),
                },
                Some(e) => {
                    let children = if !self.quadrant.splittable() {
                        None
                    } else {
                        let c0 = match self.children {
                            Some(c) => c,
                            None => empty_children(self.quadrant).routed(
                                e,
                                self.quadrant.length as int,
                            ),
                        };
                        Some(c0.routed(b, self.quadrant.length as int))
                    };
                    Node { body: Some(t.aggregate()), children, quadrant: self.quadrant, total: t }
                },
            }
        }
    }
}

/// Routing does not depend on the bound, as long as it exceeds every child.
pub proof fn lemma_routed_bound(c: Children, b: Body, b1: int, b2: int)
    requires
        c.ne.quadrant.length < b1 && c.nw.quadrant.length < b1 && c.se.quadrant.length < b1
            && c.sw.quadrant.length < b1,
        c.ne.quadrant.length < b2 && c.nw.quadrant.length < b2 && c.se.quadrant.length < b2
            && c.sw.quadrant.length < b2,
    ensures
        c.routed(b, b1) == c.routed(b, b2),
{
}

impl Node {
    /// An empty node over `quadrant`.
    pub fn new(quadrant: Quadrant) -> (r: Self)
        ensures
            r == empty_node(quadrant),
    {
        Node { body: None, children: None, quadrant, total: MassMoment::zero() }
    }

    /// Discards the node's contents; the square stays.
    pub fn reset(&mut self)
        ensures
            *final(self) == empty_node(old(self).quadrant),
    {
        self.body = None;
        self.children = None;
        self.total = MassMoment::zero();
    }

    pub fn get_body(&self) -> (r: &Option<Body>)
        ensures
            *r == self.body,
    {
        &self.body
    }

    pub fn get_quadrant(&self) -> (r: &Quadrant)
        ensures
            *r == self.quadrant,
    {
        &self.quadrant
    }

    pub fn get_children(&self) -> (r: &Option<Children>)
        ensures
            *r == self.children,
    {
        &self.children
    }

    pub fn get_total(&self) -> (r: MassMoment)
        ensures
            r == self.total,
    {
        self.total
    }

    fn init_children(&self) -> (r: Children)
        requires
            self.quadrant.fits(),
        ensures
            r == empty_children(self.quadrant),
    {
        let (ne_quad, nw_quad, se_quad, sw_quad) = self.quadrant.get_child_quadrants();
        Children {
            ne: Box::new(Node::new(ne_quad)),
            nw: Box::new(Node::new(nw_quad)),
            se: Box::new(Node::new(se_quad)),
            sw: Box::new(Node::new(sw_quad)),
        }
    }

    /// Inserts `body` (see `inserted`). The subtree's mass and moments grow
    /// by exactly those of `body` when the square holds it, and stay
    /// otherwise.
    #[verifier::rlimit(60)]
    pub fn insert(&mut self, body: Body)
        requires
            old(self).wf(),
            old(self).total.mass + body.mass <= u64::MAX,
        ensures
            *final(self) == old(self).inserted(body),
            final(self).wf(),
            final(self).quadrant == old(self).quadrant,
            old(self).quadrant.holds(body.coordinate) ==> {
                &&& final(self).total.mass == old(self).total.mass + body.mass
                &&& final(self).total.x == old(self).total.x + body.mass * body.coordinate.x
                &&& final(self).total.y == old(self).total.y + body.mass * body.coordinate.y
            },
            !old(self).quadrant.holds(body.coordinate) ==> *final(self) == *old(self),
        decreases old(self).quadrant.length, 1int,
    {
        if !self.quadrant.contains(&body.coordinate) {
            return;
        }
        let m = MassMoment::of(&body);
        match self.body {
            None => {
                self.body = Some(body);
                self.total = m;
            },
            Some(existing) => {
                let t = self.total.add(&m);
                if self.quadrant.length >= 1 {
                    let ghost q = self.quadrant;
                    proof {
                        lemma_children_tile(q, body.coordinate);
                    }
                    let mut taken: Option<Children> = None;
                    std::mem::swap(&mut self.children, &mut taken);
                    let mut c = match taken {
                        Some(c) => c,
                        None => {
                            let mut c = self.init_children();
                            proof {
                                lemma_children_tile(q, existing.coordinate);
                                lemma_body_moment(existing);
                            }
                            c.insert(existing);
                            proof {
                                lemma_routed_bound(
                                    empty_children(q),
                                    existing,
                                    q.half() + 1,
                                    q.length as int,
                                );
                            }
                            c
                        },
                    };
                    let ghost c0 = c;
                    c.insert(body);
                    proof {
                        lemma_routed_bound(c0, body, q.half() + 1, q.length as int);
                    }
                    self.children = Some(c);
                }
                self.body = Some(t.to_body());
                self.total = t;
            },
        }
    }
}

/// `s / d < num / den` decided exactly on the lattice.
fn is_far_enough(s: u32, d2: u128, num: u16, den: u16) -> (r: bool)
    requires
        d2 <= 2 * (0xffff_ffffu128 * 0xffff_ffffu128),
    ensures
        r == far_enough(s as int, d2 as int, num as int, den as int),
{
    let s = s as u128;
    let den = den as u128;
    let num = num as u128;
    assert(s * s <= 0xffff_ffffu128 * 0xffff_ffffu128) by (nonlinear_arith)
        requires
            s <= 0xffff_ffffu128,
    ;
    let ss = s * s;
    assert(ss * den <= 0xffff_ffffu128 * 0xffff_ffffu128 * 0xffffu128) by (nonlinear_arith)
        requires
            ss <= 0xffff_ffffu128 * 0xffff_ffffu128,
            den <= 0xffffu128,
    ;
    let ssd = ss * den;
    assert(ssd * den <= 0xffff_ffffu128 * 0xffff_ffffu128 * 0xffffu128 * 0xffffu128)
        by (nonlinear_arith)
        requires
            ssd <= 0xffff_ffffu128 * 0xffff_ffffu128 * 0xffffu128,
            den <= 0xffffu128,
    ;
    assert(num * num <= 0xffffu128 * 0xffffu128) by (nonlinear_arith)
        requires
            num <= 0xffffu128,
    ;
    let nn = num * num;
    assert(nn * d2 <= 0xffffu128 * 0xffffu128 * (2 * (0xffff_ffffu128 * 0xffff_ffffu128)))
        by (nonlinear_arith)
        requires
            nn <= 0xffffu128 * 0xffffu128,
            d2 <= 2 * (0xffff_ffffu128 * 0xffff_ffffu128),
    ;
    ssd * den < nn * d2
}

proof fn lemma_dist_sq_bound(a: Coordinate, b: Coordinate)
    ensures
        0 <= dist_sq(a, b) <= 2 * (0xffff_ffffu128 * 0xffff_ffffu128),
{
    let dx = a.x - b.x;
    let dy = a.y - b.y;
    assert(0 <= dx * dx <= 0xffff_ffffu128 * 0xffff_ffffu128) by (nonlinear_arith)
        requires
            -0xffff_ffffint <= dx <= 0xffff_ffffint,
    ;
    assert(0 <= dy * dy <= 0xffff_ffffu128 * 0xffff_ffffu128) by (nonlinear_arith)
        requires
            -0xffff_ffffint <= dy <= 0xffff_ffffint,
    ;
}

impl Node {
    /// The point masses whose pull on `body` approximates the net force of
    /// the subtree, under the accuracy threshold `theta_num / theta_den`.
    pub fn force_sources(&self, body: &Body, theta_num: u16, theta_den: u16) -> (r: Vec<Body>)
        requires
            self.wf(),
        ensures
            r@ == self.sources(*body, theta_num as int, theta_den as int),
        decreases self.quadrant.length,
    {
        match self.body {
            None => Vec::new(),
            Some(self_body) => {
                if self_body.id.is_some() && self_body.id == body.id {
                    return Vec::new();
                }
                let d2 = self_body.get_distance_squared(body);
                proof {
                    lemma_dist_sq_bound(self_body.coordinate, body.coordinate);
                }
                if is_far_enough(self.quadrant.length, d2, theta_num, theta_den) {
                    let mut r = Vec::new();
                    r.push(self_body);
                    proof {
                        assert(r@ =~= seq![self_body]);
                    }
                    r
                } else {
                    match &self.children {
                        Some(c) => {
                            let mut r = c.ne.force_sources(body, theta_num, theta_den);
                            let mut nw = c.nw.force_sources(body, theta_num, theta_den);
                            let mut se = c.se.force_sources(body, theta_num, theta_den);
                            let mut sw = c.sw.force_sources(body, theta_num, theta_den);
                            r.append(&mut nw);
                            r.append(&mut se);
                            r.append(&mut sw);
                            r
                        },
                        None => {
                            let mut r = Vec::new();
                            r.push(self_body);
                            proof {
                                assert(r@ =~= seq![self_body]);
                            }
                            r
                        },
                    }
                }
            },
        }
    }

    /// Grafts four subtrees, given in the order NE, NW, SE, SW and built over
    /// this node's four child squares, as this node's children, and sets its
    /// aggregate to cover all of them. Empty subtrees weigh nothing. `nodes`
    /// is left empty.
    pub fn merge(&mut self, nodes: &mut Vec<Box<Node>>)
        requires
            old(self).wf(),
            old(self).quadrant.splittable(),
            old(nodes)@.len() == 4,
            old(nodes)@[0].wf() && old(nodes)@[1].wf() && old(nodes)@[2].wf()
                && old(nodes)@[3].wf(),
            old(nodes)@[0].quadrant == old(self).quadrant.ne_child(),
            old(nodes)@[1].quadrant == old(self).quadrant.nw_child(),
            old(nodes)@[2].quadrant == old(self).quadrant.se_child(),
            old(nodes)@[3].quadrant == old(self).quadrant.sw_child(),
            old(nodes)@[0].total.mass + old(nodes)@[1].total.mass + old(nodes)@[2].total.mass
                + old(nodes)@[3].total.mass <= u64::MAX,
        ensures
            final(nodes)@.len() == 0,
            *final(self) == merged_node(
                old(self).quadrant,
                Children {
                    ne: old(nodes)@[0],
                    nw: old(nodes)@[1],
                    se: old(nodes)@[2],
                    sw: old(nodes)@[3],
                },
            ),
            final(self).wf(),
    {
        let sw = nodes.pop().unwrap();
        let se = nodes.pop().unwrap();
        let nw = nodes.pop().unwrap();
        let ne = nodes.pop().unwrap();
        let t = ne.total.add(&nw.total).add(&se.total).add(&sw.total);
        self.children = Some(Children { ne, nw, se, sw });
        self.body = Some(t.to_body());
        self.total = t;
    }
}

impl Children {

    /// The first child (NE, NW, SE, SW) whose square holds `coordinate`,
    /// lent out for modification; `None` when no child holds it.
    pub fn get_containing_child_node(&mut self, coordinate: &Coordinate) -> (r: Option<
        &mut Box<Node>,
    >)
        ensures
            r.is_some() == old(self).holds_any(*coordinate),
            old(self).ne.quadrant.holds(*coordinate) ==> {
                &&& *r.unwrap() == old(self).ne
                &&& *final(self) == Children { ne: *final(r.unwrap()), ..*old(self) }
            },
            !old(self).ne.quadrant.holds(*coordinate) && old(self).nw.quadrant.holds(
                *coordinate,
            ) ==> {
                &&& *r.unwrap() == old(self).nw
                &&& *final(self) == Children { nw: *final(r.unwrap()), ..*old(self) }
            },
            !old(self).ne.quadrant.holds(*coordinate) && !old(self).nw.quadrant.holds(*coordinate)
                && old(self).se.quadrant.holds(*coordinate) ==> {
                &&& *r.unwrap() == old(self).se
                &&& *final(self) == Children { se: *final(r.unwrap()), ..*old(self) }
            },
            !old(self).ne.quadrant.holds(*coordinate) && !old(self).nw.quadrant.holds(*coordinate)
                && !old(self).se.quadrant.holds(*coordinate) && old(self).sw.quadrant.holds(
                *coordinate,
            ) ==> {
                &&& *r.unwrap() == old(self).sw
                &&& *final(self) == Children { sw: *final(r.unwrap()), ..*old(self) }
            },
            !old(self).holds_any(*coordinate) ==> *final(self) == *old(self),
    {
        let Children { ne, nw, se, sw } = self;
        if ne.quadrant.contains(coordinate) {
            Some(ne)
        } else if nw.quadrant.contains(coordinate) {
            Some(nw)
        } else if se.quadrant.contains(coordinate) {
            Some(se)
        } else if sw.quadrant.contains(coordinate) {
            Some(sw)
        } else {
            None
        }
    }
    /// Inserts `body` into the first child (NE, NW, SE, SW) whose square
    /// holds it; a body that none holds is ignored.
    pub fn insert(&mut self, body: Body)
        requires
            old(self).uniform(),
            old(self).mass_sum() + body.mass <= u64::MAX,
        ensures
            *final(self) == old(self).routed(body, old(self).ne.quadrant.length + 1),
            final(self).uniform(),
            final(self).ne.quadrant == old(self).ne.quadrant,
            final(self).nw.quadrant == old(self).nw.quadrant,
            final(self).se.quadrant == old(self).se.quadrant,
            final(self).sw.quadrant == old(self).sw.quadrant,
            old(self).holds_any(body.coordinate) ==> {
                &&& final(self).mass_sum() == old(self).mass_sum() + body.mass
                &&& final(self).x_sum() == old(self).x_sum() + body.mass * body.coordinate.x
                &&& final(self).y_sum() == old(self).y_sum() + body.mass * body.coordinate.y
            },
        decreases old(self).ne.quadrant.length, 2int,
    {
        match self.get_containing_child_node(&body.coordinate) {
            Some(child) => child.insert(body),
            None => {},
        }
    }
}

} // verus!
