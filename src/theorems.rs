//! Laws that relate the tree's operations to one another.
use vstd::prelude::*;

use crate::body::{Body, MassMoment, body_moment, lemma_body_moment, lemma_plus};
use crate::quadrant::lemma_children_tile;
use crate::node::{Children, Node, empty_children, empty_node, far_enough, merged_node, merged_total};
use crate::quad_tree::{QuadTree, tree_inserted, tree_inserted_all};
use crate::quadrant::Quadrant;

verus! {

/// Combining two bodies conserves mass exactly.
pub proof fn lemma_combine_conserves_mass(a: Body, b: Body)
    requires
        a.mass + b.mass <= u64::MAX,
    ensures
        body_moment(a).plus(body_moment(b)).aggregate().mass == a.mass + b.mass,
{
    lemma_body_moment(a);
    lemma_body_moment(b);
    lemma_plus(body_moment(a), body_moment(b));
}

/// Inserting a body that the node's square holds adds exactly its mass to
/// the node's aggregate; the aggregate's moments grow by the body's.
pub proof fn lemma_insert_conserves_mass(n: Node, b: Body)
    requires
        n.wf(),
        n.quadrant.holds(b.coordinate),
        n.total.mass + b.mass <= u64::MAX,
    ensures
        n.inserted(b).total.mass == n.total.mass + b.mass,
        n.inserted(b).total.x == n.total.x + b.mass * b.coordinate.x,
        n.inserted(b).total.y == n.total.y + b.mass * b.coordinate.y,
        n.inserted(b).body.unwrap().mass == n.total.mass + b.mass,
{
    lemma_body_moment(b);
    lemma_plus(n.total, body_moment(b));
}

/// Grafting four subtrees conserves mass: the new aggregate weighs what the
/// four subtrees weigh together, and empty subtrees weigh nothing.
pub proof fn lemma_merge_conserves_mass(q: Quadrant, c: Children)
    requires
        c.mass_sum() <= u64::MAX,
    ensures
        merged_node(q, c).total.mass == c.ne.total.mass + c.nw.total.mass + c.se.total.mass
            + c.sw.total.mass,
        merged_node(q, c).body.unwrap().mass == merged_node(q, c).total.mass,
{
}

/// A wider threshold never opens a node that a narrower one accepts: if a
/// square is far enough under `num1 / den1`, it is under any larger
/// `num2 / den2`.
pub proof fn lemma_far_enough_monotone(s: int, d2: int, num1: int, den1: int, num2: int, den2: int)
    requires
        s >= 0,
        d2 >= 0,
        num1 >= 0,
        den1 > 0,
        num2 >= 0,
        den2 > 0,
        num1 * den2 <= num2 * den1,
        far_enough(s, d2, num1, den1),
    ensures
        far_enough(s, d2, num2, den2),
{
    assert(s * s * den2 * den2 < num2 * num2 * d2) by (nonlinear_arith)
        requires
            s >= 0,
            d2 >= 0,
            num1 >= 0,
            den1 > 0,
            num2 >= 0,
            den2 > 0,
            num1 * den2 <= num2 * den1,
            s * s * den1 * den1 < num1 * num1 * d2,
    ;
}

/// With a threshold of zero nothing is approximated: the point masses that
/// act on a body are exactly the leaf bodies of the tree other than itself.
/// Each leaf holds a single inserted body unless several bodies sit on one
/// and the same lattice point (see `lemma_leaves_hold_one_body`), so for
/// bodies at distinct points this is the direct pairwise sum.
pub proof fn lemma_zero_theta_is_exact(n: Node, target: Body, den: int)
    ensures
        n.sources(target, 0, den) == n.leaf_bodies(target),
    decreases n,
{
    match n.body {
        None => {},
        Some(b) => {
            let s = n.quadrant.length as int;
            assert(!far_enough(s, crate::coordinate::dist_sq(b.coordinate, target.coordinate), 0, den))
                by (nonlinear_arith);
            match n.children {
                Some(c) => {
                    lemma_zero_theta_is_exact(*c.ne, target, den);
                    lemma_zero_theta_is_exact(*c.nw, target, den);
                    lemma_zero_theta_is_exact(*c.se, target, den);
                    lemma_zero_theta_is_exact(*c.sw, target, den);
                },
                None => {},
            }
        },
    }
}

/// What a leaf may hold: one body inside its square, or, on a single
/// lattice point, the aggregate of the bodies sitting there.
pub open spec fn leaf_ok(l: Node) -> bool {
    &&& l.children.is_none()
    &&& l.body.is_some()
    &&& (l.total == body_moment(l.body.unwrap()) && l.quadrant.holds(l.body.unwrap().coordinate))
        || (l.quadrant.length == 0 && l.body.unwrap() == l.total.aggregate())
}

/// Splitting never stops short of a single lattice point: every leaf of a
/// well-formed tree holds one body inside its square, and a leaf holds an
/// aggregate only when its square is one point, i.e. when all its bodies
/// coincide.
pub proof fn lemma_leaves_hold_one_body(n: Node)
    requires
        n.wf(),
    ensures
        forall|k: int| 0 <= k < n.leaves().len() ==> leaf_ok(#[trigger] n.leaves()[k]),
    decreases n,
{
    match n.body {
        None => {},
        Some(_) => match n.children {
            Some(c) => {
                lemma_leaves_hold_one_body(*c.ne);
                lemma_leaves_hold_one_body(*c.nw);
                lemma_leaves_hold_one_body(*c.se);
                lemma_leaves_hold_one_body(*c.sw);
                let a = c.ne.leaves();
                let b = c.nw.leaves();
                let d = c.se.leaves();
                let e = c.sw.leaves();
                let ab = a + b;
                let abd = ab + d;
                assert forall|k: int| 0 <= k < ab.len() implies leaf_ok(#[trigger] ab[k]) by {
                    if k < a.len() {
                        assert(ab[k] == a[k]);
                    } else {
                        assert(ab[k] == b[k - a.len()]);
                    }
                }
                assert forall|k: int| 0 <= k < abd.len() implies leaf_ok(#[trigger] abd[k]) by {
                    if k < ab.len() {
                        assert(abd[k] == ab[k]);
                    } else {
                        assert(abd[k] == d[k - ab.len()]);
                    }
                }
                assert forall|k: int| 0 <= k < n.leaves().len() implies leaf_ok(
                    #[trigger] n.leaves()[k],
                ) by {
                    assert(n.leaves() == abd + e);
                    if k < abd.len() {
                        assert((abd + e)[k] == abd[k]);
                    } else {
                        assert((abd + e)[k] == e[k - abd.len()]);
                    }
                }
            },
            None => {
                assert(n.leaves() == seq![n]);
            },
        },
    }
}

/// A leaf always splits when a body at another point arrives, whatever the
/// side of its square: the node then has children and holds the aggregate
/// of both bodies.
pub proof fn lemma_distinct_bodies_split(q: Quadrant, a: Body, b: Body)
    requires
        q.fits(),
        q.holds(a.coordinate),
        q.holds(b.coordinate),
        a.coordinate != b.coordinate,
        a.mass + b.mass <= u64::MAX,
    ensures
        empty_node(q).inserted(a).inserted(b).children.is_some(),
        empty_node(q).inserted(a).inserted(b).body == Some(
            body_moment(a).plus(body_moment(b)).aggregate(),
        ),
{
    lemma_body_moment(a);
    lemma_body_moment(b);
    lemma_plus(body_moment(a), body_moment(b));
    assert(q.length >= 1);
}

/// A body feels no force from a tree that holds only itself.
pub proof fn lemma_self_exclusion(q: Quadrant, target: Body, num: int, den: int)
    requires
        q.holds(target.coordinate),
        target.id.is_some(),
    ensures
        empty_node(q).inserted(target).sources(target, num, den) == Seq::<Body>::empty(),
{
}

/// `reset_root` leaves the root `empty_node(q)` over the tree's square `q`,
/// the very root that `new_with_quadrant(q)` builds: well formed, weightless,
/// and without anything that pulls on any body.
pub proof fn lemma_reset_is_fresh(t: QuadTree, target: Body, num: int, den: int)
    requires
        t.wf(),
    ensures
        empty_node(t.root.quadrant).wf(),
        empty_node(t.root.quadrant).total.mass == 0,
        empty_node(t.root.quadrant).sources(target, num, den) == Seq::<Body>::empty(),
{
}

/// Index (0 = NE, 1 = NW, 2 = SE, 3 = SW) of the first child of `q` whose
/// square holds `c`; 3 when none of the first three does.
pub open spec fn first_child(q: Quadrant, c: crate::coordinate::Coordinate) -> int {
    if q.ne_child().holds(c) {
        0
    } else if q.nw_child().holds(c) {
        1
    } else if q.se_child().holds(c) {
        2
    } else {
        3
    }
}

/// The bodies of `bs`, in order, that insertion into `q` routes to child `i`.
pub open spec fn routed_to(q: Quadrant, bs: Seq<Body>, i: int) -> Seq<Body>
    decreases bs.len(),
{
    if bs.len() == 0 {
        seq![]
    } else if first_child(q, bs.last().coordinate) == i {
        routed_to(q, bs.drop_last(), i).push(bs.last())
    } else {
        routed_to(q, bs.drop_last(), i)
    }
}

/// Four trees built independently, each over one child square of `q` from
/// the bodies routed to it.
pub open spec fn subtrees(q: Quadrant, bs: Seq<Body>) -> Children {
    Children {
        ne: Box::new(tree_inserted_all(empty_node(q.ne_child()), routed_to(q, bs, 0))),
        nw: Box::new(tree_inserted_all(empty_node(q.nw_child()), routed_to(q, bs, 1))),
        se: Box::new(tree_inserted_all(empty_node(q.se_child()), routed_to(q, bs, 2))),
        sw: Box::new(tree_inserted_all(empty_node(q.sw_child()), routed_to(q, bs, 3))),
    }
}

/// Total mass of a sequence of bodies.
pub open spec fn mass_of(bs: Seq<Body>) -> int
    decreases bs.len(),
{
    if bs.len() == 0 {
        0
    } else {
        mass_of(bs.drop_last()) + bs.last().mass
    }
}

/// Total first moment, per axis, of a sequence of bodies.
pub open spec fn moment_x_of(bs: Seq<Body>) -> int
    decreases bs.len(),
{
    if bs.len() == 0 {
        0
    } else {
        moment_x_of(bs.drop_last()) + bs.last().mass * bs.last().coordinate.x
    }
}

pub open spec fn moment_y_of(bs: Seq<Body>) -> int
    decreases bs.len(),
{
    if bs.len() == 0 {
        0
    } else {
        moment_y_of(bs.drop_last()) + bs.last().mass * bs.last().coordinate.y
    }
}

/// A node built by insertions from an empty node.
pub open spec fn grown(n: Node, p: Quadrant) -> bool {
    &&& n.quadrant == p
    &&& n.total.wf()
    &&& n.body.is_none() ==> n.total == (MassMoment { mass: 0, x: 0, y: 0 })
}

proof fn lemma_mass_nonneg(bs: Seq<Body>)
    ensures
        mass_of(bs) >= 0,
        moment_x_of(bs) >= 0,
        moment_y_of(bs) >= 0,
    decreases bs.len(),
{
    if bs.len() > 0 {
        lemma_mass_nonneg(bs.drop_last());
        let b = bs.last();
        assert(b.mass * b.coordinate.x >= 0) by (nonlinear_arith)
            requires
                b.mass >= 0,
                b.coordinate.x >= 0,
        ;
        assert(b.mass * b.coordinate.y >= 0) by (nonlinear_arith)
            requires
                b.mass >= 0,
                b.coordinate.y >= 0,
        ;
    }
}

/// Routing partitions the bodies: the four parts add up to the whole.
proof fn lemma_routed_partition(q: Quadrant, bs: Seq<Body>)
    ensures
        mass_of(bs) == mass_of(routed_to(q, bs, 0)) + mass_of(routed_to(q, bs, 1)) + mass_of(
            routed_to(q, bs, 2),
        ) + mass_of(routed_to(q, bs, 3)),
        moment_x_of(bs) == moment_x_of(routed_to(q, bs, 0)) + moment_x_of(routed_to(q, bs, 1))
            + moment_x_of(routed_to(q, bs, 2)) + moment_x_of(routed_to(q, bs, 3)),
        moment_y_of(bs) == moment_y_of(routed_to(q, bs, 0)) + moment_y_of(routed_to(q, bs, 1))
            + moment_y_of(routed_to(q, bs, 2)) + moment_y_of(routed_to(q, bs, 3)),
    decreases bs.len(),
{
    if bs.len() > 0 {
        let b = bs.last();
        lemma_routed_partition(q, bs.drop_last());
        let i = first_child(q, b.coordinate);
        let p = routed_to(q, bs.drop_last(), i);
        assert(p.push(b).drop_last() =~= p);
    }
}

/// Building a tree by insertions of bodies that its square holds keeps the
/// exact totals of what was inserted.
proof fn lemma_grown_totals(p: Quadrant, bs: Seq<Body>)
    requires
        forall|i: int| 0 <= i < bs.len() ==> p.holds(#[trigger] bs[i].coordinate),
        mass_of(bs) <= u64::MAX,
    ensures
        grown(tree_inserted_all(empty_node(p), bs), p),
        tree_inserted_all(empty_node(p), bs).total.mass == mass_of(bs),
        tree_inserted_all(empty_node(p), bs).total.x == moment_x_of(bs),
        tree_inserted_all(empty_node(p), bs).total.y == moment_y_of(bs),
    decreases bs.len(),
{
    if bs.len() > 0 {
        let rest = bs.drop_last();
        let b = bs.last();
        assert forall|i: int| 0 <= i < rest.len() implies p.holds(#[trigger] rest[i].coordinate) by {
            assert(rest[i] == bs[i]);
        }
        lemma_mass_nonneg(rest);
        lemma_grown_totals(p, rest);
        let n = tree_inserted_all(empty_node(p), rest);
        assert(p.holds(b.coordinate)) by {
            assert(bs[bs.len() - 1] == b);
        }
        lemma_body_moment(b);
        lemma_plus(n.total, body_moment(b));
    }
}

/// Inserting into one of four independently built trees is what routing
/// through their common parent does.
proof fn lemma_route_step(q: Quadrant, bs: Seq<Body>, b: Body)
    requires
        q.fits(),
        q.splittable(),
        forall|i: int| 0 <= i < bs.len() ==> q.holds(#[trigger] bs[i].coordinate),
        q.holds(b.coordinate),
        mass_of(bs) + b.mass <= u64::MAX,
    ensures
        subtrees(q, bs).routed(b, q.length as int) == subtrees(q, bs.push(b)),
{
    let all = bs.push(b);
    assert(all.drop_last() =~= bs);
    assert(all.last() == b);
    lemma_children_tile(q, b.coordinate);
    lemma_routed_partition(q, bs);
    lemma_child_totals(q, bs);
    lemma_mass_nonneg(routed_to(q, bs, 0));
    lemma_mass_nonneg(routed_to(q, bs, 1));
    lemma_mass_nonneg(routed_to(q, bs, 2));
    lemma_mass_nonneg(routed_to(q, bs, 3));
    let c = first_child(q, b.coordinate);
    let part = routed_to(q, bs, c);
    assert(routed_to(q, all, c) == part.push(b));
    assert(part.push(b).drop_last() =~= part);
    assert(part.push(b).last() == b);
    assert(forall|j: int| 0 <= j < 4 && j != c ==> routed_to(q, all, j) == routed_to(q, bs, j));
    let s0 = subtrees(q, bs);
    let s1 = subtrees(q, all);
    lemma_body_moment(b);
    if c == 0 {
        assert(s1.ne == Box::new(s0.ne.inserted(b)));
    } else if c == 1 {
        assert(s1.nw == Box::new(s0.nw.inserted(b)));
    } else if c == 2 {
        assert(s1.se == Box::new(s0.se.inserted(b)));
    } else {
        assert(s1.sw == Box::new(s0.sw.inserted(b)));
    }
}

/// Every body routed to a child is held by that child's square.
proof fn lemma_routed_held(q: Quadrant, bs: Seq<Body>, c: int)
    requires
        q.fits(),
        0 <= c < 4,
        forall|i: int| 0 <= i < bs.len() ==> q.holds(#[trigger] bs[i].coordinate),
    ensures
        forall|k: int|
            0 <= k < routed_to(q, bs, c).len() ==> (if c == 0 {
                q.ne_child()
            } else if c == 1 {
                q.nw_child()
            } else if c == 2 {
                q.se_child()
            } else {
                q.sw_child()
            }).holds(#[trigger] routed_to(q, bs, c)[k].coordinate),
    decreases bs.len(),
{
    if bs.len() > 0 {
        let rest = bs.drop_last();
        assert forall|i: int| 0 <= i < rest.len() implies q.holds(#[trigger] rest[i].coordinate) by {
            assert(rest[i] == bs[i]);
        }
        lemma_routed_held(q, rest, c);
        let b = bs.last();
        assert(q.holds(b.coordinate)) by {
            assert(bs[bs.len() - 1] == b);
        }
        lemma_children_tile(q, b.coordinate);
    }
}

/// Grafting four trees, each built independently over one child square from
/// the bodies that fall in it, gives the very tree that inserting all the
/// bodies directly builds, once there are at least two bodies; so every
/// force query on the two agrees.
pub proof fn lemma_merge_matches_direct(q: Quadrant, bs: Seq<Body>)
    requires
        q.fits(),
        q.splittable(),
        bs.len() >= 2,
        forall|i: int| 0 <= i < bs.len() ==> q.holds(#[trigger] bs[i].coordinate),
        mass_of(bs) <= u64::MAX,
    ensures
        tree_inserted_all(empty_node(q), bs) == merged_node(q, subtrees(q, bs)),
        forall|target: Body, num: int, den: int|
            #[trigger] tree_inserted_all(empty_node(q), bs).sources(target, num, den)
                == merged_node(q, subtrees(q, bs)).sources(target, num, den),
    decreases bs.len(),
{
    let rest = bs.drop_last();
    let b = bs.last();
    assert forall|i: int| 0 <= i < rest.len() implies q.holds(#[trigger] rest[i].coordinate) by {
        assert(rest[i] == bs[i]);
    }
    assert(q.holds(b.coordinate)) by {
        assert(bs[bs.len() - 1] == b);
    }
    assert(rest.push(b) =~= bs);
    lemma_mass_nonneg(rest);
    lemma_grown_totals(q, rest);
    lemma_grown_totals(q, bs);
    lemma_routed_partition(q, bs);
    lemma_route_step(q, rest, b);
    if bs.len() == 2 {
        let b0 = rest.last();
        let none = rest.drop_last();
        assert(none =~= Seq::<Body>::empty());
        assert(none.push(b0) =~= rest);
        assert(q.holds(b0.coordinate)) by {
            assert(bs[0] == b0);
        }
        lemma_body_moment(b0);
        assert(subtrees(q, none) == empty_children(q));
        lemma_route_step(q, none, b0);
        let leaf = tree_inserted_all(empty_node(q), rest);
        assert(tree_inserted_all(empty_node(q), none) == empty_node(q));
        assert(leaf == tree_inserted(tree_inserted_all(empty_node(q), none), b0));
        assert(leaf == tree_inserted(empty_node(q), b0));
        assert(leaf.body == Some(b0));
        assert(leaf.children.is_none());
        assert(empty_children(q).routed(b0, q.length as int) == subtrees(q, rest));
        assert(leaf.inserted(b).children == Some(subtrees(q, rest).routed(b, q.length as int)));
    } else {
        lemma_merge_matches_direct(q, rest);
        let node = tree_inserted_all(empty_node(q), rest);
        assert(node.inserted(b).children == Some(subtrees(q, rest).routed(b, q.length as int)));
    }
    let direct_rest = tree_inserted_all(empty_node(q), rest);
    assert(tree_inserted_all(empty_node(q), bs) == tree_inserted(direct_rest, b));
    assert(tree_inserted(direct_rest, b) == direct_rest.inserted(b));
    let t = tree_inserted_all(empty_node(q), bs).total;
    assert(direct_rest.inserted(b).total == t);
    lemma_child_totals(q, bs);
    assert(merged_total(subtrees(q, bs)) == t);
    assert(direct_rest.inserted(b).children == Some(subtrees(q, bs)));
}

/// The totals of the four independent trees add up to those of all bodies.
proof fn lemma_child_totals(q: Quadrant, bs: Seq<Body>)
    requires
        q.fits(),
        forall|i: int| 0 <= i < bs.len() ==> q.holds(#[trigger] bs[i].coordinate),
        mass_of(bs) <= u64::MAX,
    ensures
        grown(*subtrees(q, bs).ne, q.ne_child()),
        grown(*subtrees(q, bs).nw, q.nw_child()),
        grown(*subtrees(q, bs).se, q.se_child()),
        grown(*subtrees(q, bs).sw, q.sw_child()),
        subtrees(q, bs).ne.total.mass == mass_of(routed_to(q, bs, 0)),
        subtrees(q, bs).nw.total.mass == mass_of(routed_to(q, bs, 1)),
        subtrees(q, bs).se.total.mass == mass_of(routed_to(q, bs, 2)),
        subtrees(q, bs).sw.total.mass == mass_of(routed_to(q, bs, 3)),
        subtrees(q, bs).mass_sum() == mass_of(bs),
        subtrees(q, bs).x_sum() == moment_x_of(bs),
        subtrees(q, bs).y_sum() == moment_y_of(bs),
{
    lemma_routed_partition(q, bs);
    lemma_mass_nonneg(routed_to(q, bs, 0));
    lemma_mass_nonneg(routed_to(q, bs, 1));
    lemma_mass_nonneg(routed_to(q, bs, 2));
    lemma_mass_nonneg(routed_to(q, bs, 3));
    lemma_routed_held(q, bs, 0);
    lemma_routed_held(q, bs, 1);
    lemma_routed_held(q, bs, 2);
    lemma_routed_held(q, bs, 3);
    lemma_grown_totals(q.ne_child(), routed_to(q, bs, 0));
    lemma_grown_totals(q.nw_child(), routed_to(q, bs, 1));
    lemma_grown_totals(q.se_child(), routed_to(q, bs, 2));
    lemma_grown_totals(q.sw_child(), routed_to(q, bs, 3));
}

} // verus!
