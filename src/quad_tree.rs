//! The tree's entry point: one root over a fixed square, rebuilt each step.
use vstd::prelude::*;

use crate::body::Body;
use crate::node::{Children, Node, empty_node, merged_node};
use crate::quadrant::Quadrant;

verus! {

/// A quadtree over a fixed square.
#[derive(Debug)]
pub struct QuadTree {
    pub root: Box<Node>,
}

/// The root after the tree-level insertion of `b`: a body outside the square,
/// or one whose mass would overflow the tree's total, is ignored.
pub open spec fn tree_inserted(root: Node, b: Body) -> Node {
    if root.quadrant.holds(b.coordinate) && root.total.mass + b.mass <= u64::MAX {
        root.inserted(b)
    } else {
        root
    }
}

/// The root after inserting every body of `bs`, in order, from `root`.
pub open spec fn tree_inserted_all(root: Node, bs: Seq<Body>) -> Node
    decreases bs.len(),
{
    if bs.len() == 0 {
        root
    } else {
        tree_inserted(tree_inserted_all(root, bs.drop_last()), bs.last())
    }
}

/// The square of the placeholder root left in a tree whose content was
/// grafted elsewhere.
pub open spec fn placeholder_quadrant() -> Quadrant {
    Quadrant { x: 0, y: 0, length: 0 }
}

impl QuadTree {
    pub open spec fn wf(self) -> bool {
        self.root.wf()
    }

    /// An empty tree whose root covers `[0, length] x [0, length]`.
    pub fn new(length: u32) -> (r: Self)
        ensures
            r.root == empty_node(Quadrant { x: 0, y: length, length }),
            r.wf(),
    {
        let quadrant = Quadrant::new(0, length, length);
        QuadTree { root: Box::new(Node::new(quadrant)) }
    }

    /// Empties the tree; its square stays.
    pub fn reset_root(&mut self)
        ensures
            final(self).root == empty_node(old(self).root.quadrant),
    {
        self.root.reset();
    }

    /// An empty tree over `quadrant`.
    pub fn new_with_quadrant(quadrant: Quadrant) -> (r: Self)
        requires
            quadrant.fits(),
        ensures
            r.root == empty_node(quadrant),
            r.wf(),
    {
        QuadTree { root: Box::new(Node::new(quadrant)) }
    }

    pub fn get_root(&self) -> (r: &Box<Node>)
        ensures
            *r == self.root,
    {
        &self.root
    }

    /// Inserts `body` when the tree's square holds it and its mass fits the
    /// total; otherwise the tree is left as it is.
    pub fn insert(&mut self, body: Body)
        requires
            old(self).wf(),
        ensures
            final(self).wf(),
            *final(self).root == tree_inserted(*old(self).root, body),
    {
        if self.root.quadrant.contains(&body.coordinate) && body.mass <= u64::MAX
            - self.root.total.mass {
            self.root.insert(body);
        }
    }

    /// Grafts the roots of four trees, in the order NE, NW, SE, SW and built
    /// over this root's four child squares, under this root. Each source tree
    /// keeps an empty placeholder root.
    pub fn merge(&mut self, trees: &mut Vec<QuadTree>)
        requires
            old(self).wf(),
            old(self).root.quadrant.splittable(),
            old(trees)@.len() == 4,
            old(trees)@[0].wf() && old(trees)@[1].wf() && old(trees)@[2].wf()
                && old(trees)@[3].wf(),
            old(trees)@[0].root.quadrant == old(self).root.quadrant.ne_child(),
            old(trees)@[1].root.quadrant == old(self).root.quadrant.nw_child(),
            old(trees)@[2].root.quadrant == old(self).root.quadrant.se_child(),
            old(trees)@[3].root.quadrant == old(self).root.quadrant.sw_child(),
            old(trees)@[0].root.total.mass + old(trees)@[1].root.total.mass
                + old(trees)@[2].root.total.mass + old(trees)@[3].root.total.mass <= u64::MAX,
        ensures
            final(self).wf(),
            *final(self).root == merged_node(
                old(self).root.quadrant,
                Children {
                    ne: old(trees)@[0].root,
                    nw: old(trees)@[1].root,
                    se: old(trees)@[2].root,
                    sw: old(trees)@[3].root,
                },
            ),
            final(trees)@.len() == 4,
            forall|i: int|
                0 <= i < 4 ==> *(#[trigger] final(trees)@[i]).root == empty_node(
                    placeholder_quadrant(),
                ),
    {
        let sw = trees.pop().unwrap();
        let se = trees.pop().unwrap();
        let nw = trees.pop().unwrap();
        let ne = trees.pop().unwrap();
        let mut nodes: Vec<Box<Node>> = Vec::new();
        nodes.push(ne.root);
        nodes.push(nw.root);
        nodes.push(se.root);
        nodes.push(sw.root);
        self.root.merge(&mut nodes);
        let mut i: usize = 0;
        while i < 4
            invariant
                0 <= i <= 4,
                trees@.len() == i,
                forall|j: int|
                    0 <= j < i ==> *(#[trigger] trees@[j]).root == empty_node(
                        placeholder_quadrant(),
                    ),
            decreases 4 - i,
        {
            trees.push(QuadTree { root: Box::new(Node::new(Quadrant::new(0, 0, 0))) });
            i = i + 1;
        }
        proof {
            assert(trees@.len() == 4);
        }
    }

    /// The point masses whose pull on `body` approximates its net force in
    /// this tree, under the accuracy threshold `theta_num / theta_den`.
    pub fn force_sources(&self, body: &Body, theta_num: u16, theta_den: u16) -> (r: Vec<Body>)
        requires
            self.wf(),
        ensures
            r@ == self.root.sources(*body, theta_num as int, theta_den as int),
    {
        self.root.force_sources(body, theta_num, theta_den)
    }
}

} // verus!
