//! The two per-step passes: rebuilding the tree, then choosing for every
//! body the point masses that act on it.
use vstd::prelude::*;

use crate::body::Body;
use crate::node::empty_node;
use crate::quad_tree::{QuadTree, tree_inserted_all};

verus! {

/// Numerator of the accuracy threshold used each step.
pub const THETA_NUM: u16 = 1;

/// Denominator of the accuracy threshold used each step.
pub const THETA_DEN: u16 = 2;

/// The bodies are real ones with pairwise distinct identities, so that
/// excluding a body's own pull by identity is sound.
pub open spec fn distinct_identities(bodies: Seq<Body>) -> bool {
    &&& forall|i: int| 0 <= i < bodies.len() ==> (#[trigger] bodies[i]).id.is_some()
    &&& forall|i: int, j: int|
        0 <= i < j < bodies.len() ==> (#[trigger] bodies[i]).id != (#[trigger] bodies[j]).id
}

/// Rebuilds the tree from scratch at the start of a step.
pub struct BodyQuadTreeSystem;

/// Selects, for each body, what pulls on it in the current tree.
pub struct BodyForceSystem;

impl BodyQuadTreeSystem {
    /// Empties the tree and inserts every body, in order.
    pub fn run(&mut self, quad_tree: &mut QuadTree, bodies: &Vec<Body>)
        requires
            old(quad_tree).wf(),
            distinct_identities(bodies@),
        ensures
            final(quad_tree).wf(),
            *final(quad_tree).root == tree_inserted_all(
                empty_node(old(quad_tree).root.quadrant),
                bodies@,
            ),
    {
        quad_tree.reset_root();
        let ghost empty = *quad_tree.root;
        let mut i: usize = 0;
        while i < bodies.len()
            invariant
                0 <= i <= bodies@.len(),
                quad_tree.wf(),
                *quad_tree.root == tree_inserted_all(empty, bodies@.subrange(0, i as int)),
            decreases bodies@.len() - i,
        {
            proof {
                assert(bodies@.subrange(0, i + 1).drop_last() =~= bodies@.subrange(0, i as int));
            }
            quad_tree.insert(bodies[i]);
            i = i + 1;
        }
        proof {
            assert(bodies@.subrange(0, bodies@.len() as int) =~= bodies@);
        }
    }
}

impl BodyForceSystem {
    /// For every body, in order, the point masses that act on it under the
    /// step's threshold.
    pub fn run(&self, quad_tree: &QuadTree, bodies: &Vec<Body>) -> (r: Vec<Vec<Body>>)
        requires
            quad_tree.wf(),
            distinct_identities(bodies@),
        ensures
            r@.len() == bodies@.len(),
            forall|i: int|
                0 <= i < bodies@.len() ==> (#[trigger] r@[i])@ == quad_tree.root.sources(
                    bodies@[i],
                    THETA_NUM as int,
                    THETA_DEN as int,
                ),
    {
        let mut r: Vec<Vec<Body>> = Vec::new();
        let mut i: usize = 0;
        while i < bodies.len()
            invariant
                0 <= i <= bodies@.len(),
                quad_tree.wf(),
                r@.len() == i,
                forall|j: int|
                    0 <= j < i ==> (#[trigger] r@[j])@ == quad_tree.root.sources(
                        bodies@[j],
                        THETA_NUM as int,
                        THETA_DEN as int,
                    ),
            decreases bodies@.len() - i,
        {
            let sources = quad_tree.force_sources(&bodies[i], THETA_NUM, THETA_DEN);
            r.push(sources);
            i = i + 1;
        }
        r
    }
}

} // verus!
