//! Barnes-Hut quadtree over an integer lattice: spatial subdivision, exact
//! mass-moment aggregation, subtree merging and the theta-thresholded
//! selection of the point masses that act on a body.

pub mod coordinate;
pub mod quadrant;
pub mod body;
pub mod node;
pub mod quad_tree;
pub mod systems;
pub mod theorems;
