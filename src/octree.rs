//! The spatial index that the neighbour search may one day use. Only an
//! empty tree exists so far: the stages enumerate all pairs.
use vstd::prelude::*;

use crate::geometry::Vec3;

verus! {

/// Depth to which the tree may split.
pub const OCTREE_MAX_DEPTH: usize = 10;

/// Half the edge of the root cell (400 world units).
pub const OCTREE_HALF_EDGE: i64 = 40_000;

/// A cell: either split into child cells or holding points.
pub enum OctreeNode {
    Branch(Vec<OctreeNode>),
    Leaf(Vec<Vec3>),
}

pub struct Octree {
    pub root: OctreeNode,
    pub max_depth: usize,
    pub length: i64,
    pub center: Vec3,
}

impl Octree {
    /// An empty tree around the origin.
    pub fn new(max_depth: usize) -> (t: Octree)
        ensures
            t.root is Leaf,
            t.root->Leaf_0@.len() == 0,
            t.max_depth == max_depth,
            t.length == OCTREE_HALF_EDGE,
            t.center == Vec3::spec_zero(),
    {
        Octree {
            root: OctreeNode::Leaf(Vec::new()),
            max_depth,
            length: OCTREE_HALF_EDGE,
            center: Vec3::zero(),
        }
    }
}

/// The tree that a simulation starts with.
pub fn initialize_octree() -> (t: Octree)
    ensures
        t.root is Leaf,
        t.root->Leaf_0@.len() == 0,
        t.max_depth == OCTREE_MAX_DEPTH,
        t.length == OCTREE_HALF_EDGE,
        t.center == Vec3::spec_zero(),
{
    Octree::new(OCTREE_MAX_DEPTH)
}

} // verus!
