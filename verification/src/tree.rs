//! Trees and forests: the renderable output of the generator.

use vstd::prelude::*;
use crate::geometry::Vertex;

verus! {

/// An ordered, append-only collection of vertices together with an index list
/// in line-list topology: each consecutive index pair describes one
/// independent line segment.
pub struct Tree {
    pub vertices: Vec<Vertex>,
    pub indices: Vec<u32>,
}

impl Tree {
    /// Well-formed: the generator appends one index right after each vertex,
    /// so position `k` of the index list holds index `k`, every index refers
    /// to an already appended vertex, and every index fits in `u32`.
    pub open spec fn wf(self) -> bool {
        &&& self.indices@.len() == self.vertices@.len()
        &&& self.vertices@.len() <= 0x1_0000_0000
        &&& forall|k: int| 0 <= k < self.indices@.len() ==> self.indices@[k] as int == k
    }

    /// An empty tree, ready to be populated by the generator.
    pub fn new() -> (t: Self)
        ensures
            t.wf(),
            t.vertices@.len() == 0,
            t.indices@.len() == 0,
    {
        Self { vertices: Vec::new(), indices: Vec::new() }
    }
}

/// An ordered sequence of independently generated trees sharing generation
/// parameters.
pub struct Forest {
    pub trees: Vec<Tree>,
}

impl Forest {
    /// An empty forest.
    pub fn new() -> (f: Self)
        ensures
            f.trees@.len() == 0,
    {
        Self { trees: Vec::new() }
    }
}

} // verus!
