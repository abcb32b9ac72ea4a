use vstd::prelude::*;

use crate::vec2::Vec2;

verus! {

/// A vertex of the generated geometry: a 2D point (as float bit patterns)
/// tagged with the refinement iteration that first produced it. The tag is
/// preserved unchanged by every later iteration that still references the
/// point; it is only used downstream for shading by age, never for indexing.
#[derive(Clone, Copy, PartialEq, Eq, Structural, Debug, Hash)]
pub struct Vertex {
    pub position: Vec2,
    /// fractal iteration this vertex was created in, 0 meaning the seed
    pub iteration: u32,
}

impl Vertex {
    pub fn new(position: Vec2, iteration: u32) -> (r: Self)
        ensures
            r == (Vertex { position, iteration }),
    {
        Vertex { position, iteration }
    }
}

/// Describes how an array of vertices should be interpreted.
#[derive(Clone, Copy, PartialEq, Eq, Structural, Debug)]
pub enum VertexFormat {
    /// groups of two form line segments
    Lines,
    /// groups of three form triangles
    Triangles,
}

/// A vertex's three 32-bit fields packed into one integer, ordering vertices
/// lexicographically by (x bits, y bits, iteration). Two vertices are equal
/// exactly when their keys are equal, which is what deduplication compares.
pub open spec fn vertex_key(v: Vertex) -> int {
    (v.position.x as int) * 0x1_0000_0000_0000_0000
        + (v.position.y as int) * 0x1_0000_0000
        + (v.iteration as int)
}

/// Keys determine vertices: the packing is injective.
pub proof fn lemma_vertex_key_injective(a: Vertex, b: Vertex)
    requires
        vertex_key(a) == vertex_key(b),
    ensures
        a == b,
{
}

} // verus!
