use vstd::prelude::*;

use crate::curves::{level_len_of, vertex_format_of, Curves};
use crate::geometry::Geometry;
use crate::mesh;
use crate::vertex::{Vertex, VertexFormat};

verus! {

/// Bit pattern of the float 0.005: the line width used when a line-based
/// curve's output is widened for the throughput measurement.
pub const BENCH_LINE_WIDTH: u32 = 0x3BA3_D70A;

/// The number of vertices the measurement feeds the mesh builder for the
/// given kind and iteration (1 = the seed): the level's vertex count,
/// tripled by widening for the line-based kinds.
pub open spec fn bench_vertex_count(curve: Curves, iteration: usize) -> int {
    match vertex_format_of(curve) {
        VertexFormat::Lines => 3 * level_len_of(curve, iteration - 1),
        VertexFormat::Triangles => level_len_of(curve, iteration - 1),
    }
}

/// Whether the measurement at this depth stays within the 32-bit index
/// space that the mesh builder addresses.
pub open spec fn bench_len_ok(curve: Curves, iteration: usize) -> bool {
    &&& 1 <= iteration <= 0xFFFF_FFFE
    &&& bench_vertex_count(curve, iteration) <= 0xFFFF_FFFF
}

/// The whole pipeline for one curve kind at one iteration (1 = the seed):
/// expand the curve, widen the output into triangles where the kind is
/// line-based, then deduplicate into a vertex buffer and an index buffer.
/// Timing the call is the caller's business; the buffers are returned so
/// that nothing is optimized away.
pub fn run<G: Geometry>(ops: &G, iteration: usize, curve: Curves) -> (r: (Vec<Vertex>, Vec<u32>))
    requires
        bench_len_ok(curve, iteration),
    ensures
        r.1@.len() == bench_vertex_count(curve, iteration),
        mesh::strictly_sorted_vertices(r.0@),
        r.0@.len() <= r.1@.len(),
{
    let mut curve_instance = curve.new_instance();
    let vertex_format = curve_instance.vertex_format();
    let unformatted = curve_instance.vertices(ops, iteration - 1);
    match vertex_format {
        VertexFormat::Lines => {
            let widened = mesh::lines_as_triangles(ops, unformatted, BENCH_LINE_WIDTH);
            mesh::index(&widened)
        },
        VertexFormat::Triangles => mesh::index(unformatted),
    }
}

} // verus!
