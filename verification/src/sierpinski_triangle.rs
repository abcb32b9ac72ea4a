use vstd::prelude::*;

use crate::geometry::Geometry;
use crate::vec2::Vec2;
use crate::vertex::Vertex;

verus! {

/// Bit pattern of the float 0.75.
pub const SIER_TOP_Y: u32 = 0x3F40_0000;

/// Bit pattern of the float -0.75.
pub const SIER_LOW: u32 = 0xBF40_0000;

/// Bit pattern of the float 0.75 (the right corner x), same as the top y.
pub const SIER_RIGHT_X: u32 = 0x3F40_0000;

/// Bit pattern of the float 0.0.
pub const SIER_ZERO: u32 = 0x0000_0000;

/// The seed geometry: one triangle, listed top, left, right, tagged with
/// iteration 0.
pub open spec fn sierpinski_seed() -> Seq<Vertex> {
    seq![
        Vertex { position: Vec2 { x: SIER_ZERO, y: SIER_TOP_Y }, iteration: 0 },
        Vertex { position: Vec2 { x: SIER_LOW, y: SIER_LOW }, iteration: 0 },
        Vertex { position: Vec2 { x: SIER_RIGHT_X, y: SIER_LOW }, iteration: 0 },
    ]
}

pub fn sierpinski_seed_vertices() -> (r: Vec<Vertex>)
    ensures
        r@ == sierpinski_seed(),
{
    let mut r: Vec<Vertex> = Vec::new();
    r.push(Vertex::new(Vec2::new(SIER_ZERO, SIER_TOP_Y), 0));
    r.push(Vertex::new(Vec2::new(SIER_LOW, SIER_LOW), 0));
    r.push(Vertex::new(Vec2::new(SIER_RIGHT_X, SIER_LOW), 0));
    proof {
        assert(r@ =~= sierpinski_seed());
    }
    r
}

/// One Sierpinski refinement of the `k`-th input triangle `(top, left,
/// right)`: three corner triangles — nine output vertices starting at index
/// `9k` — namely (top, m(top,left), m(top,right)), (m(top,left), left,
/// m(left,right)) and (m(top,right), m(left,right), right), the central
/// triangle being discarded. The three corners are carried over bitwise in
/// position; every output vertex, corners included, is tagged with the
/// current iteration. Each midpoint appears twice, bitwise identical.
pub open spec fn sierpinski_group_ok(
    prev: Seq<Vertex>,
    next: Seq<Vertex>,
    it: u32,
    k: int,
) -> bool {
    &&& next[9 * k].position == prev[3 * k].position
    &&& next[9 * k + 1].position == next[9 * k + 3].position
    &&& next[9 * k + 2].position == next[9 * k + 6].position
    &&& next[9 * k + 4].position == prev[3 * k + 1].position
    &&& next[9 * k + 5].position == next[9 * k + 7].position
    &&& next[9 * k + 8].position == prev[3 * k + 2].position
    &&& forall|j: int| 0 <= j < 9 ==> #[trigger] next[9 * k + j].iteration == it
}

/// One full Sierpinski refinement pass: every input triangle is replaced by
/// its three corner triangles, independently, concatenated in input order.
pub open spec fn sierpinski_step_ok(prev: Seq<Vertex>, next: Seq<Vertex>, it: u32) -> bool {
    &&& next.len() == 3 * prev.len()
    &&& forall|k: int| 0 <= k < prev.len() / 3 ==> #[trigger] sierpinski_group_ok(
        prev,
        next,
        it,
        k,
    )
}

/// Apply one Sierpinski refinement pass to `last`, reading it as consecutive
/// triangles and tagging every output vertex with `iteration`.
pub fn sierpinski_next_iteration<G: Geometry>(
    ops: &G,
    last: &Vec<Vertex>,
    iteration: u32,
) -> (r: Vec<Vertex>)
    requires
        last@.len() % 3 == 0,
    ensures
        sierpinski_step_ok(last@, r@, iteration),
{
    let n = last.len();
    let mut out: Vec<Vertex> = Vec::new();
    let mut k: usize = 0;
    while k < n / 3
        invariant
            n == last@.len(),
            n % 3 == 0,
            k <= n / 3,
            out@.len() == 9 * k,
            forall|j: int| 0 <= j < k ==> #[trigger] sierpinski_group_ok(
                last@,
                out@,
                iteration,
                j,
            ),
        decreases n / 3 - k,
    {
        let top = last[3 * k];
        let left = last[3 * k + 1];
        let right = last[3 * k + 2];
        let top_left = ops.midpoint(top.position, left.position);
        let top_right = ops.midpoint(top.position, right.position);
        let bottom = ops.midpoint(left.position, right.position);
        let ghost prev_out = out@;
        out.push(Vertex::new(top.position, iteration));
        out.push(Vertex::new(top_left, iteration));
        out.push(Vertex::new(top_right, iteration));
        out.push(Vertex::new(top_left, iteration));
        out.push(Vertex::new(left.position, iteration));
        out.push(Vertex::new(bottom, iteration));
        out.push(Vertex::new(top_right, iteration));
        out.push(Vertex::new(bottom, iteration));
        out.push(Vertex::new(right.position, iteration));
        proof {
            assert(forall|i: int| 0 <= i < prev_out.len() ==> out@[i] == prev_out[i]);
            assert(sierpinski_group_ok(last@, out@, iteration, k as int));
            assert forall|j: int| 0 <= j < k implies #[trigger] sierpinski_group_ok(
                last@,
                out@,
                iteration,
                j,
            ) by {
                assert(sierpinski_group_ok(last@, prev_out, iteration, j));
            }
        }
        k = k + 1;
    }
    out
}

} // verus!
