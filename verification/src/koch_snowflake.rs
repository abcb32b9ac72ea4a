use vstd::prelude::*;

use crate::geometry::Geometry;
use crate::vec2::Vec2;
use crate::vertex::Vertex;

verus! {

/// Bit pattern of the float 0.75.
pub const KOCH_RIGHT_X: u32 = 0x3F40_0000;

/// Bit pattern of the float -0.75.
pub const KOCH_LEFT_X: u32 = 0xBF40_0000;

/// Bit pattern of the float -0.45.
pub const KOCH_BASE_Y: u32 = 0xBEE6_6666;

/// Bit pattern of the float 0.75 (the apex y), same pattern as the right x.
pub const KOCH_TOP_Y: u32 = 0x3F40_0000;

/// Bit pattern of the float 0.0.
pub const COORD_ZERO: u32 = 0x0000_0000;

/// The seed geometry: the three edges of an equilateral-looking triangle as
/// three directed segments, all traversed counter-clockwise so that the
/// clockwise orthogonal of each edge points outward, and all tagged with
/// iteration 0.
pub open spec fn koch_seed() -> Seq<Vertex> {
    seq![
        Vertex { position: Vec2 { x: KOCH_LEFT_X, y: KOCH_BASE_Y }, iteration: 0 },
        Vertex { position: Vec2 { x: KOCH_RIGHT_X, y: KOCH_BASE_Y }, iteration: 0 },
        Vertex { position: Vec2 { x: KOCH_RIGHT_X, y: KOCH_BASE_Y }, iteration: 0 },
        Vertex { position: Vec2 { x: COORD_ZERO, y: KOCH_TOP_Y }, iteration: 0 },
        Vertex { position: Vec2 { x: COORD_ZERO, y: KOCH_TOP_Y }, iteration: 0 },
        Vertex { position: Vec2 { x: KOCH_LEFT_X, y: KOCH_BASE_Y }, iteration: 0 },
    ]
}

pub fn koch_seed_vertices() -> (r: Vec<Vertex>)
    ensures
        r@ == koch_seed(),
{
    let mut r: Vec<Vertex> = Vec::new();
    r.push(Vertex::new(Vec2::new(KOCH_LEFT_X, KOCH_BASE_Y), 0));
    r.push(Vertex::new(Vec2::new(KOCH_RIGHT_X, KOCH_BASE_Y), 0));
    r.push(Vertex::new(Vec2::new(KOCH_RIGHT_X, KOCH_BASE_Y), 0));
    r.push(Vertex::new(Vec2::new(COORD_ZERO, KOCH_TOP_Y), 0));
    r.push(Vertex::new(Vec2::new(COORD_ZERO, KOCH_TOP_Y), 0));
    r.push(Vertex::new(Vec2::new(KOCH_LEFT_X, KOCH_BASE_Y), 0));
    proof {
        assert(r@ =~= koch_seed());
    }
    r
}

/// One Koch refinement of the `k`-th input segment. The segment `(a, b)` at
/// input pair `k` becomes four segments — eight output vertices starting at
/// index `8k` — visiting `a`, the one-third point, the apex, the two-thirds
/// point and `b` in order. The endpoints `a` and `b` are carried over
/// bitwise with their tags; both interior copies of the one-third point keep
/// `a`'s tag, both copies of the two-thirds point keep `b`'s tag, and both
/// copies of the apex are tagged with the current iteration.
pub open spec fn koch_group_ok(prev: Seq<Vertex>, next: Seq<Vertex>, it: u32, k: int) -> bool {
    &&& next[8 * k] == prev[2 * k]
    &&& next[8 * k + 1].iteration == prev[2 * k].iteration
    &&& next[8 * k + 2] == next[8 * k + 1]
    &&& next[8 * k + 3].iteration == it
    &&& next[8 * k + 4] == next[8 * k + 3]
    &&& next[8 * k + 5].iteration == prev[2 * k + 1].iteration
    &&& next[8 * k + 6] == next[8 * k + 5]
    &&& next[8 * k + 7] == prev[2 * k + 1]
}

/// One full Koch refinement pass: every input segment is replaced by four,
/// independently, and the outputs are concatenated in input order.
pub open spec fn koch_step_ok(prev: Seq<Vertex>, next: Seq<Vertex>, it: u32) -> bool {
    &&& next.len() == 4 * prev.len()
    &&& forall|k: int| 0 <= k < prev.len() / 2 ==> #[trigger] koch_group_ok(prev, next, it, k)
}

/// Apply one Koch refinement pass to `last`, reading it as consecutive
/// directed segments and tagging each new apex with `iteration`.
pub fn koch_next_iteration<G: Geometry>(ops: &G, last: &Vec<Vertex>, iteration: u32) -> (r: Vec<
    Vertex,
>)
    requires
        last@.len() % 2 == 0,
    ensures
        koch_step_ok(last@, r@, iteration),
{
    let n = last.len();
    let mut out: Vec<Vertex> = Vec::new();
    let mut k: usize = 0;
    while k < n / 2
        invariant
            n == last@.len(),
            n % 2 == 0,
            k <= n / 2,
            out@.len() == 8 * k,
            forall|j: int| 0 <= j < k ==> #[trigger] koch_group_ok(last@, out@, iteration, j),
        decreases n / 2 - k,
    {
        let a = last[2 * k];
        let b = last[2 * k + 1];
        let (third_a, top, third_b) = ops.koch_points(a.position, b.position);
        let ghost prev_out = out@;
        out.push(a);
        out.push(Vertex::new(third_a, a.iteration));
        out.push(Vertex::new(third_a, a.iteration));
        out.push(Vertex::new(top, iteration));
        out.push(Vertex::new(top, iteration));
        out.push(Vertex::new(third_b, b.iteration));
        out.push(Vertex::new(third_b, b.iteration));
        out.push(b);
        proof {
            assert(forall|i: int| 0 <= i < prev_out.len() ==> out@[i] == prev_out[i]);
            assert(koch_group_ok(last@, out@, iteration, k as int));
            assert forall|j: int| 0 <= j < k implies #[trigger] koch_group_ok(
                last@,
                out@,
                iteration,
                j,
            ) by {
                assert(koch_group_ok(last@, prev_out, iteration, j));
            }
        }
        k = k + 1;
    }
    out
}

} // verus!
