use vstd::prelude::*;

use rayon::prelude::ParallelSliceMut;

use crate::geometry::Geometry;
use crate::vertex::{lemma_vertex_key_injective, vertex_key, Vertex};

verus! {

use vstd::arithmetic::div_mod::{lemma_fundamental_div_mod, lemma_mod_bound};
use vstd::arithmetic::mul::lemma_mul_inequality;
use vstd::seq_lib::group_to_multiset_ensures;

/// 2 to the 64th: the weight of the x coordinate in a packed vertex key.
pub const KEY_X_FACTOR: u128 = 0x1_0000_0000_0000_0000;

/// 2 to the 32nd: the weight of the y coordinate in a packed vertex key.
pub const KEY_Y_FACTOR: u128 = 0x1_0000_0000;

/// 2 to the 96th: every packed vertex key is below this bound.
pub const KEY_BOUND: u128 = 0x1_0000_0000_0000_0000_0000_0000;

/// Ascending order, possibly with repeats.
pub open spec fn sorted_keys(s: Seq<u128>) -> bool {
    forall|i: int, j: int| 0 <= i <= j < s.len() ==> s[i] <= s[j]
}

/// Strictly ascending order: sorted and free of repeats.
pub open spec fn strictly_sorted_keys(s: Seq<u128>) -> bool {
    forall|i: int, j: int| 0 <= i < j < s.len() ==> s[i] < s[j]
}

/// Vertices in strictly ascending key order: sorted and, since the key
/// packing is injective, pairwise distinct.
pub open spec fn strictly_sorted_vertices(s: Seq<Vertex>) -> bool {
    forall|i: int, j: int| 0 <= i < j < s.len() ==> vertex_key(s[i]) < vertex_key(s[j])
}

/// Pack a vertex's three 32-bit fields into the integer that orders
/// vertices lexicographically by (x bits, y bits, iteration).
fn pack_key(v: &Vertex) -> (r: u128)
    ensures
        r as int == vertex_key(*v),
        r < KEY_BOUND,
{
    (v.position.x as u128) * KEY_X_FACTOR + (v.position.y as u128) * KEY_Y_FACTOR + (
    v.iteration as u128)
}

/// Recover the unique vertex with the given packed key.
fn unpack_key(p: u128) -> (r: Vertex)
    requires
        p < KEY_BOUND,
    ensures
        vertex_key(r) == p as int,
{
    let x = (p / KEY_X_FACTOR) as u32;
    let rest = p % KEY_X_FACTOR;
    let y = (rest / KEY_Y_FACTOR) as u32;
    let it = (rest % KEY_Y_FACTOR) as u32;
    proof {
        lemma_fundamental_div_mod(p as int, KEY_X_FACTOR as int);
        lemma_mod_bound(p as int, KEY_X_FACTOR as int);
        assert((p as int) / (KEY_X_FACTOR as int) < 0x1_0000_0000) by {
            if (p as int) / (KEY_X_FACTOR as int) >= 0x1_0000_0000 {
                lemma_mul_inequality(
                    0x1_0000_0000,
                    (p as int) / (KEY_X_FACTOR as int),
                    KEY_X_FACTOR as int,
                );
            }
        }
        lemma_fundamental_div_mod(rest as int, KEY_Y_FACTOR as int);
        lemma_mod_bound(rest as int, KEY_Y_FACTOR as int);
        assert((rest as int) / (KEY_Y_FACTOR as int) < 0x1_0000_0000) by {
            if (rest as int) / (KEY_Y_FACTOR as int) >= 0x1_0000_0000 {
                lemma_mul_inequality(
                    0x1_0000_0000,
                    (rest as int) / (KEY_Y_FACTOR as int),
                    KEY_Y_FACTOR as int,
                );
            }
        }
    }
    Vertex::new(crate::vec2::Vec2::new(x, y), it)
}

/// Relies on rayon's `par_sort_unstable` on a `u128` slice: it sorts the
/// slice in place (pattern-defeating quicksort with a fixed seed). On a
/// totally ordered integer element the result is exactly the ascending
/// rearrangement of the input: same multiset of elements, in order.
#[verifier::external_body]
fn par_sort_keys(keys: &mut Vec<u128>)
    ensures
        final(keys)@.to_multiset() == old(keys)@.to_multiset(),
        sorted_keys(final(keys)@),
{
    keys.par_sort_unstable();
}

/// Collapse runs of equal keys in a sorted sequence: the result is strictly
/// sorted and holds exactly the distinct values of the input.
fn dedup_sorted(keys: &Vec<u128>) -> (r: Vec<u128>)
    requires
        sorted_keys(keys@),
    ensures
        strictly_sorted_keys(r@),
        forall|x: u128| r@.contains(x) <==> keys@.contains(x),
        r@.len() <= keys@.len(),
{
    let n = keys.len();
    let mut out: Vec<u128> = Vec::new();
    let mut i: usize = 0;
    while i < n
        invariant
            n == keys@.len(),
            i <= n,
            sorted_keys(keys@),
            strictly_sorted_keys(out@),
            out@.len() <= i,
            forall|x: u128| out@.contains(x) <==> keys@.take(i as int).contains(x),
            i > 0 ==> out@.len() > 0 && out@[out@.len() - 1] == keys@[i as int - 1],
        decreases n - i,
    {
        let k = keys[i];
        let ghost pre_out = out@;
        let push_it = if out.len() == 0 {
            true
        } else {
            *out.last().unwrap() != k
        };
        if push_it {
            out.push(k);
        }
        proof {
            assert(keys@.take(i as int + 1) =~= keys@.take(i as int).push(k));
            assert forall|x: u128| out@.contains(x) implies keys@.take(i as int + 1).contains(
                x,
            ) by {
                if pre_out.contains(x) {
                    let t = choose|t: int| 0 <= t < pre_out.len() && pre_out[t] == x;
                    assert(keys@.take(i as int).contains(x));
                    let u = choose|u: int|
                        0 <= u < keys@.take(i as int).len() && keys@.take(i as int)[u] == x;
                    assert(keys@.take(i as int + 1)[u] == x);
                } else {
                    assert(x == k);
                    assert(keys@.take(i as int + 1)[i as int] == k);
                }
            }
            assert forall|x: u128| keys@.take(i as int + 1).contains(x) implies out@.contains(
                x,
            ) by {
                let t = choose|t: int|
                    0 <= t < keys@.take(i as int + 1).len() && #[trigger] keys@.take(
                        i as int + 1,
                    )[t] == x;
                if t < i {
                    assert(keys@.take(i as int)[t] == x);
                    assert(keys@.take(i as int).contains(x));
                    assert(pre_out.contains(x));
                    let u = choose|u: int| 0 <= u < pre_out.len() && pre_out[u] == x;
                    assert(out@[u] == x);
                } else {
                    assert(x == k);
                    if push_it {
                        assert(out@[out@.len() - 1] == k);
                    } else {
                        assert(pre_out[pre_out.len() - 1] == k);
                        assert(out@[out@.len() - 1] == k);
                    }
                }
            }
        }
        i = i + 1;
    }
    proof {
        assert(keys@.take(n as int) =~= keys@);
    }
    out
}

/// Binary search for a key known to be present in a sorted sequence.
fn find_key(keys: &Vec<u128>, target: u128) -> (r: usize)
    requires
        sorted_keys(keys@),
        keys@.contains(target),
    ensures
        r < keys@.len(),
        keys@[r as int] == target,
{
    let mut lo: usize = 0;
    let mut hi: usize = keys.len();
    while lo < hi
        invariant
            lo <= hi <= keys@.len(),
            sorted_keys(keys@),
            keys@.contains(target),
            forall|t: int| 0 <= t < lo ==> keys@[t] < target,
            forall|t: int| hi <= t < keys@.len() ==> keys@[t] > target,
        decreases hi - lo,
    {
        let mid = lo + (hi - lo) / 2;
        let k = keys[mid];
        if k < target {
            lo = mid + 1;
        } else if k > target {
            hi = mid;
        } else {
            return mid;
        }
    }
    proof {
        let t = choose|t: int| 0 <= t < keys@.len() && keys@[t] == target;
        assert(false);
    }
    unreached()
}

/// Transform an ordered, duplicate-heavy vertex stream into the array of
/// its distinct vertices plus an index array referencing it.
///
/// Two vertices are the same exactly when their coordinate bit patterns and
/// iteration tags are all equal; nothing is compared numerically. The
/// result is fully determined: the unique array lists the distinct vertices
/// of the input in ascending key order — so its length never exceeds the
/// input's — and the index array has one entry per input vertex, pointing
/// at the copy of that exact vertex in the unique array.
///
/// The input length must fit the 32-bit index space; a longer input could
/// not be indexed and is a capacity violation.
pub fn index(vertices: &Vec<Vertex>) -> (r: (Vec<Vertex>, Vec<u32>))
    requires
        vertices@.len() <= 0xFFFF_FFFF,
    ensures
        r.1@.len() == vertices@.len(),
        forall|i: int|
            0 <= i < vertices@.len() ==> (#[trigger] r.1@[i]) < r.0@.len() && r.0@[r.1@[i] as int]
                == vertices@[i],
        strictly_sorted_vertices(r.0@),
        forall|j: int| 0 <= j < r.0@.len() ==> vertices@.contains(#[trigger] r.0@[j]),
        r.0@.len() <= vertices@.len(),
{
    broadcast use group_to_multiset_ensures;

    let n = vertices.len();
    let mut keys: Vec<u128> = Vec::new();
    let mut skeys: Vec<u128> = Vec::new();
    let mut i: usize = 0;
    while i < n
        invariant
            n == vertices@.len(),
            i <= n,
            keys@.len() == i,
            skeys@ == keys@,
            forall|j: int|
                0 <= j < i ==> (#[trigger] keys@[j]) as int == vertex_key(vertices@[j])
                    && keys@[j] < KEY_BOUND,
        decreases n - i,
    {
        let k = pack_key(&vertices[i]);
        keys.push(k);
        skeys.push(k);
        i = i + 1;
    }
    par_sort_keys(&mut skeys);
    let unique_keys = dedup_sorted(&skeys);
    proof {
        assert forall|x: u128| keys@.contains(x) <==> skeys@.contains(x) by {
            assert(keys@.to_multiset() == skeys@.to_multiset());
            assert(keys@.to_multiset().count(x) == skeys@.to_multiset().count(x));
        }
        assert(skeys@.len() == keys@.len()) by {
            assert(keys@.to_multiset().len() == keys@.len());
            assert(skeys@.to_multiset().len() == skeys@.len());
        }
    }
    let m = unique_keys.len();
    let mut unique: Vec<Vertex> = Vec::new();
    let mut j: usize = 0;
    while j < m
        invariant
            m == unique_keys@.len(),
            j <= m,
            unique@.len() == j,
            forall|x: u128| unique_keys@.contains(x) ==> keys@.contains(x),
            keys@.len() == n,
            forall|t: int|
                0 <= t < keys@.len() ==> (#[trigger] keys@[t]) as int == vertex_key(vertices@[t])
                    && keys@[t] < KEY_BOUND,
            n == vertices@.len(),
            forall|t: int|
                0 <= t < j ==> vertex_key(#[trigger] unique@[t]) == unique_keys@[t] as int,
            forall|t: int| 0 <= t < j ==> vertices@.contains(#[trigger] unique@[t]),
        decreases m - j,
    {
        let uk = unique_keys[j];
        proof {
            assert(unique_keys@.contains(uk));
            assert(keys@.contains(uk));
            let t = choose|t: int| 0 <= t < keys@.len() && keys@[t] == uk;
            assert(keys@[t] < KEY_BOUND);
        }
        let v = unpack_key(uk);
        proof {
            let t = choose|t: int| 0 <= t < keys@.len() && keys@[t] == uk;
            assert(vertex_key(vertices@[t]) == vertex_key(v));
            lemma_vertex_key_injective(vertices@[t], v);
            assert(vertices@.contains(v));
        }
        unique.push(v);
        j = j + 1;
    }
    let mut indices: Vec<u32> = Vec::new();
    let mut i: usize = 0;
    while i < n
        invariant
            n == vertices@.len(),
            n <= 0xFFFF_FFFF,
            i <= n,
            indices@.len() == i,
            keys@.len() == n,
            unique@.len() == unique_keys@.len(),
            unique_keys@.len() <= n,
            sorted_keys(unique_keys@),
            forall|x: u128| keys@.contains(x) ==> unique_keys@.contains(x),
            forall|t: int|
                0 <= t < keys@.len() ==> (#[trigger] keys@[t]) as int == vertex_key(vertices@[t]),
            forall|t: int|
                0 <= t < unique@.len() ==> vertex_key(#[trigger] unique@[t]) == unique_keys@[t]
                    as int,
            forall|t: int|
                0 <= t < i ==> (#[trigger] indices@[t]) < unique@.len() && unique@[indices@[t]
                    as int] == vertices@[t],
        decreases n - i,
    {
        let k = keys[i];
        proof {
            assert(keys@.contains(k));
        }
        let pos = find_key(&unique_keys, k);
        proof {
            assert(vertex_key(unique@[pos as int]) == vertex_key(vertices@[i as int]));
            lemma_vertex_key_injective(unique@[pos as int], vertices@[i as int]);
        }
        indices.push(pos as u32);
        i = i + 1;
    }
    (unique, indices)
}

/// Two sequences of vertices in strictly ascending key order that hold the
/// same set of vertices are the same sequence.
pub proof fn lemma_strictly_sorted_same_set(a: Seq<Vertex>, b: Seq<Vertex>)
    requires
        strictly_sorted_vertices(a),
        strictly_sorted_vertices(b),
        forall|x: Vertex| a.contains(x) <==> b.contains(x),
    ensures
        a =~= b,
    decreases a.len(),
{
    if a.len() == 0 {
        if b.len() > 0 {
            assert(b.contains(b[0]));
            assert(a.contains(b[0]));
        }
    } else {
        assert(a.contains(a[0]));
        assert(b.contains(a[0]));
        let s = choose|s: int| 0 <= s < b.len() && b[s] == a[0];
        assert(b.contains(b[0]));
        assert(a.contains(b[0]));
        let t = choose|t: int| 0 <= t < a.len() && a[t] == b[0];
        assert(vertex_key(a[0]) <= vertex_key(a[t]));
        assert(vertex_key(b[0]) <= vertex_key(b[s]));
        lemma_vertex_key_injective(a[0], b[0]);
        assert(a[0] == b[0]);
        assert forall|x: Vertex| a.skip(1).contains(x) <==> b.skip(1).contains(x) by {
            if a.skip(1).contains(x) {
                let u = choose|u: int| 0 <= u < a.skip(1).len() && a.skip(1)[u] == x;
                assert(a[u + 1] == x);
                assert(vertex_key(a[0]) < vertex_key(x));
                assert(b.contains(x));
                let w = choose|w: int| 0 <= w < b.len() && b[w] == x;
                assert(w != 0);
                assert(b.skip(1)[w - 1] == x);
                assert(b.skip(1).contains(x));
            }
            if b.skip(1).contains(x) {
                let u = choose|u: int| 0 <= u < b.skip(1).len() && b.skip(1)[u] == x;
                assert(b[u + 1] == x);
                assert(vertex_key(b[0]) < vertex_key(x));
                assert(a.contains(x));
                let w = choose|w: int| 0 <= w < a.len() && a[w] == x;
                assert(w != 0);
                assert(a.skip(1)[w - 1] == x);
                assert(a.skip(1).contains(x));
            }
        }
        lemma_strictly_sorted_same_set(a.skip(1), b.skip(1));
        assert(a =~= seq![a[0]] + a.skip(1));
        assert(b =~= seq![b[0]] + b.skip(1));
    }
}

/// Deduplication is fully determined: any two outputs that meet the
/// deduplication contract on the same input are identical, in the unique
/// array and in every index entry.
pub proof fn lemma_index_deterministic(
    v: Seq<Vertex>,
    unique1: Seq<Vertex>,
    indices1: Seq<u32>,
    unique2: Seq<Vertex>,
    indices2: Seq<u32>,
)
    requires
        indices1.len() == v.len(),
        forall|i: int|
            0 <= i < v.len() ==> (#[trigger] indices1[i]) < unique1.len()
                && unique1[indices1[i] as int] == v[i],
        strictly_sorted_vertices(unique1),
        forall|j: int| 0 <= j < unique1.len() ==> v.contains(#[trigger] unique1[j]),
        indices2.len() == v.len(),
        forall|i: int|
            0 <= i < v.len() ==> (#[trigger] indices2[i]) < unique2.len()
                && unique2[indices2[i] as int] == v[i],
        strictly_sorted_vertices(unique2),
        forall|j: int| 0 <= j < unique2.len() ==> v.contains(#[trigger] unique2[j]),
    ensures
        unique1 =~= unique2,
        indices1 =~= indices2,
{
    assert forall|x: Vertex| unique1.contains(x) <==> unique2.contains(x) by {
        if unique1.contains(x) {
            let j = choose|j: int| 0 <= j < unique1.len() && unique1[j] == x;
            assert(v.contains(x));
            let i = choose|i: int| 0 <= i < v.len() && v[i] == x;
            assert(unique2[indices2[i] as int] == x);
            assert(unique2.contains(x));
        }
        if unique2.contains(x) {
            let j = choose|j: int| 0 <= j < unique2.len() && unique2[j] == x;
            assert(v.contains(x));
            let i = choose|i: int| 0 <= i < v.len() && v[i] == x;
            assert(unique1[indices1[i] as int] == x);
            assert(unique1.contains(x));
        }
    }
    lemma_strictly_sorted_same_set(unique1, unique2);
    assert forall|i: int| 0 <= i < v.len() implies indices1[i] == indices2[i] by {
        assert(unique1[indices1[i] as int] == v[i]);
        assert(unique2[indices2[i] as int] == v[i]);
        let p1 = indices1[i] as int;
        let p2 = indices2[i] as int;
        if p1 < p2 {
            assert(vertex_key(unique1[p1]) < vertex_key(unique2[p2]));
        }
        if p2 < p1 {
            assert(vertex_key(unique2[p2]) < vertex_key(unique1[p1]));
        }
    }
}

/// Deduplicating an already deduplicated stream changes nothing: on an
/// input that is its own unique array — strictly sorted, hence duplicate
/// free — any output meeting the deduplication contract returns the input
/// itself together with the identity index mapping.
pub proof fn lemma_index_idempotent(v: Seq<Vertex>, unique: Seq<Vertex>, indices: Seq<u32>)
    requires
        strictly_sorted_vertices(v),
        indices.len() == v.len(),
        forall|i: int|
            0 <= i < v.len() ==> (#[trigger] indices[i]) < unique.len() && unique[indices[i]
                as int] == v[i],
        strictly_sorted_vertices(unique),
        forall|j: int| 0 <= j < unique.len() ==> v.contains(#[trigger] unique[j]),
    ensures
        unique =~= v,
        forall|i: int| 0 <= i < indices.len() ==> indices[i] == i,
{
    assert forall|x: Vertex| unique.contains(x) <==> v.contains(x) by {
        if v.contains(x) {
            let i = choose|i: int| 0 <= i < v.len() && v[i] == x;
            assert(unique[indices[i] as int] == x);
            assert(unique.contains(x));
        }
    }
    lemma_strictly_sorted_same_set(unique, v);
    assert forall|i: int| 0 <= i < indices.len() implies indices[i] == i by {
        let p = indices[i] as int;
        assert(unique[p] == v[i]);
        if p < i {
            assert(vertex_key(v[p]) < vertex_key(v[i]));
        }
        if i < p {
            assert(vertex_key(v[i]) < vertex_key(v[p]));
        }
    }
}

/// The six widened vertices of the `k`-th input segment `(a, b)`: two
/// triangles covering the rectangle with corners `a1, a2, b1, b2` (each
/// endpoint displaced by the two opposite half-width offsets), emitted as
/// `a1 a2 b1` and `b1 a2 b2`. The shared corners are bitwise identical, and
/// each output vertex keeps the iteration tag of the endpoint it came from:
/// `a`'s tag on the vertices at `a`'s end, `b`'s tag at `b`'s end.
pub open spec fn widen_group_ok(prev: Seq<Vertex>, next: Seq<Vertex>, k: int) -> bool {
    &&& next[6 * k].iteration == prev[2 * k].iteration
    &&& next[6 * k + 1].iteration == prev[2 * k].iteration
    &&& next[6 * k + 2].iteration == prev[2 * k + 1].iteration
    &&& next[6 * k + 3] == next[6 * k + 2]
    &&& next[6 * k + 4] == next[6 * k + 1]
    &&& next[6 * k + 5].iteration == prev[2 * k + 1].iteration
}

/// The whole widening pass: each input segment becomes six vertices,
/// independently, concatenated in input order.
pub open spec fn widen_ok(prev: Seq<Vertex>, next: Seq<Vertex>) -> bool {
    &&& next.len() == 3 * prev.len()
    &&& forall|k: int| 0 <= k < prev.len() / 2 ==> #[trigger] widen_group_ok(prev, next, k)
}

/// Convert zero-width line segments into width-bearing triangle quads:
/// `vertices` is read as consecutive segment pairs, and each segment is
/// replaced by the two triangles of the rectangle of width `line_width` (a
/// float bit pattern) centered on it. The input length must be even; empty
/// input gives empty output.
pub fn lines_as_triangles<G: Geometry>(
    ops: &G,
    vertices: &Vec<Vertex>,
    line_width: u32,
) -> (r: Vec<Vertex>)
    requires
        vertices@.len() % 2 == 0,
    ensures
        widen_ok(vertices@, r@),
{
    let n = vertices.len();
    let mut out: Vec<Vertex> = Vec::new();
    let mut k: usize = 0;
    while k < n / 2
        invariant
            n == vertices@.len(),
            n % 2 == 0,
            k <= n / 2,
            out@.len() == 6 * k,
            forall|j: int| 0 <= j < k ==> #[trigger] widen_group_ok(vertices@, out@, j),
        decreases n / 2 - k,
    {
        let a = vertices[2 * k];
        let b = vertices[2 * k + 1];
        let (a1, a2, b1, b2) = ops.widen_corners(a.position, b.position, line_width);
        let ghost prev_out = out@;
        out.push(Vertex::new(a1, a.iteration));
        out.push(Vertex::new(a2, a.iteration));
        out.push(Vertex::new(b1, b.iteration));
        out.push(Vertex::new(b1, b.iteration));
        out.push(Vertex::new(a2, a.iteration));
        out.push(Vertex::new(b2, b.iteration));
        proof {
            assert(forall|i: int| 0 <= i < prev_out.len() ==> out@[i] == prev_out[i]);
            assert(widen_group_ok(vertices@, out@, k as int));
            assert forall|j: int| 0 <= j < k implies #[trigger] widen_group_ok(
                vertices@,
                out@,
                j,
            ) by {
                assert(widen_group_ok(vertices@, prev_out, j));
            }
        }
        k = k + 1;
    }
    out
}

} // verus!
