use vstd::prelude::*;

use crate::geometry::Geometry;
use crate::vec2::Vec2;
use crate::vertex::Vertex;

verus! {

/// Bit pattern of the float -0.25 (the seed stem's top y).
pub const CANOPY_TOP_Y: u32 = 0xBE80_0000;

/// Bit pattern of the float -0.75 (the seed stem's bottom y).
pub const CANOPY_BOTTOM_Y: u32 = 0xBF40_0000;

/// Bit pattern of the float 0.0.
pub const CANOPY_ZERO: u32 = 0x0000_0000;

/// The canopy's two branch angles are multiples of a fixed step, each step a
/// twentieth of pi. Holding the angles as step counts makes the bounded
/// increment operation exact.
pub const ANGLE_STEPS_MIN: u8 = 1;

/// Ten steps are half of pi, the largest legal branch angle.
pub const ANGLE_STEPS_MAX: u8 = 10;

/// The initial left angle, a fifth of pi.
pub const INITIAL_LEFT_STEPS: u8 = 4;

/// The initial right angle, seven twentieths of pi.
pub const INITIAL_RIGHT_STEPS: u8 = 7;

/// The seed geometry: a single vertical stem, stored tip first (top, then
/// bottom) so that a segment's first vertex is the end it grows from, both
/// tagged with iteration 0.
pub open spec fn canopy_seed() -> Seq<Vertex> {
    seq![
        Vertex { position: Vec2 { x: CANOPY_ZERO, y: CANOPY_TOP_Y }, iteration: 0 },
        Vertex { position: Vec2 { x: CANOPY_ZERO, y: CANOPY_BOTTOM_Y }, iteration: 0 },
    ]
}

pub fn canopy_seed_vertices() -> (r: Vec<Vertex>)
    ensures
        r@ == canopy_seed(),
{
    let mut r: Vec<Vertex> = Vec::new();
    r.push(Vertex::new(Vec2::new(CANOPY_ZERO, CANOPY_TOP_Y), 0));
    r.push(Vertex::new(Vec2::new(CANOPY_ZERO, CANOPY_BOTTOM_Y), 0));
    proof {
        assert(r@ =~= canopy_seed());
    }
    r
}

/// The number of segments (consecutive pairs) of `s` whose first vertex —
/// the tip the segment grows from — carries tag `tag`. Only segments grown
/// in the most recent pass are extended, and they are recognized by this
/// tag.
pub open spec fn canopy_tips(s: Seq<Vertex>, tag: u32) -> nat
    decreases s.len(),
{
    if s.len() < 2 {
        0
    } else {
        (if s[0].iteration == tag {
            1nat
        } else {
            0nat
        }) + canopy_tips(s.skip(2), tag)
    }
}

/// `ch` is exactly the block of child vertices that one canopy pass grows
/// for the segments of `prev`, in order: each segment whose tip carries the
/// previous iteration's tag contributes two child segments, each stored as
/// (child tip, parent tip) — the child tip tagged with the current
/// iteration, the parent tip carried over bitwise — and every other segment
/// contributes nothing.
pub open spec fn canopy_children_ok(prev: Seq<Vertex>, ch: Seq<Vertex>, it: u32) -> bool
    decreases prev.len(),
{
    if prev.len() < 2 {
        ch.len() == 0
    } else if prev[0].iteration + 1 == it {
        &&& ch.len() >= 4
        &&& ch[0].iteration == it
        &&& ch[1] == prev[0]
        &&& ch[2].iteration == it
        &&& ch[3] == prev[0]
        &&& canopy_children_ok(prev.skip(2), ch.skip(4), it)
    } else {
        canopy_children_ok(prev.skip(2), ch, it)
    }
}

/// One full canopy pass: the new level is the children block followed by
/// every previous vertex, carried over unchanged — the canopy appends and
/// never rewrites.
pub open spec fn canopy_step_ok(prev: Seq<Vertex>, next: Seq<Vertex>, it: u32) -> bool {
    &&& next.len() >= prev.len()
    &&& next.skip(next.len() - prev.len()) == prev
    &&& canopy_children_ok(prev, next.take(next.len() - prev.len()), it)
}

/// Growing the children of one more segment extends the children block on
/// the right.
proof fn lemma_canopy_children_snoc(
    prev: Seq<Vertex>,
    ch: Seq<Vertex>,
    pair: Seq<Vertex>,
    ch2: Seq<Vertex>,
    it: u32,
)
    requires
        prev.len() % 2 == 0,
        pair.len() == 2,
        canopy_children_ok(prev, ch, it),
        pair[0].iteration + 1 == it ==> ch2.len() == 4 && ch2[0].iteration == it && ch2[1]
            == pair[0] && ch2[2].iteration == it && ch2[3] == pair[0],
        pair[0].iteration + 1 != it ==> ch2.len() == 0,
    ensures
        canopy_children_ok(prev + pair, ch + ch2, it),
    decreases prev.len(),
{
    if prev.len() < 2 {
        assert(prev.len() == 0);
        assert(prev + pair =~= pair);
        assert(ch.len() == 0);
        assert(ch + ch2 =~= ch2);
        if pair[0].iteration + 1 == it {
            assert(pair.skip(2).len() == 0);
            assert(ch2.skip(4).len() == 0);
            assert(canopy_children_ok(pair.skip(2), ch2.skip(4), it));
            assert(canopy_children_ok(pair, ch2, it));
        } else {
            assert(pair.skip(2).len() == 0);
            assert(canopy_children_ok(pair.skip(2), ch2, it));
            assert(canopy_children_ok(pair, ch2, it));
        }
    } else {
        if prev[0].iteration + 1 == it {
            lemma_canopy_children_snoc(prev.skip(2), ch.skip(4), pair, ch2, it);
            assert((prev + pair).skip(2) =~= prev.skip(2) + pair);
            assert((ch + ch2).skip(4) =~= ch.skip(4) + ch2);
            assert((prev + pair)[0] == prev[0]);
            assert((ch + ch2)[0] == ch[0] && (ch + ch2)[1] == ch[1] && (ch + ch2)[2] == ch[2]
                && (ch + ch2)[3] == ch[3]);
            assert(canopy_children_ok((prev + pair).skip(2), (ch + ch2).skip(4), it));
            assert(canopy_children_ok(prev + pair, ch + ch2, it));
        } else {
            lemma_canopy_children_snoc(prev.skip(2), ch, pair, ch2, it);
            assert((prev + pair).skip(2) =~= prev.skip(2) + pair);
            assert((prev + pair)[0] == prev[0]);
            assert(canopy_children_ok((prev + pair).skip(2), ch + ch2, it));
            assert(canopy_children_ok(prev + pair, ch + ch2, it));
        }
    }
}

/// The children block holds exactly four vertices for every tip of the
/// previous level.
pub proof fn lemma_canopy_children_len(prev: Seq<Vertex>, ch: Seq<Vertex>, it: u32)
    requires
        it >= 1,
        canopy_children_ok(prev, ch, it),
    ensures
        ch.len() == 4 * canopy_tips(prev, (it - 1) as u32),
    decreases prev.len(),
{
    if prev.len() < 2 {
    } else if prev[0].iteration + 1 == it {
        lemma_canopy_children_len(prev.skip(2), ch.skip(4), it);
    } else {
        lemma_canopy_children_len(prev.skip(2), ch, it);
    }
}

/// A canopy pass grows the level by four vertices per tip.
pub proof fn lemma_canopy_step_len(prev: Seq<Vertex>, next: Seq<Vertex>, it: u32)
    requires
        it >= 1,
        canopy_step_ok(prev, next, it),
    ensures
        next.len() == prev.len() + 4 * canopy_tips(prev, (it - 1) as u32),
{
    lemma_canopy_children_len(prev, next.take(next.len() - prev.len()), it);
}

/// The angle step count after `n` attempts to increment it, each clamped
/// at the legal maximum.
pub open spec fn steps_after_increments(s: u8, n: nat) -> u8
    decreases n,
{
    if n == 0 {
        s
    } else {
        let p = steps_after_increments(s, (n - 1) as nat);
        if p < ANGLE_STEPS_MAX {
            (p + 1) as u8
        } else {
            p
        }
    }
}

/// The angle step count after `n` attempts to decrement it, each clamped
/// at the legal minimum.
pub open spec fn steps_after_decrements(s: u8, n: nat) -> u8
    decreases n,
{
    if n == 0 {
        s
    } else {
        let p = steps_after_decrements(s, (n - 1) as nat);
        if p > ANGLE_STEPS_MIN {
            (p - 1) as u8
        } else {
            p
        }
    }
}

/// Repeated clamped increments saturate: the angle climbs one step per
/// attempt until it reaches the legal maximum and then never moves again —
/// so from the maximum on, every further attempt changes nothing (and the
/// adjust operation reports no change).
pub proof fn lemma_increments_saturate(s: u8, n: nat)
    requires
        ANGLE_STEPS_MIN <= s <= ANGLE_STEPS_MAX,
    ensures
        steps_after_increments(s, n) == if s + n <= ANGLE_STEPS_MAX {
            s + n
        } else {
            ANGLE_STEPS_MAX as int
        },
    decreases n,
{
    if n > 0 {
        lemma_increments_saturate(s, (n - 1) as nat);
    }
}

/// Repeated clamped decrements saturate at the legal minimum in the same
/// way.
pub proof fn lemma_decrements_saturate(s: u8, n: nat)
    requires
        ANGLE_STEPS_MIN <= s <= ANGLE_STEPS_MAX,
    ensures
        steps_after_decrements(s, n) == if s - n >= ANGLE_STEPS_MIN {
            s - n
        } else {
            ANGLE_STEPS_MIN as int
        },
    decreases n,
{
    if n > 0 {
        lemma_decrements_saturate(s, (n - 1) as nat);
    }
}

/// Tips count distributes over concatenation at a segment boundary.
pub proof fn lemma_canopy_tips_concat(s1: Seq<Vertex>, s2: Seq<Vertex>, tag: u32)
    requires
        s1.len() % 2 == 0,
    ensures
        canopy_tips(s1 + s2, tag) == canopy_tips(s1, tag) + canopy_tips(s2, tag),
    decreases s1.len(),
{
    if s1.len() == 0 {
        assert(s1 + s2 =~= s2);
        assert(canopy_tips(s1, tag) == 0);
    } else {
        lemma_canopy_tips_concat(s1.skip(2), s2, tag);
        assert((s1 + s2).skip(2) =~= s1.skip(2) + s2);
        assert((s1 + s2)[0] == s1[0]);
    }
}

/// Every tip of the previous level yields exactly two new tips in its
/// children block.
pub proof fn lemma_canopy_children_tips(prev: Seq<Vertex>, ch: Seq<Vertex>, it: u32)
    requires
        it >= 1,
        canopy_children_ok(prev, ch, it),
    ensures
        canopy_tips(ch, it) == 2 * canopy_tips(prev, (it - 1) as u32),
    decreases prev.len(),
{
    if prev.len() < 2 {
        assert(ch.len() == 0);
    } else if prev[0].iteration + 1 == it {
        lemma_canopy_children_tips(prev.skip(2), ch.skip(4), it);
        assert(ch.skip(2).skip(2) =~= ch.skip(4));
        assert(ch.skip(2)[0] == ch[2]);
        assert(canopy_tips(ch.skip(2), it) == 1 + canopy_tips(ch.skip(4), it));
        assert(canopy_tips(ch, it) == 1 + canopy_tips(ch.skip(2), it));
    } else {
        lemma_canopy_children_tips(prev.skip(2), ch, it);
    }
}

/// A sequence none of whose vertices carries `tag` has no tips for it.
pub proof fn lemma_canopy_tips_absent(s: Seq<Vertex>, tag: u32)
    requires
        forall|i: int| 0 <= i < s.len() ==> (#[trigger] s[i]).iteration != tag,
    ensures
        canopy_tips(s, tag) == 0,
    decreases s.len(),
{
    if s.len() < 2 {
    } else {
        lemma_canopy_tips_absent(s.skip(2), tag);
    }
}

/// Children vertices carry tags no later than the current iteration,
/// provided the previous level's tags were earlier.
pub proof fn lemma_canopy_children_tags(prev: Seq<Vertex>, ch: Seq<Vertex>, it: u32)
    requires
        canopy_children_ok(prev, ch, it),
        forall|i: int| 0 <= i < prev.len() ==> (#[trigger] prev[i]).iteration < it,
    ensures
        forall|i: int| 0 <= i < ch.len() ==> (#[trigger] ch[i]).iteration <= it,
    decreases prev.len(),
{
    if prev.len() < 2 {
    } else if prev[0].iteration + 1 == it {
        lemma_canopy_children_tags(prev.skip(2), ch.skip(4), it);
        assert forall|i: int| 0 <= i < ch.len() implies (#[trigger] ch[i]).iteration <= it by {
            if i >= 4 {
                assert(ch.skip(4)[i - 4] == ch[i]);
            }
        }
    } else {
        lemma_canopy_children_tags(prev.skip(2), ch, it);
    }
}

/// Apply one canopy pass to `last`: segments are read as consecutive pairs,
/// tip first; each segment whose tip was grown in the previous pass gets two
/// children, their tips placed by the caller's geometry at the left and
/// right branch angles; all previous vertices are then carried over
/// unchanged after the children block.
pub fn canopy_next_iteration<G: Geometry>(
    ops: &G,
    last: &Vec<Vertex>,
    iteration: u32,
    left_steps: u8,
    right_steps: u8,
) -> (r: Vec<Vertex>)
    requires
        last@.len() % 2 == 0,
        iteration >= 1,
    ensures
        canopy_step_ok(last@, r@, iteration),
{
    let n = last.len();
    let mut out: Vec<Vertex> = Vec::new();
    let mut k: usize = 0;
    while k < n / 2
        invariant
            n == last@.len(),
            n % 2 == 0,
            k <= n / 2,
            iteration >= 1,
            canopy_children_ok(last@.take(2 * (k as int)), out@, iteration),
        decreases n / 2 - k,
    {
        let top = last[2 * k];
        let bottom = last[2 * k + 1];
        let ghost prev_out = out@;
        let ghost prefix = last@.take(2 * (k as int));
        let ghost pair = seq![last@[2 * (k as int)], last@[2 * (k as int) + 1]];
        if top.iteration == iteration - 1 {
            let (top_left, top_right) = ops.branch_tips(
                top.position,
                bottom.position,
                left_steps,
                right_steps,
            );
            out.push(Vertex::new(top_left, iteration));
            out.push(top);
            out.push(Vertex::new(top_right, iteration));
            out.push(top);
            proof {
                let ch2 = seq![
                    Vertex { position: top_left, iteration },
                    top,
                    Vertex { position: top_right, iteration },
                    top,
                ];
                assert(out@ =~= prev_out + ch2);
                lemma_canopy_children_snoc(prefix, prev_out, pair, ch2, iteration);
                assert(last@.take(2 * (k as int) + 2) =~= prefix + pair);
            }
        } else {
            proof {
                let ch2 = Seq::<Vertex>::empty();
                assert(out@ =~= prev_out + ch2);
                lemma_canopy_children_snoc(prefix, prev_out, pair, ch2, iteration);
                assert(last@.take(2 * (k as int) + 2) =~= prefix + pair);
            }
        }
        k = k + 1;
    }
    proof {
        assert(last@.take(2 * ((n / 2) as int)) =~= last@);
    }
    let ghost children = out@;
    let mut i: usize = 0;
    while i < n
        invariant
            n == last@.len(),
            i <= n,
            out@ =~= children + last@.take(i as int),
        decreases n - i,
    {
        out.push(last[i]);
        proof {
            assert(out@ =~= children + last@.take(i as int + 1));
        }
        i = i + 1;
    }
    proof {
        assert(out@ =~= children + last@);
        assert(out@.skip(out@.len() - last@.len()) =~= last@);
        assert(out@.take(out@.len() - last@.len()) =~= children);
    }
    out
}

} // verus!
