use vstd::prelude::*;

use crate::canopy;
use crate::geometry::Geometry;
use crate::koch_snowflake;
use crate::sierpinski_triangle;
use crate::vertex::{Vertex, VertexFormat};

verus! {

use vstd::arithmetic::power::pow;

/// The closed set of curve kinds this library can generate.
#[derive(Clone, Copy, PartialEq, Eq, Structural, Debug)]
pub enum Curves {
    Canopy,
    KochSnowflake,
    SierpinskiTriangle,
}

/// The kind after `k` in the fixed cyclic order
/// Canopy, KochSnowflake, SierpinskiTriangle.
pub open spec fn cycle_next(k: Curves) -> Curves {
    match k {
        Curves::Canopy => Curves::KochSnowflake,
        Curves::KochSnowflake => Curves::SierpinskiTriangle,
        Curves::SierpinskiTriangle => Curves::Canopy,
    }
}

/// The kind before `k` in the same cyclic order.
pub open spec fn cycle_prev(k: Curves) -> Curves {
    match k {
        Curves::Canopy => Curves::SierpinskiTriangle,
        Curves::KochSnowflake => Curves::Canopy,
        Curves::SierpinskiTriangle => Curves::KochSnowflake,
    }
}

impl Curves {
    /// Step forward through the cyclic list of kinds.
    pub fn next(&mut self)
        ensures
            *final(self) == cycle_next(*old(self)),
    {
        *self = match *self {
            Curves::Canopy => Curves::KochSnowflake,
            Curves::KochSnowflake => Curves::SierpinskiTriangle,
            Curves::SierpinskiTriangle => Curves::Canopy,
        };
    }

    /// Step backward through the cyclic list of kinds.
    pub fn prev(&mut self)
        ensures
            *final(self) == cycle_prev(*old(self)),
    {
        *self = match *self {
            Curves::Canopy => Curves::SierpinskiTriangle,
            Curves::KochSnowflake => Curves::Canopy,
            Curves::SierpinskiTriangle => Curves::KochSnowflake,
        };
    }
}

/// Stepping forward and then backward returns to the same kind,
/// and so does backward then forward.
pub proof fn lemma_cycle_round_trip(k: Curves)
    ensures
        cycle_prev(cycle_next(k)) == k,
        cycle_next(cycle_prev(k)) == k,
{
}

/// The seed geometry of each curve kind.
pub open spec fn seed_of(kind: Curves) -> Seq<Vertex> {
    match kind {
        Curves::Canopy => canopy::canopy_seed(),
        Curves::KochSnowflake => koch_snowflake::koch_seed(),
        Curves::SierpinskiTriangle => sierpinski_triangle::sierpinski_seed(),
    }
}

/// How each kind's vertex stream is grouped into primitives: pairs for the
/// line-based kinds, triples for the triangle-based kind.
pub open spec fn group_size_of(kind: Curves) -> int {
    match kind {
        Curves::Canopy => 2,
        Curves::KochSnowflake => 2,
        Curves::SierpinskiTriangle => 3,
    }
}

/// The vertex format of each curve kind.
pub open spec fn vertex_format_of(kind: Curves) -> VertexFormat {
    match kind {
        Curves::Canopy => VertexFormat::Lines,
        Curves::KochSnowflake => VertexFormat::Lines,
        Curves::SierpinskiTriangle => VertexFormat::Triangles,
    }
}

/// One refinement pass of the given kind, relating a level to the next.
pub open spec fn step_ok(kind: Curves, prev: Seq<Vertex>, next: Seq<Vertex>, it: u32) -> bool {
    match kind {
        Curves::Canopy => canopy::canopy_step_ok(prev, next, it),
        Curves::KochSnowflake => koch_snowflake::koch_step_ok(prev, next, it),
        Curves::SierpinskiTriangle => sierpinski_triangle::sierpinski_step_ok(prev, next, it),
    }
}

/// A fractal curve: its kind, the memoized table of refinement levels
/// (index 0 is the seed, index i the geometry after i passes), and the
/// canopy's two branch angles as bounded step counts. The table is
/// append-only; it only shrinks back to the seed when an angle changes,
/// which makes every higher level stale.
pub struct Curve {
    kind: Curves,
    data: Vec<Vec<Vertex>>,
    left_steps: u8,
    right_steps: u8,
}

impl Curve {
    /// The kind tag.
    pub closed spec fn kind(self) -> Curves {
        self.kind
    }

    /// The memoized levels, as mathematical sequences.
    pub closed spec fn levels(self) -> Seq<Seq<Vertex>> {
        self.data@.map_values(|v: Vec<Vertex>| v@)
    }

    /// The left branch angle, in angle steps (canopy only).
    pub closed spec fn left_steps(self) -> u8 {
        self.left_steps
    }

    /// The right branch angle, in angle steps (canopy only).
    pub closed spec fn right_steps(self) -> u8 {
        self.right_steps
    }

    /// Well-formedness: at least the seed level is present and is the seed
    /// of this kind; every later level is one refinement pass of the level
    /// before it; every level groups evenly into this kind's primitives; and
    /// the branch angles are within their legal range.
    pub open spec fn wf(self) -> bool {
        &&& 1 <= self.levels().len() <= u32::MAX
        &&& self.levels()[0] == seed_of(self.kind())
        &&& forall|i: int|
            1 <= i < self.levels().len() ==> step_ok(
                self.kind(),
                self.levels()[i - 1],
                #[trigger] self.levels()[i],
                i as u32,
            )
        &&& forall|i: int|
            0 <= i < self.levels().len() ==> (#[trigger] self.levels()[i]).len() as int
                % group_size_of(self.kind()) == 0
        &&& canopy::ANGLE_STEPS_MIN <= self.left_steps() <= canopy::ANGLE_STEPS_MAX
        &&& canopy::ANGLE_STEPS_MIN <= self.right_steps() <= canopy::ANGLE_STEPS_MAX
    }

    /// The vertex format of this curve: line-based curves must be widened
    /// before indexing, triangle-based ones are renderable as they are.
    pub fn vertex_format(&self) -> (r: VertexFormat)
        ensures
            r == vertex_format_of(self.kind()),
    {
        match self.kind {
            Curves::SierpinskiTriangle => VertexFormat::Triangles,
            _ => VertexFormat::Lines,
        }
    }

    /// The fully expanded geometry at the requested iteration (0 = the
    /// seed). All missing levels up to `iteration` are computed first, in
    /// increasing order — each level is one refinement pass of the level
    /// before it — and memoized; levels already present are returned as
    /// they are, bitwise unchanged.
    #[verifier::rlimit(60)]
    pub fn vertices<G: Geometry>(&mut self, ops: &G, iteration: usize) -> (r: &Vec<Vertex>)
        requires
            old(self).wf(),
            iteration + 1 <= u32::MAX,
        ensures
            final(self).wf(),
            final(self).kind() == old(self).kind(),
            final(self).left_steps() == old(self).left_steps(),
            final(self).right_steps() == old(self).right_steps(),
            final(self).levels().len() == if iteration + 1 > old(self).levels().len() {
                iteration + 1
            } else {
                old(self).levels().len() as int
            },
            forall|i: int|
                0 <= i < old(self).levels().len() ==> final(self).levels()[i] == old(
                    self,
                ).levels()[i],
            r@ == final(self).levels()[iteration as int],
            r@.len() == level_len_of(old(self).kind(), iteration as int),
    {
        while self.data.len() <= iteration
            invariant
                self.wf(),
                iteration + 1 <= u32::MAX,
                self.kind() == old(self).kind(),
                self.left_steps() == old(self).left_steps(),
                self.right_steps() == old(self).right_steps(),
                self.levels().len() >= old(self).levels().len(),
                self.levels().len() <= iteration + 1 || self.levels().len() == old(
                    self,
                ).levels().len(),
                forall|i: int|
                    0 <= i < old(self).levels().len() ==> self.levels()[i] == old(
                        self,
                    ).levels()[i],
            decreases iteration + 1 - self.data.len(),
        {
            let cur = self.data.len();
            let tag = cur as u32;
            let ghost pre_levels = self.levels();
            let prev: Vec<Vertex> = match self.data.pop() {
                Some(v) => v,
                None => unreached(),
            };
            proof {
                assert(pre_levels[cur - 1] == prev@);
            }
            let next: Vec<Vertex> = match self.kind {
                Curves::Canopy => canopy::canopy_next_iteration(
                    ops,
                    &prev,
                    tag,
                    self.left_steps,
                    self.right_steps,
                ),
                Curves::KochSnowflake => koch_snowflake::koch_next_iteration(ops, &prev, tag),
                Curves::SierpinskiTriangle => sierpinski_triangle::sierpinski_next_iteration(
                    ops,
                    &prev,
                    tag,
                ),
            };
            proof {
                if self.kind() == Curves::Canopy {
                    canopy::lemma_canopy_step_len(pre_levels[cur - 1], next@, tag);
                }
            }
            self.data.push(prev);
            self.data.push(next);
            proof {
                assert(self.levels() =~= pre_levels.push(next@));
                assert(self.levels()[0] == pre_levels[0]);
                assert(step_ok(self.kind(), self.levels()[cur - 1], self.levels()[cur as int], tag));
                assert forall|i: int|
                    1 <= i < self.levels().len() implies step_ok(
                    self.kind(),
                    self.levels()[i - 1],
                    #[trigger] self.levels()[i],
                    i as u32,
                ) by {
                    if i < cur {
                        assert(step_ok(self.kind(), pre_levels[i - 1], pre_levels[i], i as u32));
                    }
                }
                assert forall|i: int|
                    0 <= i < self.levels().len() implies (#[trigger] self.levels()[i]).len() as int
                    % group_size_of(self.kind()) == 0 by {
                    if i < cur {
                        assert(pre_levels[i].len() as int % group_size_of(self.kind()) == 0);
                    }
                }
            }
        }
        proof {
            self.lemma_level_len(iteration as int);
        }
        &self.data[iteration]
    }

    /// The selected branch angle, in steps.
    pub open spec fn angle_steps(self, left: bool) -> u8 {
        if left {
            self.left_steps()
        } else {
            self.right_steps()
        }
    }

    /// Whether one more step in the given direction stays inside the legal
    /// angle range.
    pub open spec fn angle_change_allowed(self, increment: bool, left: bool) -> bool {
        if increment {
            self.angle_steps(left) < canopy::ANGLE_STEPS_MAX
        } else {
            self.angle_steps(left) > canopy::ANGLE_STEPS_MIN
        }
    }

    /// Adjust one branch angle by one step (canopy only; for the other
    /// kinds nothing changes and the result is `None`). The angle is
    /// clamped to its legal range: at the boundary nothing changes and the
    /// result is `Some(false)`. A successful change returns `Some(true)`
    /// and discards every memoized level above the seed, which the change
    /// has made stale; the seed itself is retained.
    pub fn change_angle(&mut self, increment: bool, left: bool) -> (r: Option<bool>)
        requires
            old(self).wf(),
        ensures
            final(self).wf(),
            old(self).kind() != Curves::Canopy ==> r is None && *final(self) == *old(self),
            old(self).kind() == Curves::Canopy ==> {
                &&& r == Some(old(self).angle_change_allowed(increment, left))
                &&& !old(self).angle_change_allowed(increment, left) ==> *final(self) == *old(
                    self,
                )
                &&& old(self).angle_change_allowed(increment, left) ==> {
                    &&& final(self).kind() == old(self).kind()
                    &&& final(self).angle_steps(left) == if increment {
                        old(self).angle_steps(left) + 1
                    } else {
                        old(self).angle_steps(left) - 1
                    }
                    &&& final(self).angle_steps(!left) == old(self).angle_steps(!left)
                    &&& final(self).levels() =~= seq![old(self).levels()[0]]
                }
            },
    {
        match self.kind {
            Curves::Canopy => {},
            _ => {
                return None;
            },
        }
        let cur = if left {
            self.left_steps
        } else {
            self.right_steps
        };
        let changed = if increment {
            cur < canopy::ANGLE_STEPS_MAX
        } else {
            cur > canopy::ANGLE_STEPS_MIN
        };
        if changed {
            let ghost pre = *self;
            let new_val = if increment {
                cur + 1
            } else {
                cur - 1
            };
            if left {
                self.left_steps = new_val;
            } else {
                self.right_steps = new_val;
            }
            self.data.truncate(1);
            proof {
                assert(self.levels() =~= seq![pre.levels()[0]]);
            }
            Some(true)
        } else {
            Some(false)
        }
    }

    /// A sensible refinement depth for first display of this kind.
    pub fn default_iteration(&self) -> (r: usize)
        ensures
            r == default_iteration_of(self.kind()),
    {
        match self.kind {
            Curves::Canopy => 11,
            Curves::KochSnowflake => 5,
            Curves::SierpinskiTriangle => 5,
        }
    }
}

/// The number of vertices at refinement level `i` of each kind: the two
/// line-based curves grow by a fixed multiplicative recurrence — the Koch
/// snowflake multiplies its segment count by four each pass from a
/// three-segment seed, the canopy adds four vertices for each of its
/// doubling set of tips — and the Sierpinski triangle multiplies its
/// triangle count by three each pass from one seed triangle.
pub open spec fn level_len_of(kind: Curves, i: int) -> int {
    match kind {
        Curves::Canopy => pow(2, (i + 2) as nat) - 2,
        Curves::KochSnowflake => 6 * pow(4, i as nat),
        Curves::SierpinskiTriangle => 3 * pow(3, i as nat),
    }
}

impl Curve {
    /// Every vertex of a canopy level carries a tag no later than the
    /// level's own index: tags only say when a point first appeared.
    pub proof fn lemma_canopy_level_tags(self, i: int)
        requires
            self.wf(),
            self.kind() == Curves::Canopy,
            0 <= i < self.levels().len(),
        ensures
            forall|t: int|
                0 <= t < self.levels()[i].len() ==> (#[trigger] self.levels()[i][t]).iteration
                    <= i,
        decreases i,
    {
        if i == 0 {
            assert(self.levels()[0] == canopy::canopy_seed());
            assert(canopy::canopy_seed()[0].iteration == 0);
            assert(canopy::canopy_seed()[1].iteration == 0);
        } else {
            self.lemma_canopy_level_tags(i - 1);
            let prev = self.levels()[i - 1];
            let next = self.levels()[i];
            assert(canopy::canopy_step_ok(prev, next, i as u32));
            let ch = next.take(next.len() - prev.len());
            assert forall|t: int| 0 <= t < prev.len() implies (#[trigger] prev[t]).iteration < i
                as u32 by {
                assert(prev[t].iteration <= i - 1);
            }
            canopy::lemma_canopy_children_tags(prev, ch, i as u32);
            assert forall|t: int|
                0 <= t < next.len() implies (#[trigger] next[t]).iteration <= i by {
                if t < ch.len() {
                    assert(next[t] == ch[t]);
                } else {
                    assert(next.skip(next.len() - prev.len())[t - ch.len()] == next[t]);
                    assert(next[t] == prev[t - ch.len()]);
                }
            }
        }
    }

    /// A canopy level's tip count doubles with each pass: level `i` has
    /// two to the `i` tips.
    #[verifier::rlimit(80)]
    pub proof fn lemma_canopy_level_tips(self, i: int)
        requires
            self.wf(),
            self.kind() == Curves::Canopy,
            0 <= i < self.levels().len(),
        ensures
            canopy::canopy_tips(self.levels()[i], i as u32) == pow(2, i as nat),
        decreases i,
    {
        if i == 0 {
            let seed = canopy::canopy_seed();
            assert(self.levels()[0] == seed);
            assert(seed[0].iteration == 0);
            assert(seed.skip(2).len() == 0);
            assert(canopy::canopy_tips(seed.skip(2), 0) == 0);
            assert(canopy::canopy_tips(seed, 0) == 1);
            assert(pow(2, 0) == 1) by {
                reveal_with_fuel(pow, 1);
            }
        } else {
            self.lemma_canopy_level_tips(i - 1);
            self.lemma_canopy_level_tags(i - 1);
            let prev = self.levels()[i - 1];
            let next = self.levels()[i];
            let it = i as u32;
            assert(canopy::canopy_step_ok(prev, next, it));
            let ch = next.take(next.len() - prev.len());
            canopy::lemma_canopy_children_len(prev, ch, it);
            canopy::lemma_canopy_children_tips(prev, ch, it);
            assert forall|t: int| 0 <= t < prev.len() implies (#[trigger] prev[t]).iteration
                != it by {
                assert(prev[t].iteration <= i - 1);
            }
            canopy::lemma_canopy_tips_absent(prev, it);
            canopy::lemma_canopy_tips_concat(ch, prev, it);
            assert(ch + prev =~= next);
            assert(canopy::canopy_tips(next, it) == 2 * canopy::canopy_tips(
                prev,
                (it - 1) as u32,
            ));
            assert(canopy::canopy_tips(prev, (i - 1) as u32) == pow(2, (i - 1) as nat));
            assert(pow(2, i as nat) == 2 * pow(2, (i - 1) as nat)) by {
                reveal_with_fuel(pow, 1);
            }
        }
    }

    /// Monotonic growth: each level's vertex count follows the kind's fixed
    /// recurrence, in closed form.
    #[verifier::rlimit(80)]
    pub proof fn lemma_level_len(self, i: int)
        requires
            self.wf(),
            0 <= i < self.levels().len(),
        ensures
            self.levels()[i].len() == level_len_of(self.kind(), i),
        decreases i,
    {
        if i == 0 {
            assert(self.levels()[0] == seed_of(self.kind()));
            assert(pow(2, 2) == 4 && pow(4, 0) == 1 && pow(3, 0) == 1) by {
                reveal_with_fuel(pow, 3);
            }
            match self.kind() {
                Curves::Canopy => {
                    assert(canopy::canopy_seed().len() == 2);
                },
                Curves::KochSnowflake => {
                    assert(koch_snowflake::koch_seed().len() == 6);
                },
                Curves::SierpinskiTriangle => {
                    assert(sierpinski_triangle::sierpinski_seed().len() == 3);
                },
            }
        } else {
            self.lemma_level_len(i - 1);
            let prev = self.levels()[i - 1];
            let next = self.levels()[i];
            let it = i as u32;
            match self.kind() {
                Curves::Canopy => {
                    self.lemma_canopy_level_tips(i - 1);
                    canopy::lemma_canopy_step_len(prev, next, it);
                    assert(pow(2, (i + 1) as nat) == 2 * pow(2, i as nat) && pow(2, i as nat)
                        == 2 * pow(2, (i - 1) as nat) && pow(2, (i + 2) as nat) == 2 * pow(
                        2,
                        (i + 1) as nat,
                    )) by {
                        reveal_with_fuel(pow, 1);
                    }
                },
                Curves::KochSnowflake => {
                    assert(koch_snowflake::koch_step_ok(prev, next, it));
                    assert(pow(4, i as nat) == 4 * pow(4, (i - 1) as nat)) by {
                        reveal_with_fuel(pow, 1);
                    }
                },
                Curves::SierpinskiTriangle => {
                    assert(sierpinski_triangle::sierpinski_step_ok(prev, next, it));
                    assert(pow(3, i as nat) == 3 * pow(3, (i - 1) as nat)) by {
                        reveal_with_fuel(pow, 1);
                    }
                },
            }
        }
    }
}

/// The kind-specific starting depth for first display.
pub open spec fn default_iteration_of(kind: Curves) -> usize {
    match kind {
        Curves::Canopy => 11,
        Curves::KochSnowflake => 5,
        Curves::SierpinskiTriangle => 5,
    }
}

impl Curves {
    /// A fresh curve of this kind, holding only its seed level and the
    /// initial branch angles.
    pub fn new_instance(&self) -> (r: Curve)
        ensures
            r.wf(),
            r.kind() == *self,
            r.levels() =~= seq![seed_of(*self)],
            r.left_steps() == canopy::INITIAL_LEFT_STEPS,
            r.right_steps() == canopy::INITIAL_RIGHT_STEPS,
    {
        let seed: Vec<Vertex> = match self {
            Curves::Canopy => canopy::canopy_seed_vertices(),
            Curves::KochSnowflake => koch_snowflake::koch_seed_vertices(),
            Curves::SierpinskiTriangle => sierpinski_triangle::sierpinski_seed_vertices(),
        };
        let mut data: Vec<Vec<Vertex>> = Vec::new();
        data.push(seed);
        let r = Curve {
            kind: *self,
            data,
            left_steps: canopy::INITIAL_LEFT_STEPS,
            right_steps: canopy::INITIAL_RIGHT_STEPS,
        };
        proof {
            assert(r.levels() =~= seq![seed_of(*self)]);
        }
        r
    }
}

} // verus!
