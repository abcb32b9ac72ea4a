use vstd::prelude::*;

use crate::vec2::Vec2;

verus! {

/// The pointwise floating-point arithmetic of the subdivision rules and of
/// line widening. Coordinates are 32-bit float bit patterns; what these
/// methods compute (midpoints, thirds, rotations, length normalization) is
/// floating-point work that this library cannot verify, so it is left to the
/// caller: implement this trait outside the library with ordinary `f32`
/// arithmetic on `f32::from_bits` / `f32::to_bits` values.
///
/// The library's contracts are deliberately independent of what these
/// methods return: they pin down every structural fact — which input
/// vertices are carried over bitwise, how iteration tags propagate, which
/// output positions coincide, and all the counts — for every possible
/// implementation of this trait.
pub trait Geometry {
    /// For a directed segment from `a` to `b`, the three new points of one
    /// Koch subdivision: the point a third of the way from `a` to `b`, the
    /// apex (the midpoint displaced along the clockwise orthogonal of
    /// `b - a`, scaled down by the fixed height divisor), and the point a
    /// third of the way from `b` back to `a`.
    fn koch_points(&self, a: Vec2, b: Vec2) -> (Vec2, Vec2, Vec2);

    /// The midpoint of `a` and `b`.
    fn midpoint(&self, a: Vec2, b: Vec2) -> Vec2;

    /// For a canopy segment growing from `bottom` to `top`, the tips of its
    /// two children: `top` plus `top - bottom` rotated counter-clockwise by
    /// `left_steps` angle steps (each step a fixed fraction of pi) and
    /// scaled by the fixed length factor, and likewise clockwise by
    /// `right_steps` steps.
    fn branch_tips(&self, top: Vec2, bottom: Vec2, left_steps: u8, right_steps: u8) -> (
        Vec2,
        Vec2,
    );

    /// For a segment from `a` to `b` and a line width (a float bit pattern),
    /// the four corners of the rectangle of that width centered on the
    /// segment: `a` and `b` each displaced by the two opposite orthogonal
    /// offsets of half the width.
    fn widen_corners(&self, a: Vec2, b: Vec2, line_width: u32) -> (Vec2, Vec2, Vec2, Vec2);
}

} // verus!
