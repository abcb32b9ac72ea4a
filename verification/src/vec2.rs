use vstd::prelude::*;

verus! {

/// Mask of the sign bit of a 32-bit float stored as its raw bit pattern.
pub const SIGN_BIT: u32 = 0x8000_0000;

/// A 2D point. Each coordinate is the exact bit pattern of a 32-bit float,
/// held as a `u32`. All comparisons in this crate are on these bit patterns,
/// never on approximate numeric values, so NaN and signed zero need no
/// special cases and deduplication is a total order. The floating-point
/// arithmetic that produces new coordinates lives outside this library; the
/// one operation that is exact on bit patterns, flipping the sign, is
/// provided here.
#[derive(Clone, Copy, PartialEq, Eq, Structural, Debug, Hash)]
pub struct Vec2 {
    pub x: u32,
    pub y: u32,
}

impl Vec2 {
    pub fn new(x: u32, y: u32) -> (r: Self)
        ensures
            r == (Vec2 { x, y }),
    {
        Vec2 { x, y }
    }

    /// The clockwise orthogonal of `(x, y)` is `(y, -x)`. Negating a float
    /// flips exactly its sign bit, so on bit patterns this is `x ^ SIGN_BIT`,
    /// and the operation is exact: it preserves the vector's length.
    pub fn clockwise_orthogonal(self) -> (r: Self)
        ensures
            r.x == self.y,
            r.y == self.x ^ SIGN_BIT,
    {
        Vec2 { x: self.y, y: self.x ^ SIGN_BIT }
    }
}

} // verus!
