//! Self-similar fractal curves — a branching canopy, the Koch snowflake and
//! the Sierpinski triangle — generated by iterative subdivision, together
//! with a mesh builder that turns the resulting vertex streams into
//! deduplicated vertex and index buffers for rendering.
//!
//! Coordinates are carried as the exact bit patterns of 32-bit floats, held
//! in `u32` fields. Everything structural — the memoized level table, the
//! subdivision bookkeeping, iteration tagging, line widening, and the
//! bit-exact deduplication — is verified. The pointwise floating-point
//! arithmetic itself (midpoints, rotations, normalization) cannot be
//! verified and enters through the [`geometry::Geometry`] trait, which
//! callers implement outside this library.

pub mod benchmark;
pub mod canopy;
pub mod curves;
pub mod geometry;
pub mod koch_snowflake;
pub mod mesh;
pub mod sierpinski_triangle;
pub mod vec2;
pub mod vertex;
