//! Population count (Hamming weight) and Hamming distance over byte slices.
//!
//! `weight` counts the 1-bits of a byte slice; `distance` counts the bit
//! positions at which two equal-length slices differ.  Both use a
//! branch-free tree-merging (SWAR) kernel over 240-byte blocks carved out
//! of the interior of the input, with a bit-exact scalar fallback on the
//! unaligned fringes.  Every function is verified against a common
//! bit-level model, so the fast path agrees with the scalar one on every
//! input length and alignment.

pub mod bits;
pub mod distance_;
mod kernel;
pub mod util;
pub mod weight_;

pub use distance_::{distance, distance_fast, DistanceError};
pub use util::align_to;
pub use weight_::weight;
