//! Software IEEE 754 binary64 multiplication built from integer operations.
//!
//! A [`Float`] is a 64-bit pattern. The library decomposes it into sign,
//! exponent and mantissa, classifies it, multiplies two patterns with exact
//! 106-bit significand products and round-to-nearest-even, and handles
//! signed zeros, subnormals, infinities and NaN payloads.

pub mod encoding;
pub mod special;
pub mod rounding;
pub mod multiply;
pub mod addition;
pub mod laws;

pub use encoding::Float;
pub use multiply::mult_tie_test;
