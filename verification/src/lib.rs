//! Elementwise multiplication of n-dimensional arrays with shape
//! validation, and decimal formatting of unsigned sums.
//!
//! Array elements are opaque 64-bit words (in the intended use, bit
//! patterns of IEEE-754 doubles); the elementwise operation on them is
//! supplied by the caller, since floating-point arithmetic is outside
//! what the verifier accepts.

pub mod array;
pub mod decimal;
