//! Dense row-major matrices and vectors over exact numeric element types,
//! with three interchangeable matrix-multiplication strategies.
//!
//! Elements are the fixed-width integers, whose arithmetic wraps (two's
//! complement), so sums and products are total and every strategy computes
//! exactly the same product. Recoverable failures are reported as
//! [`error::MathError`]; out-of-range indexing is excluded by preconditions.

pub mod numlib;
mod layout;
pub mod summation;
pub mod lanes;
mod parallel;
pub mod multiply;
pub mod error;
pub mod vector;
pub mod matrix;
pub mod laws;
pub mod display;
