//! Recoverable failures reported by the containers.
use vstd::prelude::*;

verus! {

/// Why an operation refused its operands.
#[derive(Debug, Clone, Copy, PartialEq, Eq, Structural)]
pub enum MathError {
    /// A matrix's data does not fit its dimensions, or the inner dimensions
    /// of a product disagree.
    DimensionMismatch,
    /// Two matrices that must have the same shape do not.
    ShapeMismatch,
    /// Two vectors that must have the same length do not.
    SizeMismatch,
    /// A row, column or basis index lies outside the valid range.
    IndexOutOfRange,
}

} // verus!
