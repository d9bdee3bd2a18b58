//! Error type for dimension mismatches.
use vstd::prelude::*;

verus! {

/// Error raised when a flat data sequence or a candidate row or column does
/// not have the length that the grid's dimensions demand.
#[derive(Debug, Clone, Copy, PartialEq, Eq, Structural)]
pub enum VError {
    /// incorrect dimensions
    SizingError { expected: usize, actual: usize },
}

impl VError {
    /// Build a `SizingError` from the two mismatching lengths.
    pub fn size_error(expected: usize, actual: usize) -> (r: Self)
        ensures
            r == (VError::SizingError { expected, actual }),
    {
        VError::SizingError { expected, actual }
    }
}

} // verus!
