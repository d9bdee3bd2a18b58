//! Bounds-checked two-dimensional vectors, parameterized at run time by the
//! number of rows and columns.
//!
//! The coordinate type can only hold positions that lie inside its bounds, so
//! grid lookups through it never go out of range. A family of iterators walks
//! indices, rows, columns and neighborhoods while gracefully handling the
//! grid's edges.

pub mod errors;
pub mod ix;
pub mod iterators;
pub mod v;

pub use ix::BoundedIx2;
pub use v::V2;
