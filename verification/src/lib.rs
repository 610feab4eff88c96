//! Pairwise cosine-similarity engine over dense row-major matrices.
//!
//! Scalars are carried as `u64` bit patterns of IEEE-754 double-precision
//! values, so that the shape logic, the diagonal rule and the row assembly
//! are verified while the floating-point arithmetic itself stays with the
//! caller.

pub mod matrix;
pub mod similarity;
