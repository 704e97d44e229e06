//! Small helpers shared by the algorithms.
pub mod slice;
