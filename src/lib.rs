//! Classical algorithms with machine-checked contracts: the maximum-subarray
//! problem solved three ways, dense matrices with naive multiplication,
//! sorting and searching.
pub mod matrix_multiplication;
pub mod maximum_subarray;
pub mod searching;
pub mod sorting;
pub mod testing;
pub mod util;
