//! Searching for a value in a sequence of integers.
pub mod binary_search;
pub mod linear_search;
