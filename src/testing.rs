//! Shapes of input data for checking the algorithms against many inputs, and
//! their textual rendering.
pub mod vector;
