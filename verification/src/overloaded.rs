//! One function for several kinds of input.
pub mod color;
