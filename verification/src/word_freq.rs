//! Counting the words of a text, the most frequent first.
pub mod counter;
