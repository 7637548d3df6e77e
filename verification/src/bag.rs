//! Collections that count or gather what is put into them.
pub mod bag;
pub mod counter;
pub mod treebag;
