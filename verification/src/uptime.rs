//! Timings and statistics of the uptime poller that connects once per
//! interval.
pub mod args;
pub mod wrappers;
