//! Timings of the uptime poller that runs its connections side by side.
pub mod args;
