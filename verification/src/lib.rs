//! A playground of small, independent libraries.
//!
//! The heart of it is [`evictmap`]: a keyed registry that hands out, per
//! key, the smallest integer that is not in use, and takes integers back to
//! hand them out again, smallest first. The other modules hold what small
//! tools compute between reading and writing: a logic circuit, the
//! settings of a ticker, the timings and statistics of an uptime poller,
//! bags and counters, and names and arguments for a few programs.
pub mod bag;
pub mod decimal;
pub mod evictmap;
pub mod find_projects;
pub mod ip;
pub mod logic;
pub mod overloaded;
pub mod qr;
pub mod ticker;
pub mod time;
pub mod trurl;
pub mod uptime;
pub mod uptime_async;
pub mod word_freq;
pub mod xkcd_lock;
