//! How often to poll, for how long, and how long to wait for an answer.
use crate::time::{duration_nanos, halved, NANOS_PER_MILLI, NANOS_PER_SEC};
use std::time::Duration;
use vstd::prelude::*;

verus! {

/// The shortest time to wait for an answer, in milliseconds.
pub const MIN_TIMEOUT_MILLIS: u64 = 10;

/// The longest time to wait for an answer, in milliseconds.
pub const MAX_TIMEOUT_MILLIS: u64 = 500;

/// `value`, or the nearer of the two bounds where it lies outside them.
pub open spec fn clamped(value: nat, low: nat, high: nat) -> nat {
    if value < low {
        low
    } else if value > high {
        high
    } else {
        value
    }
}

/// The timings as they are given on the command line.
#[derive(Debug)]
pub struct ArgsTimings {
    /// in milliseconds
    interval: u64,
    /// in seconds
    period: u64,
}

/// The time between two polls, and the time that the statistics cover.
#[derive(Debug, Clone, Copy)]
pub struct Timings {
    pub interval: Duration,
    pub period: Duration,
}

impl ArgsTimings {
    /// Timings of `interval` milliseconds between polls, over `period`
    /// seconds.
    pub fn new(interval: u64, period: u64) -> (args: ArgsTimings)
        ensures
            args.interval_millis() == interval,
            args.period_secs() == period,
    {
        ArgsTimings { interval, period }
    }

    /// The time between two polls, in milliseconds.
    pub closed spec fn interval_millis(&self) -> u64 {
        self.interval
    }

    /// The time that the statistics cover, in seconds.
    pub closed spec fn period_secs(&self) -> u64 {
        self.period
    }

    /// The time between two polls, in milliseconds.
    pub fn interval(&self) -> (millis: u64)
        ensures
            millis == self.interval_millis(),
    {
        self.interval
    }

    /// The time that the statistics cover, in seconds.
    pub fn period(&self) -> (secs: u64)
        ensures
            secs == self.period_secs(),
    {
        self.period
    }

    /// The same timings as durations.
    pub fn to_duration(&self) -> (timings: Timings)
        ensures
            duration_nanos(timings.interval) == self.interval_millis() * NANOS_PER_MILLI,
            duration_nanos(timings.period) == self.period_secs() * NANOS_PER_SEC,
    {
        Timings {
            interval: Duration::from_millis(self.interval),
            period: Duration::from_secs(self.period),
        }
    }
}

impl Timings {
    /// The shortest time to wait for an answer.
    pub fn min_timeout() -> (timeout: Duration)
        ensures
            duration_nanos(timeout) == MIN_TIMEOUT_MILLIS * NANOS_PER_MILLI,
    {
        Duration::from_millis(MIN_TIMEOUT_MILLIS)
    }

    /// The longest time to wait for an answer.
    pub fn max_timeout() -> (timeout: Duration)
        ensures
            duration_nanos(timeout) == MAX_TIMEOUT_MILLIS * NANOS_PER_MILLI,
    {
        Duration::from_millis(MAX_TIMEOUT_MILLIS)
    }

    /// How long to wait for an answer: half the interval, but neither less
    /// than the shortest nor more than the longest timeout.
    pub fn timeout(&self) -> (timeout: Duration)
        ensures
            duration_nanos(timeout) == clamped(
                duration_nanos(self.interval) / 2,
                (MIN_TIMEOUT_MILLIS * NANOS_PER_MILLI) as nat,
                (MAX_TIMEOUT_MILLIS * NANOS_PER_MILLI) as nat,
            ),
    {
        let half = halved(self.interval);
        let low = Timings::min_timeout();
        let high = Timings::max_timeout();
        if half.as_nanos() < low.as_nanos() {
            low
        } else if half.as_nanos() > high.as_nanos() {
            high
        } else {
            half
        }
    }
}

impl Default for Timings {
    /// Timings of no length.
    fn default() -> (timings: Timings)
        ensures
            duration_nanos(timings.interval) == 0,
            duration_nanos(timings.period) == 0,
    {
        Timings { interval: Duration::from_millis(0), period: Duration::from_millis(0) }
    }
}

} // verus!
