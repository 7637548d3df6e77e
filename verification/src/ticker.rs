//! The settings of a ticker: something that fires at regular intervals, for
//! ever or up to a time limit.
//!
//! A [`Ticker`] is made through a [`TickerBuilder`], which refuses settings
//! that make no sense. The one who runs the ticker asks [`Ticker::is_over`]
//! before each wait whether the limit has passed.
use crate::time::duration_nanos;
use std::time::Duration;
use vstd::prelude::*;

verus! {

/// What a ticker is, with durations as nanoseconds.
pub struct TickerSettings {
    pub limit: Option<nat>,
    pub interval: nat,
}

/// What a builder holds, with durations as nanoseconds.
pub struct BuilderSettings {
    pub limit: Option<nat>,
    pub interval: Option<nat>,
}

/// The length of a duration that may be missing.
pub open spec fn optional_nanos(d: Option<Duration>) -> Option<nat> {
    match d {
        Some(d) => Some(duration_nanos(d)),
        None => None,
    }
}

/// Settings that a ticker can have: the interval is not zero, and it fits
/// into the limit where there is one.
pub open spec fn valid_settings(settings: TickerSettings) -> bool {
    &&& settings.interval > 0
    &&& settings.limit matches Some(limit) ==> settings.interval <= limit
}

/// Shortcut for the settings of a [`Ticker`] without a time limit.
pub fn ticker(interval: Duration) -> (ticker: Ticker)
    requires
        duration_nanos(interval) > 0,
    ensures
        ticker@ == (TickerSettings { limit: None, interval: duration_nanos(interval) }),
{
    match Ticker::builder().interval(interval).build() {
        Ok(ticker) => ticker,
        Err(_) => {
            proof {
                assert(false);
            }
            Ticker { limit: None, interval }
        },
    }
}

/// Checked settings of a ticker.
#[derive(Debug)]
pub struct Ticker {
    limit: Option<Duration>,
    interval: Duration,
}

impl View for Ticker {
    type V = TickerSettings;

    closed spec fn view(&self) -> TickerSettings {
        TickerSettings {
            limit: optional_nanos(self.limit),
            interval: duration_nanos(self.interval),
        }
    }
}

impl Ticker {
    #[verifier::type_invariant]
    spec fn checked(self) -> bool {
        valid_settings(self@)
    }

    /// Helper to safely build a [`Ticker`].
    pub fn builder() -> (builder: TickerBuilder)
        ensures
            builder@ == (BuilderSettings { limit: None, interval: None }),
    {
        TickerBuilder::new()
    }

    /// The time between two ticks.
    pub fn interval(&self) -> (interval: Duration)
        ensures
            duration_nanos(interval) == self@.interval,
            valid_settings(self@),
    {
        proof {
            use_type_invariant(self);
        }
        self.interval
    }

    /// The time after which the ticker stops, where there is one.
    pub fn limit(&self) -> (limit: Option<Duration>)
        ensures
            optional_nanos(limit) == self@.limit,
            valid_settings(self@),
    {
        proof {
            use_type_invariant(self);
        }
        self.limit
    }

    /// Whether the ticker has to stop, `elapsed` after its start: it has
    /// a limit and more time than that has gone by.
    pub fn is_over(&self, elapsed: Duration) -> (over: bool)
        ensures
            over == (self@.limit matches Some(limit) && duration_nanos(elapsed) > limit),
    {
        match self.limit {
            Some(limit) => elapsed.as_nanos() > limit.as_nanos(),
            None => false,
        }
    }
}

/// Helper to safely build a [`Ticker`].
#[derive(Debug)]
pub struct TickerBuilder {
    limit: Option<Duration>,
    interval: Option<Duration>,
}

impl View for TickerBuilder {
    type V = BuilderSettings;

    closed spec fn view(&self) -> BuilderSettings {
        BuilderSettings {
            limit: optional_nanos(self.limit),
            interval: optional_nanos(self.interval),
        }
    }
}

impl TickerBuilder {
    fn new() -> (builder: TickerBuilder)
        ensures
            builder@ == (BuilderSettings { limit: None, interval: None }),
    {
        TickerBuilder { limit: None, interval: None }
    }

    /// *Mandatory*: sets the interval of the ticker.
    pub fn interval(self, interval: Duration) -> (builder: TickerBuilder)
        ensures
            builder@ == (BuilderSettings {
                limit: self@.limit,
                interval: Some(duration_nanos(interval)),
            }),
    {
        let mut builder = self;
        builder.interval = Some(interval);
        builder
    }

    /// *Optional*: sets a time limit on the ticker.
    pub fn limit(self, limit: Duration) -> (builder: TickerBuilder)
        ensures
            builder@ == (BuilderSettings {
                limit: Some(duration_nanos(limit)),
                interval: self@.interval,
            }),
    {
        let mut builder = self;
        builder.limit = Some(limit);
        builder
    }

    /// Checks the configuration and builds the [`Ticker`] or an [`Error`].
    ///
    /// A missing interval is reported first, then an interval of zero, then
    /// an interval that is longer than the limit.
    pub fn build(self) -> (built: Result<Ticker, Error>)
        ensures
            match built {
                Ok(ticker) => {
                    &&& self@.interval == Some(ticker@.interval)
                    &&& self@.limit == ticker@.limit
                    &&& valid_settings(ticker@)
                },
                Err(Error::MissingInterval) => self@.interval is None,
                Err(Error::IntervalIsZero) => self@.interval == Some(0nat),
                Err(Error::IntervalLargerThanLimit { interval, limit }) => {
                    &&& self@.interval == Some(duration_nanos(interval))
                    &&& self@.limit == Some(duration_nanos(limit))
                    &&& duration_nanos(limit) < duration_nanos(interval)
                },
            },
    {
        let TickerBuilder { limit, interval } = self;
        let interval = match interval {
            Some(interval) => interval,
            None => {
                return Err(Error::MissingInterval);
            },
        };
        if interval.is_zero() {
            return Err(Error::IntervalIsZero);
        }
        if let Some(limit) = limit {
            if limit.as_nanos() < interval.as_nanos() {
                return Err(Error::IntervalLargerThanLimit { limit, interval });
            }
        }
        Ok(Ticker { limit, interval })
    }
}

/// Invalid [`Ticker`] configuration.
#[derive(Debug)]
pub enum Error {
    /// No interval was set.
    MissingInterval,
    /// The interval has no length.
    IntervalIsZero,
    /// The interval does not fit into the limit.
    IntervalLargerThanLimit { interval: Duration, limit: Duration },
}

} // verus!
