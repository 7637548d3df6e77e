use std::time::Duration;

use playground::uptime::args::{ArgsTimings, Timings};
use playground::uptime_async::args::{
    ArgsTimings as AsyncArgsTimings, Timings as AsyncTimings,
};

#[test]
fn timemout_constraints() {
    let list: Vec<_> = (0..40).map(|i| i * i).collect();
    for item in list {
        let t = Timings {
            interval: Duration::from_millis(item),
            ..Default::default()
        };
        assert!(t.timeout() <= Timings::max_timeout());
        assert!(t.timeout() >= Timings::min_timeout());
    }
}

#[test]
fn args_timemout_constraints() {
    let list: Vec<_> = (0..40).map(|i| i * i).collect();
    for item in list {
        let t = AsyncTimings {
            interval: Duration::from_millis(item),
            ..Default::default()
        };
        assert!(t.timeout() <= AsyncTimings::max_timeout());
        assert!(t.timeout() >= AsyncTimings::min_timeout());
    }
}

#[test]
fn timeout_is_half_the_interval_within_bounds() {
    let timeout = |millis: u64| {
        Timings { interval: Duration::from_millis(millis), ..Default::default() }.timeout()
    };
    assert_eq!(timeout(0), Duration::from_millis(10));
    assert_eq!(timeout(19), Duration::from_millis(10));
    assert_eq!(timeout(20), Duration::from_millis(10));
    assert_eq!(timeout(21), Duration::from_micros(10_500));
    assert_eq!(timeout(300), Duration::from_millis(150));
    assert_eq!(timeout(1000), Duration::from_millis(500));
    assert_eq!(timeout(1001), Duration::from_millis(500));
    assert_eq!(timeout(10_000), Duration::from_millis(500));
    let odd = Timings { interval: Duration::from_nanos(30_000_001), ..Default::default() };
    assert_eq!(odd.timeout(), Duration::from_nanos(15_000_000));
}

#[test]
fn async_timeout_is_the_interval_within_bounds() {
    let timeout = |millis: u64| {
        AsyncTimings { interval: Duration::from_millis(millis), ..Default::default() }.timeout()
    };
    assert_eq!(timeout(0), Duration::from_millis(10));
    assert_eq!(timeout(9), Duration::from_millis(10));
    assert_eq!(timeout(10), Duration::from_millis(10));
    assert_eq!(timeout(11), Duration::from_millis(11));
    assert_eq!(timeout(499), Duration::from_millis(499));
    assert_eq!(timeout(500), Duration::from_millis(500));
    assert_eq!(timeout(501), Duration::from_millis(500));
}

#[test]
fn arguments_become_durations() {
    let timings = ArgsTimings::new(10_000, 24 * 60 * 60).to_duration();
    assert_eq!(timings.interval, Duration::from_secs(10));
    assert_eq!(timings.period, Duration::from_secs(86_400));
    let timings =
        AsyncArgsTimings::new(1_500, 3).to_duration();
    assert_eq!(timings.interval, Duration::from_millis(1_500));
    assert_eq!(timings.period, Duration::from_secs(3));
    let timings = ArgsTimings::new(u64::MAX, u64::MAX).to_duration();
    assert_eq!(timings.interval, Duration::from_millis(u64::MAX));
    assert_eq!(timings.period, Duration::from_secs(u64::MAX));
}

#[test]
fn intervals_in_a_period() {
    assert_eq!(AsyncArgsTimings::new(10_000, 24 * 60 * 60).to_duration().intervals(), 8_640);
    assert_eq!(AsyncArgsTimings::new(7, 1).to_duration().intervals(), 142);
    assert_eq!(AsyncArgsTimings::new(2_000, 1).to_duration().intervals(), 0);
    let whole = AsyncTimings { interval: Duration::from_nanos(1), period: Duration::from_secs(5) };
    assert_eq!(whole.intervals(), 5_000_000_000);
    let default_period = AsyncTimings { interval: Duration::from_millis(5), ..Default::default() };
    assert_eq!(default_period.intervals(), 0);
}

#[test]
fn intervals_of_no_length_are_told_apart() {
    let none = AsyncTimings { interval: Duration::ZERO, period: Duration::from_secs(5) };
    assert_eq!(none.checked_intervals(), None);
    let some = AsyncTimings { interval: Duration::from_secs(2), period: Duration::from_secs(5) };
    assert_eq!(some.checked_intervals(), Some(2));
}
