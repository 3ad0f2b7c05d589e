use std::time::Duration;

use serve_limit::clock::{saturating_mul, Clock, MAX_DURATION, SECOND};
use serve_limit::ratelimit::gcra::{Cost, GcraLimiter, PerByte, PerRequest, FARTHEST};
use serve_limit::ratelimit::limiters::{
    REQUEST_BURST, REQUEST_INTERVAL, TRAFFIC_BURST, TRAFFIC_INTERVAL,
};
use serve_limit::ratelimit::{Decision, ReqInfo, Wakeup};

const INFO: ReqInfo = ReqInfo { size: 1000 };

fn blocked(nanos: u128) -> Decision {
    Decision::Blocked(Wakeup::After(nanos))
}

#[test]
fn durations_are_those_of_std() {
    assert_eq!(MAX_DURATION, Duration::MAX.as_nanos());
    assert_eq!(SECOND, Duration::from_secs(1).as_nanos());
    assert_eq!(saturating_mul(7, 6), 42);
    assert_eq!(saturating_mul(MAX_DURATION, 2), Duration::MAX.saturating_mul(2).as_nanos());
    assert_eq!(saturating_mul(MAX_DURATION, 1), MAX_DURATION);
    assert_eq!(saturating_mul(MAX_DURATION, 0), 0);
}

#[test]
fn clock_counts_from_its_start() {
    let clock = Clock::start();
    let first = clock.now();
    let waiting = std::time::Instant::now();
    while waiting.elapsed() < Duration::from_millis(20) {}
    let second = clock.now();
    assert!(second - first >= 20_000_000);
    assert!(first < 10 * SECOND);
}

#[test]
fn intervals_match_floating_point_rates() {
    assert_eq!(REQUEST_INTERVAL, Duration::from_secs_f64(1.0 / 100.0).as_nanos());
    assert_eq!(TRAFFIC_INTERVAL, Duration::from_secs_f64(1.0 / 125_000_000.0).as_nanos());
}

#[test]
fn costs() {
    assert_eq!(PerRequest.cost(&INFO), 1);
    assert_eq!(PerByte.cost(&INFO), 1000);
    assert_eq!(PerByte.cost(&ReqInfo { size: 0 }), 0);
}

#[test]
fn burst_then_exact_wakeup() {
    let start = 5 * SECOND;
    let mut limiter = GcraLimiter::new(REQUEST_INTERVAL, REQUEST_BURST, PerRequest, start);
    for _ in 0..REQUEST_BURST {
        assert_eq!(limiter.check(start, &INFO), Decision::Ready);
        limiter.on_start(start, &INFO);
    }
    assert_eq!(limiter.check(start, &INFO), blocked(10_000_000));
    assert_eq!(limiter.check(start + 9_999_999, &INFO), blocked(1));
    assert_eq!(limiter.check(start + 10_000_000, &INFO), Decision::Ready);
}

#[test]
fn check_changes_nothing_and_end_releases_nothing() {
    let mut limiter = GcraLimiter::new(SECOND, 1, PerRequest, 0);
    assert_eq!(limiter.check(0, &INFO), Decision::Ready);
    assert_eq!(limiter.check(0, &INFO), Decision::Ready);
    limiter.on_start(0, &INFO);
    limiter.on_end(&INFO);
    assert_eq!(limiter.check(0, &INFO), blocked(SECOND));
}

#[test]
fn idle_time_is_not_saved_up() {
    let mut limiter = GcraLimiter::new(SECOND, 2, PerRequest, 0);
    let now = 1000 * SECOND;
    limiter.on_start(now, &INFO);
    limiter.on_start(now, &INFO);
    assert_eq!(limiter.check(now, &INFO), blocked(SECOND));
}

#[test]
fn request_larger_than_the_burst_waits_for_idle_time() {
    let info = ReqInfo { size: 10 };
    let limiter = GcraLimiter::new(SECOND, 4, PerByte, 0);
    assert_eq!(limiter.check(0, &info), blocked(6 * SECOND));
    assert_eq!(limiter.check(6 * SECOND, &info), Decision::Ready);
}

#[test]
fn sustained_rate_holds_over_a_window() {
    let mut limiter = GcraLimiter::new(TRAFFIC_INTERVAL, TRAFFIC_BURST, PerByte, 0);
    let info = ReqInfo { size: 1_000_000 };
    let mut now: u128 = 0;
    let mut bytes: u128 = 0;
    while now < 4 * SECOND {
        match limiter.check(now, &info) {
            Decision::Ready => {
                limiter.on_start(now, &info);
                bytes += 1_000_000;
            }
            Decision::Blocked(Wakeup::After(delay)) => now += delay,
            Decision::Blocked(Wakeup::Never) => unreachable!(),
        }
    }
    // The burst at once, then a megabyte every 8 ms until just before the fourth second.
    assert_eq!(bytes, 250_000_000 + 499 * 1_000_000);
}

#[test]
fn remaining_counts_units() {
    let mut limiter = GcraLimiter::new(TRAFFIC_INTERVAL, TRAFFIC_BURST, PerByte, SECOND);
    let observer = limiter.observer();
    assert_eq!(observer.remaining(SECOND), 250_000_000);
    limiter.on_start(SECOND, &ReqInfo { size: 50_000_000 });
    assert_eq!(observer.remaining(SECOND), 200_000_000);
    assert_eq!(observer.remaining(SECOND + 7), 200_000_000);
    assert_eq!(observer.remaining(SECOND + 8), 200_000_001);
    assert_eq!(observer.remaining(10 * SECOND), 250_000_000);
    limiter.on_start(SECOND, &ReqInfo { size: 4_000_000_000 });
    assert_eq!(observer.remaining(SECOND), 0);
}

#[test]
fn observers_read_what_the_limiter_published() {
    let mut limiter = GcraLimiter::new(10, 5, PerRequest, 100);
    let early = limiter.observer();
    assert_eq!(early.remaining_beside(&limiter, 100), 5);
    for left in (0..5).rev() {
        limiter.on_start(100, &INFO);
        assert_eq!(early.remaining_beside(&limiter, 100), left);
        assert_eq!(limiter.observer().remaining_beside(&limiter, 100), left);
        assert_eq!(early.remaining_at(limiter.level(), 100), left);
        assert_eq!(early.remaining(100), left);
    }
    limiter.on_end(&INFO);
    assert_eq!(early.remaining_beside(&limiter, 109), 0);
    assert_eq!(early.remaining_beside(&limiter, 110), 1);
    assert_eq!(early.remaining_beside(&limiter, 150), 5);
    // A limiter of its own publishes elsewhere.
    assert_eq!(GcraLimiter::new(10, 5, PerRequest, 100).observer().remaining(100), 5);
}

#[test]
fn remaining_at_a_given_arrival_time() {
    let limiter = GcraLimiter::new(10, 5, PerRequest, 100);
    let observer = limiter.observer();
    assert_eq!(observer.remaining_at(0, 100), 5);
    assert_eq!(observer.remaining_at(1, 100), 4);
    assert_eq!(observer.remaining_at(10, 100), 4);
    assert_eq!(observer.remaining_at(50, 100), 0);
    assert_eq!(observer.remaining_at(-1, 0), 0);
    assert_eq!(observer.remaining_at(-1, 100), 5);
    assert_eq!(observer.remaining_at(i64::MAX, 100), 0);
}

#[test]
fn full_bucket_of_an_uneven_rate_equals_the_burst() {
    let per_unit = Duration::from_secs_f64(1.0 / 3.0).as_nanos();
    let limiter = GcraLimiter::new(per_unit, 3, PerRequest, 0);
    assert_eq!(limiter.observer().remaining(0), 3);
}

#[test]
fn unlimited_rate_never_blocks_and_stays_full() {
    let mut limiter = GcraLimiter::new(0, 7, PerByte, 0);
    for _ in 0..10 {
        assert_eq!(limiter.check(0, &INFO), Decision::Ready);
        limiter.on_start(0, &INFO);
    }
    assert_eq!(limiter.observer().remaining(0), 7);
    assert_eq!(limiter.observer().remaining(SECOND), 7);
    // Before the last grant nothing is allowed.
    limiter.on_start(5, &INFO);
    assert_eq!(limiter.check(4, &INFO), blocked(1));
    assert_eq!(limiter.observer().remaining(4), 0);
}

#[test]
fn remaining_agrees_with_check_while_in_use() {
    let mut limiter = GcraLimiter::new(7, 10, PerByte, 0);
    limiter.on_start(0, &ReqInfo { size: 4 });
    for now in 0..28u128 {
        let left = limiter.observer().remaining(now) as u32;
        assert_eq!(limiter.check(now, &ReqInfo { size: left }), Decision::Ready);
        assert!(limiter.check(now, &ReqInfo { size: left + 1 }) != Decision::Ready);
    }
}

#[test]
fn grant_is_recorded_whatever_it_costs() {
    let per_unit = 10_000_000_000 * SECOND;
    let mut limiter = GcraLimiter::new(per_unit, 1, PerRequest, 0);
    let observer = limiter.observer();
    assert_eq!(limiter.check(0, &INFO), Decision::Ready);
    limiter.on_start(0, &INFO);
    assert_eq!(limiter.check(0, &INFO), blocked(per_unit));
    assert_eq!(limiter.check(per_unit - 1, &INFO), blocked(1));
    assert_eq!(limiter.check(per_unit, &INFO), Decision::Ready);
    assert_eq!(observer.remaining(0), 0);
}

#[test]
fn published_arrival_time_stops_at_63_bits() {
    let mut limiter = GcraLimiter::new(1 << 62, 1, PerRequest, 0);
    assert_eq!(limiter.level(), 0);
    limiter.on_start(0, &INFO);
    assert_eq!(limiter.level(), 1 << 62);
    assert_eq!(limiter.check(0, &INFO), blocked(1 << 62));
    limiter.on_start(0, &INFO);
    assert_eq!(limiter.level(), i64::MAX);
    assert_eq!(limiter.check(0, &INFO), blocked(1 << 63));
    assert_eq!(limiter.observer().remaining(0), 0);
}

#[test]
fn arrival_time_stops_at_the_farthest() {
    let mut limiter = GcraLimiter::new(MAX_DURATION, 1, PerRequest, 0);
    limiter.on_start(0, &INFO);
    assert_eq!(limiter.check(0, &INFO), blocked(MAX_DURATION));
    limiter.on_start(0, &INFO);
    assert_eq!(limiter.check(0, &INFO), blocked(FARTHEST));
    limiter.on_start(0, &INFO);
    assert_eq!(limiter.check(0, &INFO), blocked(FARTHEST));
}

#[test]
fn full_bucket_equals_the_burst_past_the_longest_duration() {
    let limiter = GcraLimiter::new(MAX_DURATION, 3, PerRequest, 0);
    assert_eq!(limiter.observer().remaining(0), 3);
}

#[test]
fn saturated_increment() {
    let limiter = GcraLimiter::new(MAX_DURATION, 1, PerByte, 0);
    assert_eq!(limiter.check(0, &INFO), Decision::Ready);
    let limiter = GcraLimiter::new(MAX_DURATION / 2, 1, PerByte, 0);
    assert_eq!(limiter.check(0, &INFO), blocked(MAX_DURATION - MAX_DURATION / 2));
}
