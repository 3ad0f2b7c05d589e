use serve_limit::clock::SECOND;
use serve_limit::ratelimit::concurrency::ConcurrencyLimiter;
use serve_limit::ratelimit::limiters::{RateLimiters, CONCURRENCY_LIMIT, REQUEST_BURST};
use serve_limit::ratelimit::{Decision, ReqInfo, Wakeup, SERVE_TIMEOUT};

const INFO: ReqInfo = ReqInfo { size: 1000 };
const NEVER: Decision = Decision::Blocked(Wakeup::Never);

fn after(nanos: u128) -> Decision {
    Decision::Blocked(Wakeup::After(nanos))
}

#[test]
fn permits_are_taken_and_returned() {
    let mut limiter = ConcurrencyLimiter::new(2);
    let observer = limiter.observer();
    assert_eq!(observer.available(), 2);
    limiter.on_start(0, &INFO);
    assert_eq!(limiter.check(0, &INFO), Decision::Ready);
    limiter.on_start(0, &INFO);
    assert_eq!(observer.available(), 0);
    assert_eq!(limiter.check(0, &INFO), NEVER);
    assert_eq!(limiter.check(1000 * SECOND, &INFO), NEVER);
    limiter.on_end(&INFO);
    assert_eq!(observer.available(), 1);
    assert_eq!(limiter.check(0, &INFO), Decision::Ready);
    assert!(limiter.can_end());
}

#[test]
fn empty_and_largest_pools() {
    assert_eq!(ConcurrencyLimiter::new(0).check(0, &INFO), NEVER);
    let largest = tokio::sync::Semaphore::MAX_PERMITS;
    assert_eq!(largest, usize::MAX / 8);
    let limiter = ConcurrencyLimiter::new(largest);
    assert_eq!(limiter.check(0, &INFO), Decision::Ready);
    assert!(!limiter.can_end());
}

#[test]
fn ended_serves_may_exceed_the_initial_limit() {
    let mut limiter = ConcurrencyLimiter::new(0);
    limiter.on_end(&INFO);
    assert_eq!(limiter.observer().available(), 1);
}

#[test]
fn observers_read_what_is_left_of_the_limit() {
    let mut limiter = ConcurrencyLimiter::new(5);
    let early = limiter.observer();
    let mut active: u64 = 0;
    for starts in [true, true, false, true, true, true, false, false] {
        if starts {
            assert_eq!(limiter.check(0, &INFO), Decision::Ready);
            limiter.on_start(0, &INFO);
            active += 1;
        } else {
            limiter.on_end(&INFO);
            active -= 1;
        }
        assert_eq!(early.available_beside(&limiter), 5 - active);
        assert_eq!(limiter.observer().available_beside(&limiter), 5 - active);
        assert_eq!(early.available(), 5 - active);
    }
    // A limiter of its own is not affected.
    assert_eq!(ConcurrencyLimiter::new(5).observer().available(), 5);
}

#[test]
fn first_wakeup_of_two() {
    let five = Wakeup::After(5);
    let six = Wakeup::After(6);
    assert_eq!(five.first(six), five);
    assert_eq!(six.first(five), five);
    assert_eq!(five.first(Wakeup::Never), five);
    assert_eq!(Wakeup::Never.first(six), six);
    assert_eq!(Wakeup::Never.first(Wakeup::Never), Wakeup::Never);
    assert_eq!(Decision::Ready.and(Decision::Ready), Decision::Ready);
    assert_eq!(Decision::Ready.and(after(3)), after(3));
    assert_eq!(after(3).and(Decision::Ready), after(3));
    assert_eq!(after(4).and(after(3)), after(3));
    assert_eq!(NEVER.and(after(3)), after(3));
}

#[test]
fn every_limiter_has_to_allow() {
    let mut limiters = RateLimiters::new(0);
    assert_eq!(limiters.check(0, &INFO), Decision::Ready);
    for _ in 0..CONCURRENCY_LIMIT {
        limiters.on_start(0, &INFO);
    }
    // The cap and the request burst are both used up.
    assert_eq!(CONCURRENCY_LIMIT as u32, REQUEST_BURST);
    assert_eq!(limiters.check(0, &INFO), after(10_000_000));
    assert_eq!(limiters.check(10_000_000, &INFO), NEVER);
    limiters.on_end(&INFO);
    assert_eq!(limiters.check(10_000_000, &INFO), Decision::Ready);
    assert_eq!(limiters.check(0, &INFO), after(10_000_000));
    assert!(limiters.can_end());
}

#[test]
fn bandwidth_blocks_large_responses() {
    let mut limiters = RateLimiters::new(0);
    let large = ReqInfo { size: 250_000_000 };
    assert_eq!(limiters.check(0, &large), Decision::Ready);
    limiters.on_start(0, &large);
    assert_eq!(limiters.check(0, &INFO), after(8000));
    assert_eq!(limiters.check(8000, &INFO), Decision::Ready);
    assert_eq!(limiters.check(0, &large), after(2 * SECOND));
}

#[test]
fn rechecking_converges_in_two_steps() {
    let mut limiters = RateLimiters::new(0);
    limiters.on_start(0, &ReqInfo { size: 250_000_000 });
    limiters.on_end(&INFO);
    for _ in 1..REQUEST_BURST {
        limiters.on_start(0, &ReqInfo { size: 0 });
        limiters.on_end(&INFO);
    }
    let info = ReqInfo { size: 5_000_000 };
    assert_eq!(limiters.check(0, &info), after(10_000_000));
    assert_eq!(limiters.check(10_000_000, &info), after(30_000_000));
    assert_eq!(limiters.check(40_000_000, &info), Decision::Ready);
}

#[test]
fn timeout_is_half_a_minute() {
    assert_eq!(SERVE_TIMEOUT, std::time::Duration::from_secs(30).as_nanos());
}
