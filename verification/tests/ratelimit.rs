use kimmy_api::error::ErrorCode;
use kimmy_api::ratelimit::{too_many_requests, Decision, Limiter, RateLimit, RateLimits};

const T0: u64 = 1_700_000_000_000;

fn limiter(burst: u32, window_secs: u64) -> Limiter {
    Limiter::new(RateLimit::new(burst, window_secs * 1000), 1024)
}

#[test]
fn an_unseen_key_is_allowed_without_being_tracked() {
    let mut limiter = limiter(3, 60);
    assert!(limiter.check_at(T0, "10.0.0.1").is_allowed());
    assert_eq!(limiter.tracked_keys(), 0, "checking must not allocate a bucket");
}

#[test]
fn the_burst_is_spent_before_the_limit_applies() {
    let mut limiter = limiter(3, 60);
    for attempt in 0..3 {
        assert!(
            limiter.check_at(T0, "10.0.0.1").is_allowed(),
            "attempt {attempt} is within the burst of 3"
        );
        limiter.record_at(T0, "10.0.0.1");
    }
    assert!(
        !limiter.check_at(T0, "10.0.0.1").is_allowed(),
        "the fourth attempt is past a burst of 3"
    );
}

#[test]
fn keys_do_not_share_a_budget() {
    let mut limiter = limiter(1, 60);
    limiter.record_at(T0, "10.0.0.1");
    assert!(!limiter.check_at(T0, "10.0.0.1").is_allowed());
    assert!(limiter.check_at(T0, "10.0.0.2").is_allowed());
}

#[test]
fn a_bucket_refills_across_its_window() {
    let mut limiter = limiter(10, 60);
    for _ in 0..10 {
        limiter.record_at(T0, "k");
    }
    assert!(!limiter.check_at(T0, "k").is_allowed());

    assert!(
        limiter.check_at(T0 + 6_000, "k").is_allowed(),
        "6s of a 60s window must return one of ten tokens"
    );
}

#[test]
fn refill_never_exceeds_the_burst() {
    let mut limiter = limiter(5, 60);
    limiter.record_at(T0, "k");
    for _ in 0..5 {
        assert!(limiter.check_at(T0 + 3_600_000, "k").is_allowed());
        limiter.record_at(T0 + 3_600_000, "k");
    }
    assert!(
        !limiter.check_at(T0 + 3_600_000, "k").is_allowed(),
        "an hour idle must still only buy a burst of 5"
    );
}

#[test]
fn a_backwards_clock_does_not_clear_the_limit() {
    let mut limiter = limiter(2, 60);
    limiter.record_at(T0, "k");
    limiter.record_at(T0, "k");
    assert!(!limiter.check_at(T0, "k").is_allowed());

    assert!(
        !limiter.check_at(T0 - 3_600_000, "k").is_allowed(),
        "a clock that jumped backwards must not grant credit"
    );
}

#[test]
fn retry_after_is_how_long_until_a_token_returns() {
    let mut limiter = limiter(10, 600);
    for _ in 0..10 {
        limiter.record_at(T0, "k");
    }

    match limiter.check_at(T0, "k") {
        Decision::Limited { retry_after_ms } => {
            assert_eq!(retry_after_ms, 60_000, "one token of ten over 600s");
        }
        Decision::Allowed => panic!("must be limited immediately after draining the bucket"),
    }
}

#[test]
fn retry_after_is_never_zero() {
    let mut limiter = limiter(1000, 1);
    for _ in 0..1000 {
        limiter.record_at(T0, "k");
    }
    match limiter.check_at(T0, "k") {
        Decision::Limited { retry_after_ms } => assert!(retry_after_ms >= 1_000),
        Decision::Allowed => panic!("expected to be limited"),
    }
}

#[test]
fn a_disabled_limiter_allows_everything_and_stores_nothing() {
    let mut limiter = Limiter::new(RateLimit::new(0, 60_000), 1024);
    for _ in 0..1000 {
        assert!(limiter.check_at(T0, "k").is_allowed());
        limiter.record_at(T0, "k");
    }
    assert_eq!(limiter.tracked_keys(), 0, "a disabled limiter must not accumulate state");
}

#[test]
fn the_tracked_key_count_stays_bounded() {
    let mut limiter = Limiter::new(RateLimit::new(5, 600_000), 32);
    for i in 0..10_000 {
        limiter.record_at(T0, &format!("10.0.{}.{}", i / 256, i % 256));
    }
    assert!(
        limiter.tracked_keys() <= 32,
        "expected the map capped at 32, found {}",
        limiter.tracked_keys()
    );
}

#[test]
fn eviction_prefers_keys_that_have_recovered() {
    let mut limiter = Limiter::new(RateLimit::new(4, 600_000), 4);

    for key in ["a", "b", "c"] {
        limiter.record_at(T0, key);
    }
    let later = T0 + 600_000;

    for _ in 0..4 {
        limiter.record_at(later, "attacker");
    }
    assert_eq!(limiter.tracked_keys(), 4, "the map should now be at its cap");

    limiter.record_at(later, "e");

    assert!(
        !limiter.check_at(later, "attacker").is_allowed(),
        "the drained bucket must survive eviction; it is the only one still carrying \
         information, and forgetting it would clear the limit for the caller under attack"
    );
}

#[test]
fn coming_back_when_told_to_is_allowed() {
    for (burst, window_secs) in [(1, 60), (3, 7), (7, 3), (1000, 1)] {
        let mut limiter = limiter(burst, window_secs);
        for _ in 0..burst {
            limiter.record_at(T0, "k");
        }
        match limiter.check_at(T0, "k") {
            Decision::Limited { retry_after_ms } => {
                assert!(limiter.check_at(T0 + retry_after_ms, "k").is_allowed());
            }
            Decision::Allowed => panic!("expected to be limited"),
        }
    }
}

#[test]
fn a_refusal_says_when_to_come_back_in_whole_seconds() {
    let e = too_many_requests(60_000);
    assert_eq!((e.status, e.code), (429, ErrorCode::RateLimited));
    assert_eq!(e.retry_after_secs, Some(60));
    assert_eq!(too_many_requests(500).retry_after_secs, Some(1));
}

#[test]
fn disabled_limits_limit_nothing() {
    let mut limits = RateLimits::disabled();
    assert!(limits.login_ip.limit().is_disabled());
    for _ in 0..10 {
        limits.login_user.record_at(T0, "ada");
        assert!(limits.login_user.check_at(T0, "ada").is_allowed());
    }
    assert_eq!(limits.trusted_proxy_header, None);
}

#[test]
fn the_burst_is_spent_whatever_comes_between() {
    let mut limiter = limiter(3, 60);
    for attempt in 0..3 {
        assert!(limiter.check_at(T0, "a").is_allowed(), "attempt {attempt}");
        limiter.record_at(T0, "b");
        limiter.record_at(T0, "a");
        assert!(limiter.check_at(T0, "c").is_allowed());
    }
    assert!(!limiter.check_at(T0, "a").is_allowed());
    assert!(!limiter.check_at(T0, "b").is_allowed());
    assert!(limiter.check_at(T0, "c").is_allowed(), "looking spends nothing");
    assert_eq!(limiter.tracked_keys(), 2);
}
