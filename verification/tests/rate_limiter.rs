use stark_core::errors::CoreError;
use stark_core::rate_limiter::{ApiRateLimiter, CheckOutcome};

#[test]
fn quota_zero_fails_and_creates_no_limiter() {
    let r = ApiRateLimiter::new(0);
    assert_eq!(r.err(), Some(CoreError::ConfigurationError));
}

#[test]
fn quota_positive_constructs() {
    assert!(ApiRateLimiter::new(1).is_ok());
    assert!(ApiRateLimiter::new(5).is_ok());
}

#[test]
fn burst_beyond_capacity_is_refused_within_window() {
    let mut limiter = ApiRateLimiter::new(2).unwrap();
    assert_eq!(limiter.check(0), CheckOutcome::Admitted);
    assert_eq!(limiter.check(0), CheckOutcome::Admitted);
    // Third request in the same window: refused until the window closes.
    assert_eq!(limiter.check(0), CheckOutcome::RetryAtMs(1000));
    assert_eq!(limiter.check(999), CheckOutcome::RetryAtMs(1000));
    // One whole window after the first admission it goes through again.
    assert_eq!(limiter.check(1000), CheckOutcome::Admitted);
}

#[test]
fn three_requests_at_quota_two_span_one_window() {
    // With quota 2, issuing 3 requests takes at least (3 - 1) / 2 = 1 whole
    // window: the earliest instants are 5, 5, and 1005.
    let mut limiter = ApiRateLimiter::new(2).unwrap();
    assert_eq!(limiter.check(5), CheckOutcome::Admitted);
    assert_eq!(limiter.check(5), CheckOutcome::Admitted);
    assert_eq!(limiter.check(5), CheckOutcome::RetryAtMs(1005));
    assert_eq!(limiter.check(1004), CheckOutcome::RetryAtMs(1005));
    assert_eq!(limiter.check(1005), CheckOutcome::Admitted);
}

#[test]
fn late_caller_opens_a_fresh_window() {
    let mut limiter = ApiRateLimiter::new(1).unwrap();
    assert_eq!(limiter.check(100), CheckOutcome::Admitted);
    assert_eq!(limiter.check(5000), CheckOutcome::Admitted);
    assert_eq!(limiter.check(5100), CheckOutcome::RetryAtMs(6000));
}
