use gatewayapi::rate_limiter::{RateLimiter, WINDOW_MILLIS};

#[test]
fn test_rate_limiter_allows_requests_within_limit() {
    let mut limiter = RateLimiter::new(5);
    for _ in 0..5 {
        assert!(limiter.check_and_record());
    }
    assert!(!limiter.check_and_record());
}

#[test]
fn test_rate_limiter_resets_after_window() {
    let mut limiter = RateLimiter::new(2);
    assert!(limiter.check_and_record());
    assert!(limiter.check_and_record());
    assert!(!limiter.check_and_record());
    let stats = limiter.get_stats();
    assert_eq!(stats.limit, 2);
}

#[test]
fn test_rate_limiter_stats() {
    let mut limiter = RateLimiter::new(10);
    for _ in 0..3 {
        limiter.check_and_record();
    }
    let stats = limiter.get_stats();
    assert_eq!(stats.limit, 10);
    assert_eq!(stats.used, 3);
    assert_eq!(stats.remaining, 7);
    assert!(stats.reset > 0);
}

#[test]
fn test_rate_limiter_high_limit() {
    let mut limiter = RateLimiter::new(1000);
    for _ in 0..100 {
        assert!(limiter.check_and_record());
    }
    let stats = limiter.get_stats();
    assert_eq!(stats.used, 100);
    assert_eq!(stats.remaining, 900);
}

#[test]
fn exactly_limit_calls_admitted_in_one_window() {
    let mut limiter = RateLimiter::new(3);
    let t0: i64 = 1_700_000_000_000;
    assert!(limiter.check_and_record_at(t0));
    assert!(limiter.check_and_record_at(t0 + 10));
    assert!(limiter.check_and_record_at(t0 + 20));
    assert!(!limiter.check_and_record_at(t0 + 30));
}

#[test]
fn window_frees_slots_after_sixty_seconds() {
    let mut limiter = RateLimiter::new(2);
    let t0: i64 = 1_700_000_000_000;
    assert!(limiter.check_and_record_at(t0));
    assert!(limiter.check_and_record_at(t0 + 1000));
    assert!(!limiter.check_and_record_at(t0 + WINDOW_MILLIS - 1));
    // the first call has left the window, the second has not
    assert!(limiter.check_and_record_at(t0 + WINDOW_MILLIS));
    assert!(!limiter.check_and_record_at(t0 + WINDOW_MILLIS + 500));
    let stats = limiter.get_stats_at(t0 + WINDOW_MILLIS + 1000, 0);
    assert_eq!(stats.used, 1);
    assert_eq!(stats.remaining, 1);
}

#[test]
fn zero_limit_admits_nothing() {
    let mut limiter = RateLimiter::new(0);
    assert!(!limiter.check_and_record_at(0));
    assert_eq!(limiter.get_stats_at(0, 0).used, 0);
    assert_eq!(limiter.get_stats_at(0, 0).remaining, 0);
}

#[test]
fn reset_is_next_minute_boundary() {
    let limiter = RateLimiter::new(1);
    assert_eq!(limiter.get_stats_at(0, 1_700_000_015_500).reset, 1_700_000_040);
    assert_eq!(limiter.get_stats_at(0, 1_700_000_040_000).reset, 1_700_000_100);
    assert_eq!(limiter.get_stats_at(0, -5).reset, 60);
    assert_eq!(limiter.limit(), 1);
}

#[test]
fn timestamps_after_now_do_not_hold_slots() {
    let mut limiter = RateLimiter::new(1);
    assert!(limiter.check_and_record_at(100));
    assert!(!limiter.check_and_record_at(150));
    // a reading earlier than the admitted call: that call is not in (now - 60 s, now]
    assert!(limiter.check_and_record_at(50));
    assert_eq!(limiter.get_stats_at(50, 0).used, 1);
}

#[test]
fn monotonic_clock_starts_near_zero() {
    let limiter = RateLimiter::new(1);
    let t = limiter.monotonic_millis();
    assert!(t >= 0 && t < 60_000);
}
