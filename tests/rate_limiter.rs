use sayings_core::config::RateLimitConfig;
use sayings_core::rate_limiter::{compute_window_end, RateLimiter};

fn limiter(max: u32, secs: u64) -> RateLimiter {
    RateLimiter::new(RateLimitConfig { max_requests: max, window_seconds: secs })
}

#[test]
fn checks_within_window_consume_quota_then_refuse() {
    let mut l = limiter(3, 60);
    assert!(l.check_at("u", 1_000));
    assert_eq!(l.get_limit_info("u").unwrap().remaining_requests, 2);
    assert!(l.check_at("u", 2_000));
    assert!(l.check_at("u", 3_000));
    assert_eq!(l.get_limit_info("u").unwrap().remaining_requests, 0);
    assert!(!l.check_at("u", 4_000));
    let info = l.get_limit_info("u").unwrap();
    assert_eq!(info.remaining_requests, 0);
    assert_eq!(info.reset_at, 61_000);
}

#[test]
fn elapsed_window_is_renewed() {
    let mut l = limiter(2, 10);
    assert!(l.check_at("u", 0));
    assert!(l.check_at("u", 1));
    assert!(!l.check_at("u", 10_000));
    assert!(l.check_at("u", 10_001));
    let info = l.get_limit_info("u").unwrap();
    assert_eq!(info.remaining_requests, 1);
    assert_eq!(info.reset_at, 20_001);
}

#[test]
fn users_have_separate_windows() {
    let mut l = limiter(1, 10);
    assert!(l.check_at("a", 0));
    assert!(!l.check_at("a", 1));
    assert!(l.check_at("b", 1));
}

#[test]
fn reset_gives_full_quota_without_consuming() {
    let mut l = limiter(5, 10);
    l.reset_at("u", 100);
    let info = l.get_limit_info("u").unwrap();
    assert_eq!(info.user_id, "u");
    assert_eq!(info.remaining_requests, 5);
    assert_eq!(info.reset_at, 10_100);
}

#[test]
fn reading_info_creates_no_window() {
    let l = limiter(5, 10);
    assert!(l.get_limit_info("u").is_none());
    assert!(l.get_limit_info("u").is_none());
}

#[test]
fn check_with_clock_admits_first_request() {
    let mut l = limiter(2, 3600);
    assert!(l.check("u"));
    assert_eq!(l.get_limit_info("u").unwrap().remaining_requests, 1);
    l.reset("u");
    assert_eq!(l.get_limit_info("u").unwrap().remaining_requests, 2);
}

#[test]
fn window_end_saturates() {
    assert_eq!(compute_window_end(1_000, 2), 3_000);
    assert_eq!(compute_window_end(i64::MAX - 10, 1), i64::MAX);
    assert_eq!(compute_window_end(0, u64::MAX), i64::MAX);
}
