use rujimi::utils::rate_limiting::{RateLimitError, RateLimitInfo, RateLimiter};

#[test]
fn test_global_rate_limiting() {
    let mut limiter = RateLimiter::new(2, 10);
    let now = 1_000_000;
    assert!(limiter.check_rate_limit(Some("127.0.0.1"), now).is_ok());
    assert!(limiter.check_rate_limit(Some("127.0.0.1"), now).is_ok());
    assert!(limiter.check_rate_limit(Some("127.0.0.1"), now).is_err());
}

#[test]
fn test_ip_rate_limiting() {
    let mut limiter = RateLimiter::new(100, 2);
    let now = 1_000_000;
    assert!(limiter.check_rate_limit(Some("127.0.0.1"), now).is_ok());
    assert!(limiter.check_rate_limit(Some("127.0.0.1"), now).is_ok());
    assert!(limiter.check_rate_limit(Some("127.0.0.1"), now).is_err());
    assert!(limiter.check_rate_limit(Some("192.168.1.1"), now).is_ok());
}

#[test]
fn test_rate_limit_info() {
    let mut limiter = RateLimiter::new(10, 100);
    let now = 1_000_000;
    let info = limiter.get_rate_limit_info(Some("127.0.0.1"), now);
    assert_eq!(info.global_requests_per_minute, 0);
    assert_eq!(info.ip_requests_per_day, 0);
    let _ = limiter.check_rate_limit(Some("127.0.0.1"), now);
    let info = limiter.get_rate_limit_info(Some("127.0.0.1"), now);
    assert_eq!(
        info,
        RateLimitInfo {
            global_requests_per_minute: 1,
            global_limit_per_minute: 10,
            ip_requests_per_day: 1,
            ip_limit_per_day: 100,
        }
    );
}

#[test]
fn rate_limit_boundary() {
    let ceiling = 3;
    let mut limiter = RateLimiter::new(ceiling, 1000);
    let t0 = 10_000_000;
    for i in 0..ceiling as u64 {
        assert!(limiter.check_global_rate_limit(t0 + i).is_ok());
    }
    // One more within the window of the first.
    match limiter.check_global_rate_limit(t0 + 59_999) {
        Err(RateLimitError::GlobalLimitExceeded { limit, current }) => {
            assert_eq!(limit, 3);
            assert_eq!(current, 3);
        }
        other => panic!("expected a global denial, got {:?}", other),
    }
    // The window has rolled past the first request only.
    assert!(limiter.check_global_rate_limit(t0 + 60_000).is_ok());
    assert!(limiter.check_global_rate_limit(t0 + 60_000).is_err());
    // The window has rolled past all of them.
    assert!(limiter.check_global_rate_limit(t0 + 200_000).is_ok());
}

#[test]
fn denied_request_is_not_recorded() {
    let mut limiter = RateLimiter::new(1, 10);
    assert!(limiter.check_global_rate_limit(100).is_ok());
    for _ in 0..5 {
        assert!(limiter.check_global_rate_limit(100).is_err());
    }
    assert_eq!(limiter.get_rate_limit_info(None, 100).global_requests_per_minute, 1);
}

#[test]
fn ip_denial_names_the_client() {
    let mut limiter = RateLimiter::new(100, 1);
    assert!(limiter.check_ip_rate_limit("10.0.0.1", 5).is_ok());
    match limiter.check_ip_rate_limit("10.0.0.1", 6) {
        Err(e) => {
            assert_eq!(e.status_code(), 429);
            assert_eq!(e.retry_after_seconds(), 3600);
            assert_eq!(
                e.message(),
                "IP rate limit exceeded for 10.0.0.1: 1/1 requests per day"
            );
        }
        Ok(_) => panic!("expected a denial"),
    }
    // A day later the window has rolled over.
    assert!(limiter.check_ip_rate_limit("10.0.0.1", 5 + 86_400_000).is_ok());
}

#[test]
fn global_denial_message_and_retry() {
    let e = RateLimitError::GlobalLimitExceeded { limit: 30, current: 31 };
    assert_eq!(e.status_code(), 429);
    assert_eq!(e.retry_after_seconds(), 60);
    assert_eq!(e.message(), "Global rate limit exceeded: 31/30 requests per minute");
}

#[test]
fn zero_ceiling_denies_everything() {
    let mut limiter = RateLimiter::new(0, 0);
    assert!(limiter.check_global_rate_limit(0).is_err());
    assert!(limiter.check_ip_rate_limit("a", 0).is_err());
}

#[test]
fn cleanup_prunes_stale_stamps() {
    let mut limiter = RateLimiter::new(100, 100);
    assert!(limiter.check_rate_limit(Some("a"), 1_000).is_ok());
    assert!(limiter.check_rate_limit(Some("b"), 86_400_000).is_ok());
    limiter.cleanup_old_entries(86_400_000 + 2_000);
    let a = limiter.get_rate_limit_info(Some("a"), 86_400_000 + 2_000);
    let b = limiter.get_rate_limit_info(Some("b"), 86_400_000 + 2_000);
    assert_eq!(a.ip_requests_per_day, 0);
    assert_eq!(b.ip_requests_per_day, 1);
    assert_eq!(b.global_requests_per_minute, 1);
}
