use velo_hub::error::RateLimitError;
use velo_hub::limiter::RateLimiter;
use velo_hub::limiter::sliding_window::SlidingWindowLimiter;
use velo_hub::limiter::token_bucket::TokenBucketLimiter;
use velo_hub::models::RateLimitConfig;

fn create_test_config() -> RateLimitConfig {
    RateLimitConfig {
        rpm: Some(60),
        tokens_per_5h: Some(100000),
        tokens_per_week: Some(1000000),
        tokens_per_month: Some(5000000),
        max_concurrent_sessions: Some(5),
    }
}

#[test]
fn test_rate_limiter_allows_within_limits() {
    let mut limiter = RateLimiter::new(false);
    let config = create_test_config();
    assert!(limiter.check_limit("test-provider", 1000, &config).is_ok());
}

#[test]
fn test_rate_limiter_blocks_rpm_exceeded() {
    let mut limiter = RateLimiter::new(false);
    let mut config = create_test_config();
    config.rpm = Some(2);
    let _ = limiter.check_limit("test-provider", 100, &config);
    let _ = limiter.check_limit("test-provider", 100, &config);
    let result = limiter.check_limit("test-provider", 100, &config);
    assert!(result.is_err());
    match result {
        Err(RateLimitError::RpmExceeded { .. }) => {}
        _ => panic!("Expected RpmExceeded error"),
    }
}

#[test]
fn test_rate_limiter_blocks_token_quota_exceeded() {
    let mut limiter = RateLimiter::new(false);
    let mut config = create_test_config();
    config.tokens_per_5h = Some(10000);
    limiter.consume("test-provider", 9000).unwrap();
    let result = limiter.check_limit("test-provider", 2000, &config);
    assert!(result.is_err());
    match result {
        Err(RateLimitError::TokenQuotaExceeded { window, .. }) => assert_eq!(window, "5h"),
        _ => panic!("Expected TokenQuotaExceeded error"),
    }
}

#[test]
fn test_rate_limiter_fail_open_mode() {
    let mut limiter = RateLimiter::new(true);
    let mut config = create_test_config();
    config.rpm = Some(1);
    let _ = limiter.check_limit("test-provider", 100, &config);
    assert!(limiter.check_limit("test-provider", 100, &config).is_ok());
}

#[test]
fn test_rate_limiter_consume_updates_quotas() {
    let mut limiter = RateLimiter::new(false);
    limiter.consume("test-provider", 5000).unwrap();
    limiter.consume("test-provider", 3000).unwrap();
    let (_, consumed_5h, consumed_week, consumed_month) = limiter.get_status("test-provider").unwrap();
    assert_eq!(consumed_5h, 8000);
    assert_eq!(consumed_week, 8000);
    assert_eq!(consumed_month, 8000);
}

#[test]
fn test_rate_limiter_reset() {
    let mut limiter = RateLimiter::new(false);
    let mut config = create_test_config();
    config.rpm = Some(1);
    let _ = limiter.check_limit("test-provider", 100, &config);
    assert!(limiter.check_limit("test-provider", 100, &config).is_err());
    limiter.reset("test-provider");
    assert!(limiter.check_limit("test-provider", 100, &config).is_ok());
}

#[test]
fn test_rate_limiter_no_limits_configured() {
    let mut limiter = RateLimiter::new(false);
    let config = RateLimitConfig::default();
    for _ in 0..100 {
        assert!(limiter.check_limit("test-provider", 10000, &config).is_ok());
    }
}

#[test]
fn test_rate_limiter_get_status() {
    let mut limiter = RateLimiter::new(false);
    let (_, consumed_5h, consumed_week, consumed_month) = limiter.get_status("test-provider").unwrap();
    assert_eq!(consumed_5h, 0);
    assert_eq!(consumed_week, 0);
    assert_eq!(consumed_month, 0);
    limiter.consume("test-provider", 1000).unwrap();
    let (_, consumed_5h, _, _) = limiter.get_status("test-provider").unwrap();
    assert_eq!(consumed_5h, 1000);
}

#[test]
fn token_bucket_refills_with_time() {
    let mut tb = TokenBucketLimiter::new();
    let minute = 60_000_000_000u64;
    assert!(tb.check_and_consume_at("p", 60, 0).is_ok());
    for _ in 0..59 {
        assert!(tb.check_and_consume_at("p", 60, 0).is_ok());
    }
    // The bucket is empty: one token comes back after a second.
    assert_eq!(tb.check_and_consume_at("p", 60, 0), Err(1));
    assert!(tb.check_and_consume_at("p", 60, minute / 60).is_ok());
    assert!(tb.check_and_consume_at("p", 60, minute / 60).is_err());
}

#[test]
fn sliding_window_quota_and_cleanup() {
    let mut sw = SlidingWindowLimiter::new();
    sw.consume_at("p", 8000, 1000);
    assert!(sw.check_limit_at("p", 2000, Some(10000), None, None, 1000).is_ok());
    assert_eq!(sw.check_limit_at("p", 3000, Some(10000), None, None, 1000), Err("5h".to_string()));
    // Five hours later the tokens have left the 5-hour window.
    let later = 1000 + 5 * 3600 + 1;
    assert!(sw.check_limit_at("p", 3000, Some(10000), None, None, later).is_ok());
    assert_eq!(sw.get_consumption_at("p", later), Some((0, 8000, 8000)));
}

#[test]
fn sliding_window_admitted_requests_stay_within_quota() {
    let mut sw = SlidingWindowLimiter::new();
    let now = 50_000;
    for tokens in [400u64, 300, 300] {
        assert!(sw.check_limit_at("q", tokens, Some(1000), Some(5000), None, now).is_ok());
        sw.consume_at("q", tokens, now);
    }
    assert_eq!(sw.get_consumption_at("q", now), Some((1000, 1000, 1000)));
    assert_eq!(sw.check_limit_at("q", 1, Some(1000), Some(5000), None, now), Err("5h".to_string()));
}

#[test]
fn test_sliding_window_allows_within_limit() {
    let mut limiter = SlidingWindowLimiter::new();
    assert!(limiter.check_limit("test-provider", 1000, Some(10000), None, None).is_ok());
}

#[test]
fn test_sliding_window_blocks_over_limit() {
    let mut limiter = SlidingWindowLimiter::new();
    limiter.consume("test-provider", 8000);
    let result = limiter.check_limit("test-provider", 3000, Some(10000), None, None);
    assert!(result.is_err());
    assert_eq!(result.unwrap_err(), "5h");
}

#[test]
fn test_sliding_window_multiple_windows() {
    let mut limiter = SlidingWindowLimiter::new();
    limiter.consume("test-provider", 5000);
    let result = limiter.check_limit("test-provider", 3000, Some(10000), Some(7000), Some(20000));
    assert!(result.is_err());
    assert_eq!(result.unwrap_err(), "week");
}

#[test]
fn test_sliding_window_consumption_tracking() {
    let mut limiter = SlidingWindowLimiter::new();
    limiter.consume("test-provider", 1000);
    limiter.consume("test-provider", 2000);
    limiter.consume("test-provider", 3000);
    let consumption = limiter.get_consumption("test-provider");
    assert!(consumption.is_some());
    let (consumed_5h, consumed_week, consumed_month) = consumption.unwrap();
    assert_eq!(consumed_5h, 6000);
    assert_eq!(consumed_week, 6000);
    assert_eq!(consumed_month, 6000);
}

#[test]
fn test_sliding_window_no_limits() {
    let mut limiter = SlidingWindowLimiter::new();
    assert!(limiter.check_limit("test-provider", 1000000, None, None, None).is_ok());
}

#[test]
fn test_sliding_window_reset() {
    let mut limiter = SlidingWindowLimiter::new();
    limiter.consume("test-provider", 9000);
    assert!(limiter.check_limit("test-provider", 2000, Some(10000), None, None).is_err());
    limiter.reset("test-provider");
    assert!(limiter.check_limit("test-provider", 2000, Some(10000), None, None).is_ok());
}

#[test]
fn test_sliding_window_cleanup() {
    let mut limiter = SlidingWindowLimiter::new();
    limiter.consume("test-provider", 1000);
    limiter.consume("test-provider", 2000);
    limiter.cleanup_old_entries();
    let consumption = limiter.get_consumption("test-provider");
    assert!(consumption.is_some());
    let (consumed_5h, _, _) = consumption.unwrap();
    assert_eq!(consumed_5h, 3000);
}

#[test]
fn test_token_bucket_allows_requests_within_limit() {
    let mut limiter = TokenBucketLimiter::new();
    assert!(limiter.check_and_consume("test-provider", 60).is_ok());
}

#[test]
fn test_token_bucket_blocks_excessive_requests() {
    let mut limiter = TokenBucketLimiter::new();
    assert!(limiter.check_and_consume("test-provider", 2).is_ok());
    assert!(limiter.check_and_consume("test-provider", 2).is_ok());
    assert!(limiter.check_and_consume("test-provider", 2).is_err());
}

#[test]
fn test_token_bucket_refills_over_time() {
    // The clock is given explicitly: 1.1 seconds pass between the last two checks.
    let mut limiter = TokenBucketLimiter::new();
    let start = 5_000_000_000u64;
    for _ in 0..60 {
        let _ = limiter.check_and_consume_at("test-provider", 60, start);
    }
    assert!(limiter.check_and_consume_at("test-provider", 60, start).is_err());
    assert!(limiter.check_and_consume_at("test-provider", 60, start + 1_100_000_000).is_ok());
}

#[test]
fn test_token_bucket_no_limit() {
    let mut limiter = TokenBucketLimiter::new();
    for _ in 0..100 {
        assert!(limiter.check_and_consume("test-provider", 0).is_ok());
    }
}

#[test]
fn test_token_bucket_reset() {
    let mut limiter = TokenBucketLimiter::new();
    assert!(limiter.check_and_consume("test-provider", 2).is_ok());
    assert!(limiter.check_and_consume("test-provider", 2).is_ok());
    assert!(limiter.check_and_consume("test-provider", 2).is_err());
    limiter.reset("test-provider");
    assert!(limiter.check_and_consume("test-provider", 2).is_ok());
}

#[test]
fn token_bucket_rate_holds_over_time() {
    // 60 requests per minute; one request every 100 ms for 10 seconds.
    let mut tb = TokenBucketLimiter::new();
    let start = 1_000_000_000u64;
    let mut admitted = 0u64;
    for i in 0..=100u64 {
        if tb.check_and_consume_at("p", 60, start + i * 100_000_000).is_ok() {
            admitted += 1;
        }
    }
    // At most the full bucket plus one token per second elapsed.
    assert!(admitted <= 60 + 10);
    assert!(admitted >= 60);
}

#[test]
fn checking_records_no_token_usage() {
    let mut limiter = RateLimiter::new(false);
    let config = create_test_config();
    let t = 1_700_000_000u64;
    limiter.consume_at("p", 500, t).unwrap();
    let before = limiter.get_status_at("p", 0, t);
    assert_eq!((before.1, before.2, before.3), (500, 500, 500));
    assert!(limiter.check_limit_at("p", 1_000, &config, 0, t).is_ok());
    // A refused check records nothing either.
    assert!(limiter.check_limit_at("p", 10_000_000, &config, 0, t).is_err());
    let after = limiter.get_status_at("p", 0, t);
    assert_eq!((after.1, after.2, after.3), (500, 500, 500));
    // A provider only ever checked reports no consumption.
    assert!(limiter.check_limit_at("q", 1_000, &config, 0, t).is_ok());
    let q = limiter.get_status_at("q", 0, t);
    assert_eq!((q.1, q.2, q.3), (0, 0, 0));
}
