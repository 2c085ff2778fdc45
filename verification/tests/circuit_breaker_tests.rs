use velo_hub::config::CircuitBreakerConfig;
use velo_hub::models::CircuitState;
use velo_hub::router::circuit_breaker::CircuitBreaker;

fn half_threshold() -> CircuitBreakerConfig {
    CircuitBreakerConfig {
        failure_threshold_ppm: 500_000,
        window_duration_secs: 60,
        cooldown_duration_secs: 30,
        half_open_max_requests: 3,
    }
}

#[test]
fn test_circuit_breaker_starts_closed() {
    let cb = CircuitBreaker::with_defaults();
    assert_eq!(cb.get_state("test-provider"), CircuitState::Closed);
}

#[test]
fn test_circuit_breaker_opens_on_high_error_rate() {
    let mut cb = CircuitBreaker::new(half_threshold());
    for _ in 0..3 {
        cb.record_success("test-provider");
    }
    for _ in 0..5 {
        cb.record_failure("test-provider");
    }
    assert_eq!(cb.get_state("test-provider"), CircuitState::Open);
}

#[test]
fn test_circuit_breaker_stays_closed_with_low_error_rate() {
    let mut cb = CircuitBreaker::with_defaults();
    for _ in 0..10 {
        cb.record_success("test-provider");
    }
    cb.record_failure("test-provider");
    assert_eq!(cb.get_state("test-provider"), CircuitState::Closed);
}

#[test]
fn test_circuit_breaker_check_available_when_closed() {
    let mut cb = CircuitBreaker::with_defaults();
    assert!(cb.check_available("test-provider").is_ok());
}

#[test]
fn test_circuit_breaker_check_available_when_open() {
    let mut cb = CircuitBreaker::new(half_threshold());
    for _ in 0..3 {
        cb.record_success("test-provider");
    }
    for _ in 0..5 {
        cb.record_failure("test-provider");
    }
    assert!(cb.check_available("test-provider").is_err());
}

#[test]
fn test_circuit_breaker_reset() {
    let mut cb = CircuitBreaker::new(half_threshold());
    for _ in 0..3 {
        cb.record_success("test-provider");
    }
    for _ in 0..5 {
        cb.record_failure("test-provider");
    }
    assert_eq!(cb.get_state("test-provider"), CircuitState::Open);
    cb.reset("test-provider");
    assert_eq!(cb.get_state("test-provider"), CircuitState::Closed);
}

#[test]
fn test_circuit_breaker_metrics() {
    let mut cb = CircuitBreaker::with_defaults();
    cb.record_success("test-provider");
    cb.record_success("test-provider");
    cb.record_failure("test-provider");
    let metrics = cb.get_metrics("test-provider");
    assert_eq!(metrics.total_requests, 3);
    assert_eq!(metrics.failed_requests, 1);
    let error_rate = metrics.failed_requests as f64 / metrics.total_requests as f64;
    assert!((error_rate - 0.333).abs() < 0.01);
}

#[test]
fn breaker_cycle_with_explicit_times() {
    let mut cb = CircuitBreaker::new(half_threshold());
    let s = 1_000_000_000u64;
    for t in 0..5u64 {
        cb.record_failure_at("p", t * s);
    }
    assert_eq!(cb.get_state("p"), CircuitState::Open);
    // Still cooling down 29 s after opening.
    assert!(cb.check_available_at("p", 4 * s + 29 * s).is_err());
    // After the cooldown: half-open, three test requests let through.
    assert!(cb.check_available_at("p", 4 * s + 30 * s).is_ok());
    assert_eq!(cb.get_state("p"), CircuitState::HalfOpen);
    assert!(cb.check_available_at("p", 4 * s + 30 * s).is_ok());
    assert!(cb.check_available_at("p", 4 * s + 30 * s).is_ok());
    assert!(cb.check_available_at("p", 4 * s + 30 * s).is_err());
    // A success closes it.
    cb.record_success_at("p", 35 * s);
    assert_eq!(cb.get_state("p"), CircuitState::Closed);
}

#[test]
fn breaker_half_open_failure_reopens() {
    let mut cb = CircuitBreaker::new(half_threshold());
    let s = 1_000_000_000u64;
    for _ in 0..5 {
        cb.record_failure_at("p", 0);
    }
    assert!(cb.check_available_at("p", 30 * s).is_ok());
    cb.record_failure_at("p", 31 * s);
    assert_eq!(cb.get_state("p"), CircuitState::Open);
    assert!(cb.check_available_at("p", 60 * s).is_err());
    assert!(cb.check_available_at("p", 61 * s).is_ok());
}

#[test]
fn breaker_window_forgets_old_results() {
    let mut cb = CircuitBreaker::new(half_threshold());
    let s = 1_000_000_000u64;
    for _ in 0..4 {
        cb.record_failure_at("p", 0);
    }
    // 61 s later the old failures have left the 60 s window.
    cb.record_failure_at("p", 61 * s);
    assert_eq!(cb.get_state("p"), CircuitState::Closed);
    assert_eq!(cb.get_metrics_at("p", 61 * s, 0).total_requests, 1);
}
