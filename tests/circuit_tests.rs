use gateway::circuit::{CircuitBreaker, CircuitBreakerConfig, CircuitState};
use gateway::error::GatewayError;
use gateway::retry::RetryState;
use std::time::Duration;

fn breaker(config: CircuitBreakerConfig) -> CircuitBreaker {
    CircuitBreaker::new("test-backend".to_string(), config)
}

#[test]
fn test_circuit_state_display() {
    assert_eq!(CircuitState::Closed.to_string(), "Closed");
    assert_eq!(CircuitState::Open.to_string(), "Open");
    assert_eq!(CircuitState::HalfOpen.to_string(), "HalfOpen");
}

#[test]
fn types_test_default_config() {
    let config = CircuitBreakerConfig::default();
    assert_eq!(config.failure_threshold, 5);
    assert_eq!(config.success_threshold, 2);
    assert_eq!(config.timeout_secs, 60);
    assert_eq!(config.half_open_requests, 3);
    assert_eq!(config.request_timeout_secs, 30);
    assert_eq!(config.timeout(), Duration::from_secs(60));
    assert_eq!(config.request_timeout(), Duration::from_secs(30));
}

#[test]
fn test_circuit_breaker_starts_closed() {
    let mut cb = breaker(CircuitBreakerConfig::default());
    assert_eq!(cb.state(), CircuitState::Closed);
    assert!(cb.can_proceed(0));
}

#[test]
fn test_circuit_opens_after_threshold_failures() {
    let mut cb = breaker(CircuitBreakerConfig { failure_threshold: 3, ..Default::default() });
    for _ in 0..3 {
        assert!(cb.can_proceed(0));
        cb.record_failure(0);
    }
    assert_eq!(cb.state(), CircuitState::Open);
    assert!(!cb.can_proceed(0));
}

#[test]
fn test_circuit_resets_on_success() {
    let mut cb = breaker(CircuitBreakerConfig { failure_threshold: 3, ..Default::default() });
    for _ in 0..2 {
        assert!(cb.can_proceed(0));
        cb.record_failure(0);
    }
    assert!(cb.can_proceed(0));
    cb.record_success();
    assert_eq!(cb.state(), CircuitState::Closed);
    for _ in 0..3 {
        assert!(cb.can_proceed(0));
        cb.record_failure(0);
    }
    assert_eq!(cb.state(), CircuitState::Open);
}

#[test]
fn test_half_open_allows_limited_requests() {
    let mut cb = breaker(CircuitBreakerConfig { failure_threshold: 2, half_open_requests: 2, timeout_secs: 0, ..Default::default() });
    for _ in 0..2 {
        assert!(cb.can_proceed(0));
        cb.record_failure(0);
    }
    assert_eq!(cb.state(), CircuitState::Open);
    assert!(cb.can_proceed(10));
    assert_eq!(cb.state(), CircuitState::HalfOpen);
    assert!(cb.can_proceed(10));
    assert!(!cb.can_proceed(10));
}

#[test]
fn test_half_open_closes_on_success() {
    let mut cb = breaker(CircuitBreakerConfig {
        failure_threshold: 2,
        success_threshold: 2,
        half_open_requests: 3,
        timeout_secs: 0,
        ..Default::default()
    });
    for _ in 0..2 {
        assert!(cb.can_proceed(0));
        cb.record_failure(0);
    }
    assert_eq!(cb.state(), CircuitState::Open);
    assert!(cb.can_proceed(10));
    assert_eq!(cb.state(), CircuitState::HalfOpen);
    cb.record_success();
    assert_eq!(cb.state(), CircuitState::HalfOpen);
    assert!(cb.can_proceed(10));
    cb.record_success();
    assert_eq!(cb.state(), CircuitState::Closed);
}

#[test]
fn test_half_open_reopens_on_failure() {
    let mut cb = breaker(CircuitBreakerConfig { failure_threshold: 2, timeout_secs: 0, ..Default::default() });
    for _ in 0..2 {
        assert!(cb.can_proceed(0));
        cb.record_failure(0);
    }
    assert_eq!(cb.state(), CircuitState::Open);
    assert!(cb.can_proceed(10));
    assert_eq!(cb.state(), CircuitState::HalfOpen);
    cb.record_failure(10);
    assert_eq!(cb.state(), CircuitState::Open);
}

#[test]
fn test_metrics_tracking() {
    let mut cb = breaker(CircuitBreakerConfig { failure_threshold: 2, ..Default::default() });
    assert!(cb.can_proceed(0));
    cb.record_success();
    assert!(cb.can_proceed(0));
    cb.record_failure(0);
    assert!(cb.can_proceed(0));
    cb.record_failure(0);
    assert_eq!(cb.state(), CircuitState::Open);
    assert!(!cb.can_proceed(0));
    let metrics = cb.metrics();
    assert_eq!(metrics.total_requests, 3);
    assert_eq!(metrics.successful_requests, 1);
    assert_eq!(metrics.failed_requests, 2);
    assert_eq!(metrics.rejected_requests, 1);
    assert_eq!(metrics.circuit_opened_count, 1);
}

#[test]
fn breaker_trips_then_recovers() {
    let mut cb = breaker(CircuitBreakerConfig {
        failure_threshold: 3,
        success_threshold: 2,
        timeout_secs: 1,
        half_open_requests: 2,
        ..Default::default()
    });
    for t in 0..3u64 {
        assert!(cb.can_proceed(t));
        cb.record_failure(t);
    }
    assert_eq!(cb.state(), CircuitState::Open);
    // within the second after opening at t = 2 ms: rejected, still open
    assert!(!cb.can_proceed(500));
    assert!(!cb.can_proceed(1001));
    assert_eq!(cb.state(), CircuitState::Open);
    // one second after opening: the first request is admitted as a probe
    assert!(cb.can_proceed(1002));
    assert_eq!(cb.state(), CircuitState::HalfOpen);
    cb.record_success();
    assert!(cb.can_proceed(1003));
    cb.record_success();
    assert_eq!(cb.state(), CircuitState::Closed);
    assert_eq!(cb.metrics().rejected_requests, 2);
    assert_eq!(cb.metrics().circuit_half_opened_count, 1);
    assert_eq!(cb.metrics().circuit_closed_count, 1);
}

#[test]
fn timeout_counts_as_failure() {
    let mut cb = breaker(CircuitBreakerConfig { failure_threshold: 1, ..Default::default() });
    assert!(cb.can_proceed(0));
    cb.record_timeout(5);
    assert_eq!(cb.state(), CircuitState::Open);
    assert_eq!(cb.metrics().timeout_count, 1);
    assert_eq!(cb.metrics().failed_requests, 1);
    assert_eq!(cb.backend(), "test-backend");
}

#[test]
fn retry_budget_allows_retries_plus_one_attempts() {
    let mut budget = RetryState::new(3);
    let mut started = 0;
    while budget.try_start() {
        started += 1;
        assert_eq!(budget.should_retry(true), started <= 3);
    }
    assert_eq!(started, 4);
    assert_eq!(budget.attempts(), 4);
    assert!(!budget.should_retry(true));
}

#[test]
fn retry_stops_on_non_retryable_error() {
    let mut budget = RetryState::new(5);
    assert!(budget.try_start());
    assert!(!budget.should_retry(false));
    assert!(budget.should_retry(true));
}

#[test]
fn test_error_status_codes() {
    assert_eq!(GatewayError::RouteNotFound("test".to_string()).status_code(), http::StatusCode::NOT_FOUND.as_u16());
    assert_eq!(GatewayError::InvalidMethod("test".to_string()).status_code(), http::StatusCode::METHOD_NOT_ALLOWED.as_u16());
    assert_eq!(GatewayError::Timeout("test".to_string()).status_code(), http::StatusCode::GATEWAY_TIMEOUT.as_u16());
}

#[test]
fn test_error_display() {
    let err = GatewayError::RouteNotFound("/test".to_string());
    assert_eq!(err.to_string(), "Route not found: /test");
}

#[test]
fn error_kinds_map_to_statuses() {
    assert_eq!(GatewayError::Forbidden("ip".to_string()).status_code(), 403);
    assert_eq!(GatewayError::MissingCredentials.status_code(), 401);
    assert_eq!(GatewayError::InvalidApiKey.status_code(), 401);
    assert_eq!(GatewayError::RateLimited("k".to_string()).status_code(), 429);
    assert_eq!(GatewayError::CircuitBreakerOpen("b".to_string()).status_code(), 503);
    assert_eq!(GatewayError::NoHealthyBackend("r".to_string()).status_code(), 503);
    assert_eq!(GatewayError::Backend("conn".to_string()).status_code(), 502);
    assert_eq!(GatewayError::Config("c".to_string()).status_code(), 500);
    assert!(GatewayError::Timeout("t".to_string()).is_retryable());
    assert!(GatewayError::Backend("conn".to_string()).is_retryable());
    assert!(!GatewayError::Proxy("p".to_string()).is_retryable());
    assert_eq!(GatewayError::MissingCredentials.to_string(), "Missing authentication credentials");
}
