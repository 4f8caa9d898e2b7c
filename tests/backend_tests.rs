use gateway::backend::{Backend, BackendConfig};
use gateway::health::HealthCheckConfig;

fn local_backend() -> Backend {
    Backend::new(BackendConfig { url: "http://localhost:3000".to_string(), weight: 1 })
}

#[test]
fn test_backend_creation() {
    let backend = local_backend();
    assert_eq!(backend.url(), "http://localhost:3000");
    assert_eq!(backend.weight(), 1);
    assert!(backend.is_healthy());
    assert_eq!(backend.active_connections(), 0);
}

#[test]
fn test_connection_tracking() {
    let mut backend = local_backend();
    assert_eq!(backend.active_connections(), 0);
    backend.increment_connections();
    assert_eq!(backend.active_connections(), 1);
    backend.increment_connections();
    assert_eq!(backend.active_connections(), 2);
    backend.decrement_connections();
    assert_eq!(backend.active_connections(), 1);
}

#[test]
fn test_health_tracking() {
    let mut backend = local_backend();
    assert!(backend.is_healthy());
    backend.mark_unhealthy();
    assert!(!backend.is_healthy());
    backend.mark_healthy();
    assert!(backend.is_healthy());
}

#[test]
fn test_passive_health_check() {
    let mut backend = local_backend();
    backend.record_failure();
    backend.record_failure();
    backend.record_failure();
    backend.update_health_from_passive_check(3, 2);
    assert!(!backend.is_healthy());
    backend.record_success();
    backend.record_success();
    backend.update_health_from_passive_check(3, 2);
    assert!(backend.is_healthy());
}

#[test]
fn test_health_check_recording() {
    let mut backend = local_backend();
    backend.record_health_check(false, 3, 2, 100);
    backend.record_health_check(false, 3, 2, 101);
    backend.record_health_check(false, 3, 2, 102);
    assert!(!backend.is_healthy());
    backend.record_health_check(true, 3, 2, 103);
    backend.record_health_check(true, 3, 2, 104);
    assert!(backend.is_healthy());
}

#[test]
fn test_health_stats() {
    let mut backend = local_backend();
    backend.record_success();
    backend.record_success();
    backend.record_failure();
    backend.increment_connections();
    let stats = backend.health_stats();
    assert_eq!(stats.total_successes, 2);
    assert_eq!(stats.total_failures, 1);
    assert_eq!(stats.consecutive_failures, 1);
    assert_eq!(stats.active_connections, 1);
}

#[test]
fn decrement_never_goes_below_zero() {
    let mut backend = local_backend();
    backend.decrement_connections();
    assert_eq!(backend.active_connections(), 0);
}

#[test]
fn health_follows_last_run_of_outcomes() {
    let mut backend = local_backend();
    // two failures stay below a threshold of three
    backend.record_health_check(false, 3, 2, 1);
    backend.record_health_check(false, 3, 2, 2);
    assert!(backend.is_healthy());
    // a success resets the failure run
    backend.record_health_check(true, 3, 2, 3);
    backend.record_health_check(false, 3, 2, 4);
    backend.record_health_check(false, 3, 2, 5);
    assert!(backend.is_healthy());
    backend.record_health_check(false, 3, 2, 6);
    assert!(!backend.is_healthy());
    // one success is below the healthy threshold of two
    backend.record_health_check(true, 3, 2, 7);
    assert!(!backend.is_healthy());
    backend.record_health_check(true, 3, 2, 8);
    assert!(backend.is_healthy());
    assert_eq!(backend.health_stats().consecutive_successes, 2);
}

#[test]
fn mod_test_default_config() {
    let config = HealthCheckConfig::default();
    assert!(config.enabled);
    assert_eq!(config.interval_secs, 30);
    assert_eq!(config.timeout_secs, 5);
    assert_eq!(config.unhealthy_threshold, 3);
    assert_eq!(config.healthy_threshold, 2);
    assert_eq!(config.path, "/health");
    assert_eq!(config.expected_status, 200);
    assert!(config.passive_enabled);
}

#[test]
fn test_passive_check() {
    let config = HealthCheckConfig::default();
    let mut backend = Backend::new(BackendConfig { url: "http://test:3000".to_string(), weight: 1 });
    for _ in 0..3 {
        config.passive_check(&mut backend, false);
    }
    assert!(!backend.is_healthy());
    for _ in 0..2 {
        config.passive_check(&mut backend, true);
    }
    assert!(backend.is_healthy());
}

#[test]
fn probe_url_and_outcome() {
    let config = HealthCheckConfig::default();
    assert_eq!(config.probe_url("http://b:3000/"), "http://b:3000/health");
    assert!(config.probe_succeeded(Some(200)));
    assert!(!config.probe_succeeded(Some(503)));
    assert!(!config.probe_succeeded(None));
    let mut backend = local_backend();
    for t in 0..3u64 {
        config.record_probe(&mut backend, None, t);
    }
    assert!(!backend.is_healthy());
}
