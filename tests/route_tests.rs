use gateway::auth::{auth_step, validate_api_key, AuthAction};
use gateway::config::AuthMethod;
use gateway::config::{GatewayConfig, RouteConfig, ServerConfig};
use gateway::headers::HeaderList;
use gateway::metrics::{is_likely_id, sanitize_path, Timer};
use gateway::proxy::{
    breaker_report, forwardable_headers, get_request_id, is_health_check_path, is_hop_by_hop_header, passive_success,
    request_id, BreakerReport, RequestId, UpstreamOutcome,
};
use gateway::ratelimit::{RateLimitConfig, RateLimitDimension};
use gateway::router::{convert_path_syntax, parse_strategy, GatewayRouter, RouteMatch};
use gateway::settings::{CorsConfig, HotReloadConfig};
use gateway::strategies::LoadBalancingStrategy;

fn route(path: &str, backend: &str, methods: &[&str], strip_prefix: bool, description: &str) -> RouteConfig {
    RouteConfig {
        path: path.to_string(),
        backend: backend.to_string(),
        backends: vec![],
        load_balancer: None,
        health_check: None,
        methods: methods.iter().map(|m| m.to_string()).collect(),
        strip_prefix,
        description: description.to_string(),
        auth: None,
        rate_limit: None,
        ip_filter: None,
        cache: None,
        transform: None,
    }
}

fn create_test_routes() -> Vec<RouteConfig> {
    vec![
        route("/api/users", "http://localhost:3000", &["GET", "POST"], false, "User service"),
        route("/api/orders/:id", "http://localhost:3001", &[], false, "Order service"),
        route("/v1/products/*path", "http://localhost:3002", &["GET"], true, "Product service"),
    ]
}

fn selected_url(router: &mut GatewayRouter, m: &RouteMatch) -> String {
    let r = router.route_mut(m.route);
    let i = r.load_balancer.select_backend(None).unwrap();
    r.load_balancer.backends()[i].url().to_string()
}

fn single_route_config(r: RouteConfig) -> GatewayConfig {
    GatewayConfig { server: ServerConfig::default(), routes: vec![r], auth: None, rate_limiting: None, circuit_breaker: None }
}

#[test]
fn test_router_creation() {
    let _router = GatewayRouter::new(create_test_routes()).unwrap();
}

#[test]
fn test_exact_match() {
    let mut router = GatewayRouter::new(create_test_routes()).unwrap();
    let result = router.match_route("/api/users", "GET");
    assert!(result.is_ok());
    let route_match = result.unwrap();
    assert_eq!(selected_url(&mut router, &route_match), "http://localhost:3000");
    assert!(route_match.params.is_empty());
}

#[test]
fn test_param_match() {
    let mut router = GatewayRouter::new(create_test_routes()).unwrap();
    let result = router.match_route("/api/orders/123", "GET");
    assert!(result.is_ok());
    let route_match = result.unwrap();
    assert_eq!(selected_url(&mut router, &route_match), "http://localhost:3001");
    assert_eq!(route_match.params, vec![("id".to_string(), "123".to_string())]);
}

#[test]
fn test_wildcard_match() {
    let mut router = GatewayRouter::new(create_test_routes()).unwrap();
    let result = router.match_route("/v1/products/electronics/phones", "GET");
    assert!(result.is_ok());
    let route_match = result.unwrap();
    assert_eq!(selected_url(&mut router, &route_match), "http://localhost:3002");
}

#[test]
fn test_method_validation() {
    let router = GatewayRouter::new(create_test_routes()).unwrap();
    assert!(router.match_route("/api/users", "GET").is_ok());
    assert!(router.match_route("/api/users", "POST").is_ok());
    assert!(router.match_route("/api/users", "DELETE").is_err());
}

#[test]
fn mod_test_route_not_found() {
    let router = GatewayRouter::new(create_test_routes()).unwrap();
    let result = router.match_route("/nonexistent", "GET");
    assert!(result.is_err());
}

#[test]
fn test_empty_methods_allows_all() {
    let router = GatewayRouter::new(vec![route("/api/test", "http://localhost:3000", &[], false, "")]).unwrap();
    assert!(router.match_route("/api/test", "GET").is_ok());
    assert!(router.match_route("/api/test", "POST").is_ok());
    assert!(router.match_route("/api/test", "DELETE").is_ok());
    assert!(router.match_route("/api/test", "PUT").is_ok());
}

#[test]
fn test_build_backend_url_no_strip() {
    let route_match = RouteMatch { route: 0, params: vec![], matched_path: "/api/users".to_string(), strip_prefix: false };
    let url = route_match.build_backend_url("http://localhost:3000", "/api/users/123");
    assert_eq!(url, "http://localhost:3000/api/users/123");
}

#[test]
fn test_build_backend_url_with_strip() {
    let route_match = RouteMatch { route: 0, params: vec![], matched_path: "/v1/products".to_string(), strip_prefix: true };
    let url = route_match.build_backend_url("http://localhost:3000", "/v1/products/electronics");
    assert_eq!(url, "http://localhost:3000/electronics");
}

#[test]
fn exact_match_proxy_scenario() {
    let router = GatewayRouter::new(vec![route("/api/users", "http://u:3000", &["GET", "POST"], false, "")]).unwrap();
    let m = router.match_route("/api/users", "GET").unwrap();
    assert_eq!(m.build_backend_url("http://u:3000", "/api/users"), "http://u:3000/api/users");
    let err = router.match_route("/api/users", "DELETE").err().unwrap();
    assert_eq!(err.status_code(), 405);
    let sent: HeaderList = vec![
        ("Accept".to_string(), "*/*".to_string()),
        ("Connection".to_string(), "keep-alive".to_string()),
        ("Keep-Alive".to_string(), "timeout=5".to_string()),
        ("X-Trace".to_string(), "1".to_string()),
    ];
    assert_eq!(
        forwardable_headers(&sent),
        vec![("Accept".to_string(), "*/*".to_string()), ("X-Trace".to_string(), "1".to_string())]
    );
}

#[test]
fn strip_prefix_scenario() {
    let router = GatewayRouter::new(vec![route("/v1/products/*rest", "http://p:3000", &[], true, "")]).unwrap();
    let m = router.match_route("/v1/products/electronics/phones", "GET").unwrap();
    assert_eq!(m.matched_path, "/v1/products");
    assert_eq!(m.params, vec![("rest".to_string(), "electronics/phones".to_string())]);
    assert_eq!(m.build_backend_url("http://p:3000/", "/v1/products/electronics/phones"), "http://p:3000/electronics/phones");
    let missing = router.match_route("/v2/other", "GET").err().unwrap();
    assert_eq!(missing.status_code(), 404);
}

#[test]
fn conflicting_patterns_are_rejected() {
    let result = GatewayRouter::new(vec![
        route("/a/:x", "http://a:1", &[], false, ""),
        route("/a/:y", "http://a:2", &[], false, ""),
    ]);
    assert!(result.is_err());
}

#[test]
fn test_convert_path_syntax() {
    assert_eq!(convert_path_syntax("/api/users"), "/api/users");
    assert_eq!(convert_path_syntax("/api/users/:id"), "/api/users/{id}");
    assert_eq!(convert_path_syntax("/api/users/:id/posts/:postId"), "/api/users/{id}/posts/{postId}");
    assert_eq!(convert_path_syntax("/api/*path"), "/api/{*path}");
    assert_eq!(convert_path_syntax("/v1/products/*remaining"), "/v1/products/{*remaining}");
}

#[test]
fn strategy_names() {
    assert!(matches!(parse_strategy("Round_Robin"), Ok(LoadBalancingStrategy::RoundRobin(_))));
    assert!(matches!(parse_strategy("leastconnections"), Ok(LoadBalancingStrategy::LeastConnections)));
    assert!(matches!(parse_strategy("WEIGHTED"), Ok(LoadBalancingStrategy::Weighted(_))));
    assert!(matches!(parse_strategy("ip_hash"), Ok(LoadBalancingStrategy::IpHash)));
    assert!(matches!(parse_strategy("random"), Err(gateway::error::GatewayError::Config(_))));
}

#[test]
fn test_validate_empty_path() {
    let config = single_route_config(route("", "http://localhost:3000", &[], false, ""));
    assert!(config.validate().is_err());
}

#[test]
fn test_validate_invalid_backend() {
    let config = single_route_config(route("/api/test", "invalid-url", &[], false, ""));
    assert!(config.validate().is_err());
}

#[test]
fn test_validate_invalid_method() {
    let config = single_route_config(route("/api/test", "http://localhost:3000", &["INVALID"], false, ""));
    assert!(config.validate().is_err());
}

#[test]
fn test_validate_valid_config() {
    let config = single_route_config(route("/api/test", "http://localhost:3000", &["GET", "POST"], false, "Test route"));
    assert!(config.validate().is_ok());
}

#[test]
fn validation_error_kinds() {
    let bad_route = single_route_config(route("/api/test", "ftp://x", &[], false, ""));
    assert!(matches!(bad_route.validate(), Err(gateway::error::GatewayError::InvalidRoute(_))));
    let mut with_limit = route("/api/test", "https://x", &["get"], false, "");
    with_limit.rate_limit = Some(vec![RateLimitConfig { dimension: RateLimitDimension::Ip, requests: 0, window_secs: 60, burst: None }]);
    assert!(matches!(single_route_config(with_limit).validate(), Err(gateway::error::GatewayError::Config(_))));
    let d = GatewayConfig::default_config();
    assert_eq!(d.server.host, "0.0.0.0");
    assert_eq!(d.server.port, 8080);
    assert!(d.validate().is_ok());
}

#[test]
fn test_hop_by_hop_headers() {
    assert!(is_hop_by_hop_header("Connection"));
    assert!(is_hop_by_hop_header("connection"));
    assert!(is_hop_by_hop_header("Keep-Alive"));
    assert!(is_hop_by_hop_header("Transfer-Encoding"));
    assert!(!is_hop_by_hop_header("Content-Type"));
    assert!(!is_hop_by_hop_header("Authorization"));
}

#[test]
fn test_is_health_check_path() {
    assert!(is_health_check_path("/health"));
    assert!(is_health_check_path("/healthz"));
    assert!(is_health_check_path("/ready"));
    assert!(is_health_check_path("/readiness"));
    assert!(is_health_check_path("/ping"));
    assert!(!is_health_check_path("/api/users"));
    assert!(!is_health_check_path("/healthy"));
}

#[test]
fn upstream_outcomes_feed_breaker_and_health() {
    assert_eq!(breaker_report(UpstreamOutcome::Response(500)), BreakerReport::Failure);
    assert_eq!(breaker_report(UpstreamOutcome::Response(404)), BreakerReport::Success);
    assert_eq!(breaker_report(UpstreamOutcome::Timeout), BreakerReport::Timeout);
    assert_eq!(breaker_report(UpstreamOutcome::Connection), BreakerReport::Failure);
    assert!(passive_success(UpstreamOutcome::Response(499)));
    assert!(!passive_success(UpstreamOutcome::Response(503)));
    assert!(!passive_success(UpstreamOutcome::Timeout));
}

#[test]
fn test_request_id_extraction() {
    let headers: HeaderList = vec![("x-request-id".to_string(), "test-request-id".to_string())];
    let request_id_value = gateway::headers::get_header(&headers, "X-Request-Id").map(|s| s.to_string());
    assert_eq!(request_id_value, Some("test-request-id".to_string()));
    assert_eq!(request_id(Some("test-request-id"), "fresh".to_string()), "test-request-id");
    assert_eq!(request_id(None, "fresh".to_string()), "fresh");
}

#[test]
fn test_request_id_type() {
    let id = RequestId("test-id".to_string());
    assert_eq!(id.0, "test-id");
    assert_eq!(get_request_id(Some(&id)), Some("test-id".to_string()));
    assert_eq!(get_request_id(None), None);
}

#[test]
fn test_sanitize_path() {
    assert_eq!(sanitize_path("/api/users/123"), "/api/users/:id");
    assert_eq!(sanitize_path("/api/users/abc123def456"), "/api/users/:id");
    assert_eq!(sanitize_path("/api/users/550e8400-e29b-41d4-a716-446655440000"), "/api/users/:id");
    assert_eq!(sanitize_path("/api/users"), "/api/users");
    assert_eq!(sanitize_path("/api/users/profile"), "/api/users/profile");
}

#[test]
fn test_is_likely_id() {
    assert!(is_likely_id("123"));
    assert!(is_likely_id("123456789"));
    assert!(is_likely_id("550e8400-e29b-41d4-a716-446655440000"));
    assert!(is_likely_id("abc123def456ghi789jkl012"));
    assert!(!is_likely_id("users"));
    assert!(!is_likely_id("profile"));
    assert!(!is_likely_id("api"));
}

#[test]
fn test_timer_with_backend() {
    let mut timer = Timer::new("POST".to_string(), "/api/data".to_string());
    timer.set_backend("http://backend:3000".to_string());
    assert_eq!(timer.backend, Some("http://backend:3000".to_string()));
}

#[test]
fn test_default_cors_config() {
    let config = CorsConfig::default();
    assert_eq!(config.allowed_origins, vec!["*"]);
    assert!(config.allowed_methods.contains(&"GET".to_string()));
    assert!(config.allowed_headers.contains(&"Content-Type".to_string()));
    assert!(!config.allow_credentials);
}

#[test]
fn test_permissive_cors_config() {
    let config = CorsConfig::permissive();
    assert_eq!(config.allowed_origins, vec!["*"]);
    assert_eq!(config.allowed_headers, vec!["*"]);
    assert!(!config.allow_credentials);
    assert_eq!(config.max_age_secs, 86400);
}

#[test]
fn test_restrictive_cors_config() {
    let origins = vec!["https://example.com".to_string()];
    let config = CorsConfig::restrictive(origins.clone());
    assert_eq!(config.allowed_origins, origins);
    assert!(config.allow_credentials);
    assert_eq!(config.allowed_methods.len(), 2);
}

#[test]
fn test_hot_reload_config_defaults() {
    let config = HotReloadConfig::default();
    assert!(!config.enabled);
    assert_eq!(config.debounce_ms, 1000);
}

#[test]
fn test_config_validation() {
    let config = single_route_config(route("/api/test", "http://localhost:3000", &["GET"], false, "Test route"));
    assert!(config.validate().is_ok());
}

#[test]
fn test_config_invalid_backend() {
    let config = single_route_config(route("/api/test", "invalid-url", &["GET"], false, "Test route"));
    assert!(config.validate().is_err());
}

#[test]
fn error_body_is_json() {
    let e = gateway::error::GatewayError::RouteNotFound("/a\"b".to_string());
    assert_eq!(gateway::proxy::error_body(&e), "{\"error\":\"Route not found: /a\\\"b\",\"status\":404}");
    let c = gateway::error::GatewayError::Config("line\nnext\u{1}".to_string());
    assert_eq!(gateway::proxy::error_body(&c), "{\"error\":\"Configuration error: line\\nnext\\u0001\",\"status\":500}");
}

#[test]
fn auth_is_skipped_on_health_paths() {
    let auth = Some(gateway::config::RouteAuthConfig { required: true, methods: vec![] });
    assert!(gateway::proxy::auth_required(&auth, "/api"));
    assert!(!gateway::proxy::auth_required(&auth, "/health"));
    assert!(!gateway::proxy::auth_required(&None, "/api"));
    let optional = Some(gateway::config::RouteAuthConfig { required: false, methods: vec![] });
    assert!(!gateway::proxy::auth_required(&optional, "/api"));
}

#[test]
fn router_construction_failures_are_invalid_route() {
    let bad_method = GatewayRouter::new(vec![route("/a", "http://a:1", &["GET", "BAD METHOD"], false, "")]);
    assert!(matches!(bad_method, Err(gateway::error::GatewayError::InvalidRoute(_))));
    let many: String = (1..=26).map(|i| format!("/:p{}", i)).collect();
    let too_many = GatewayRouter::new(vec![route(&many, "http://a:1", &[], false, "")]);
    assert!(matches!(too_many, Err(gateway::error::GatewayError::InvalidRoute(_))));
    let some: String = (1..=25).map(|i| format!("/:p{}", i)).collect();
    assert!(GatewayRouter::new(vec![route(&some, "http://a:1", &[], false, "")]).is_ok());
    let mut bad_strategy = route("/b", "", &[], false, "");
    bad_strategy.backends = vec![gateway::backend::BackendConfig { url: "http://b:1".to_string(), weight: 1 }];
    bad_strategy.load_balancer = Some("random".to_string());
    assert!(matches!(GatewayRouter::new(vec![bad_strategy]), Err(gateway::error::GatewayError::InvalidRoute(_))));
}

#[test]
fn weighted_pool_from_configuration() {
    let mut r = route("/w", "", &[], false, "");
    r.backends = vec![
        gateway::backend::BackendConfig { url: "http://backend-0".to_string(), weight: 1 },
        gateway::backend::BackendConfig { url: "http://backend-1".to_string(), weight: 2 },
    ];
    r.load_balancer = Some("weighted".to_string());
    assert!(single_route_config(route("/w", "", &[], false, "")).validate().is_err());
    let mut router = GatewayRouter::new(vec![r]).unwrap();
    let m = router.match_route("/w", "GET").unwrap();
    let mut counts = [0; 2];
    for _ in 0..30 {
        let lb = &mut router.route_mut(m.route).load_balancer;
        counts[lb.select_backend(None).unwrap()] += 1;
    }
    assert_eq!(counts, [10, 20]);
}

#[test]
fn auth_service_availability() {
    assert!(!gateway::settings::AuthService::new(None).is_available());
    let cfg = gateway::config::AuthConfig {
        jwt: None,
        api_key: Some(gateway::config::ApiKeyConfig { header: "X-API-Key".to_string(), keys: vec![], redis: None }),
    };
    assert!(gateway::settings::AuthService::new(Some(cfg)).is_available());
}

#[test]
fn authentication_steps() {
    assert_eq!(auth_step(&vec![], true, true, 0, false, None), AuthAction::TryJwt);
    assert_eq!(auth_step(&vec![], true, true, 1, false, Some(false)), AuthAction::TryApiKey);
    assert_eq!(auth_step(&vec![], true, true, 2, true, Some(false)), AuthAction::RejectInvalid);
    assert_eq!(auth_step(&vec![AuthMethod::ApiKey], true, true, 0, false, None), AuthAction::TryApiKey);
    assert_eq!(auth_step(&vec![AuthMethod::Jwt], false, true, 0, false, None), AuthAction::RejectMissing);
    assert_eq!(auth_step(&vec![], false, true, 2, false, Some(true)), AuthAction::Accept);
    let cfg = gateway::config::ApiKeyConfig {
        header: "X-API-Key".to_string(),
        keys: vec![("k1".to_string(), "first".to_string())],
        redis: None,
    };
    let h = |v: &str| vec![("x-api-key".to_string(), v.to_string())];
    assert_eq!(validate_api_key(&cfg, &h("k1")).ok(), Some("k1".to_string()));
    assert!(matches!(validate_api_key(&cfg, &h("k2")), Err(gateway::error::GatewayError::InvalidApiKey)));
    assert!(matches!(validate_api_key(&cfg, &h("")), Err(gateway::error::GatewayError::InvalidApiKey)));
    assert!(matches!(validate_api_key(&cfg, &vec![]), Err(gateway::error::GatewayError::MissingCredentials)));
}
