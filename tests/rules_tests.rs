use gateway::cache::{CacheConfig, CacheKey, CacheRules, CachedResponse};
use gateway::headers::{get_header, HeaderList};
use gateway::ratelimit::{
    add_rate_limit_headers, create_rate_limit_key, local_check_result, rate_limit_exceeded_headers, RateLimitConfig,
    RateLimitDimension, RateLimitKey, RateLimitResult,
};
use std::time::Duration;

fn hdr(pairs: &[(&str, &str)]) -> HeaderList {
    pairs.iter().map(|(k, v)| (k.to_string(), v.to_string())).collect()
}

#[test]
fn test_rate_limit_key_to_redis_key() {
    let key = RateLimitKey::new(RateLimitDimension::Ip, "192.168.1.1".to_string());
    assert_eq!(key.to_redis_key(), "gateway:ratelimit:ip:192.168.1.1");
    let key_with_route = RateLimitKey::with_route(RateLimitDimension::User, "user123".to_string(), "/api/users".to_string());
    assert_eq!(key_with_route.to_redis_key(), "gateway:ratelimit:user:user123:/api/users");
}

#[test]
fn test_rate_limit_config_defaults() {
    let config = RateLimitConfig { dimension: RateLimitDimension::Ip, requests: 100, window_secs: 60, burst: None };
    assert_eq!(config.burst_size(), 100);
    assert_eq!(config.window(), Duration::from_secs(60));
}

#[test]
fn test_rate_limit_result() {
    let allowed = RateLimitResult::allowed(50, 100, 30);
    assert!(allowed.allowed);
    assert_eq!(allowed.remaining, 50);
    assert_eq!(allowed.limit, 100);
    let denied = RateLimitResult::denied(100, 30);
    assert!(!denied.allowed);
    assert_eq!(denied.remaining, 0);
    assert_eq!(denied.retry_after, Some(30));
}

#[test]
fn test_create_rate_limit_key() {
    let key = create_rate_limit_key(RateLimitDimension::Ip, "192.168.1.1", None, None, "/api/test");
    assert!(key.is_some());
    assert_eq!(key.unwrap().identifier, "192.168.1.1");
    let key = create_rate_limit_key(RateLimitDimension::User, "192.168.1.1", None, None, "/api/test");
    assert!(key.is_none());
    let key = create_rate_limit_key(RateLimitDimension::User, "192.168.1.1", Some("user123"), None, "/api/test");
    assert!(key.is_some());
    assert_eq!(key.unwrap().identifier, "user123");
    let key = create_rate_limit_key(RateLimitDimension::Route, "192.168.1.1", None, None, "/api/test");
    assert!(key.is_some());
    let key = key.unwrap();
    assert_eq!(key.identifier, "192.168.1.1");
    assert_eq!(key.route, Some("/api/test".to_string()));
}

#[test]
fn test_rate_limit_response() {
    let headers = rate_limit_exceeded_headers(100, 0, 30, Some(30));
    assert_eq!(get_header(&headers, "X-RateLimit-Limit").unwrap(), "100");
    assert_eq!(get_header(&headers, "X-RateLimit-Remaining").unwrap(), "0");
    assert_eq!(get_header(&headers, "Retry-After").unwrap(), "30");
}

#[test]
fn local_limit_results_and_headers() {
    let config = RateLimitConfig { dimension: RateLimitDimension::Ip, requests: 5, window_secs: 60, burst: None };
    let ok = local_check_result(&config, Some(2));
    assert!(ok.allowed);
    assert_eq!(ok.remaining, 2);
    let refused = local_check_result(&config, None);
    assert!(!refused.allowed);
    assert_eq!(refused.limit, 5);
    assert_eq!(refused.remaining, 0);
    assert!(refused.retry_after.is_some());
    let h = rate_limit_exceeded_headers(refused.limit, refused.remaining, refused.reset_after, refused.retry_after);
    assert_eq!(get_header(&h, "x-ratelimit-limit").unwrap(), "5");
    assert_eq!(get_header(&h, "X-RateLimit-Remaining").unwrap(), "0");
    assert_eq!(get_header(&h, "Retry-After").unwrap(), "60");
    let mut resp = hdr(&[("Content-Type", "text/plain"), ("x-ratelimit-limit", "1")]);
    add_rate_limit_headers(&mut resp, 5, -3, 12);
    assert_eq!(resp.len(), 4);
    assert_eq!(get_header(&resp, "X-RateLimit-Limit").unwrap(), "5");
    assert_eq!(get_header(&resp, "X-RateLimit-Remaining").unwrap(), "-3");
    assert_eq!(get_header(&resp, "X-RateLimit-Reset").unwrap(), "12");
    let burst = RateLimitConfig { burst: Some(9), ..config };
    assert_eq!(burst.burst_size(), 9);
    let api = create_rate_limit_key(RateLimitDimension::ApiKey, "1.2.3.4", None, Some("k1"), "/x").unwrap();
    assert_eq!(api.to_redis_key(), "gateway:ratelimit:apikey:k1");
    assert!(create_rate_limit_key(RateLimitDimension::ApiKey, "1.2.3.4", None, None, "/x").is_none());
}

#[test]
fn test_default_cache_config() {
    let config = CacheConfig::default();
    assert!(!config.enabled);
    assert_eq!(config.max_capacity, 1000);
    assert_eq!(config.ttl_secs, 300);
    assert!(config.cacheable_methods.contains(&"GET".to_string()));
}

#[test]
fn test_cache_service_creation() {
    let service = CacheRules::new(CacheConfig::default());
    assert!(service.is_cacheable_method("GET"));
    assert!(service.is_cacheable_method("get"));
    assert!(!service.is_cacheable_method("POST"));
}

#[test]
fn test_cacheable_status_codes() {
    let service = CacheRules::new(CacheConfig::default());
    assert!(service.is_cacheable_status(200));
    assert!(service.is_cacheable_status(301));
    assert!(service.is_cacheable_status(404));
    assert!(!service.is_cacheable_status(500));
}

#[test]
fn test_response_cacheable_with_set_cookie() {
    let service = CacheRules::new(CacheConfig { cache_with_cookies: false, ..Default::default() });
    let headers = hdr(&[("set-cookie", "session=abc")]);
    assert!(!service.is_response_cacheable(&headers));
}

#[test]
fn test_response_cacheable_with_no_store() {
    let service = CacheRules::new(CacheConfig::default());
    let headers = hdr(&[("cache-control", "no-store")]);
    assert!(!service.is_response_cacheable(&headers));
}

#[test]
fn test_response_cacheable_with_private() {
    let service = CacheRules::new(CacheConfig::default());
    let headers = hdr(&[("cache-control", "private")]);
    assert!(!service.is_response_cacheable(&headers));
}

#[test]
fn test_response_cacheable() {
    let service = CacheRules::new(CacheConfig::default());
    let headers = hdr(&[]);
    assert!(service.is_response_cacheable(&headers));
    let headers_with_public = hdr(&[("cache-control", "public, max-age=3600")]);
    assert!(service.is_response_cacheable(&headers_with_public));
}

#[test]
fn cache_control_is_read_without_case() {
    let service = CacheRules::new(CacheConfig::default());
    assert!(!service.is_response_cacheable(&hdr(&[("Cache-Control", "No-Cache")])));
    let cookies_ok = CacheRules::new(CacheConfig { cache_with_cookies: true, ..Default::default() });
    assert!(cookies_ok.is_response_cacheable(&hdr(&[("Set-Cookie", "a=b")])));
}

#[test]
fn test_cache_key_with_headers() {
    let request_headers = hdr(&[("accept-language", "en-US"), ("authorization", "Bearer token")]);
    let key1 = CacheKey::new("GET".to_string(), "/test".to_string(), None, &request_headers, &vec!["Accept-Language".to_string()]);
    let key2 = CacheKey::new("GET".to_string(), "/test".to_string(), None, &request_headers, &vec![]);
    assert_ne!(key1, key2);
    assert_eq!(key1.headers.len(), 1);
    assert_eq!(key2.headers.len(), 0);
}

#[test]
fn cache_key_ignores_header_order() {
    let names = vec!["X-B".to_string(), "X-A".to_string()];
    let h1 = hdr(&[("x-a", "1"), ("x-b", "2"), ("x-c", "3")]);
    let h2 = hdr(&[("x-c", "9"), ("X-B", "2"), ("X-A", "1")]);
    let k1 = CacheKey::new("GET".to_string(), "/p".to_string(), Some("q=1".to_string()), &h1, &names);
    let k2 = CacheKey::new("GET".to_string(), "/p".to_string(), Some("q=1".to_string()), &h2, &names);
    assert_eq!(k1, k2);
    assert_eq!(k1.headers, vec![("X-A".to_string(), "1".to_string()), ("X-B".to_string(), "2".to_string())]);
    let h3 = hdr(&[("x-a", "1"), ("x-b", "3")]);
    let k3 = CacheKey::new("GET".to_string(), "/p".to_string(), Some("q=1".to_string()), &h3, &names);
    assert_ne!(k1, k3);
    let k4 = CacheKey::new("HEAD".to_string(), "/p".to_string(), Some("q=1".to_string()), &h1, &names);
    assert_ne!(k1, k4);
}

#[test]
fn cache_hit_adds_marker_and_keeps_headers() {
    let stored = CachedResponse { status: 200, headers: hdr(&[("Content-Type", "text/plain")]), body: b"hello".to_vec() };
    let h = stored.hit_headers();
    assert_eq!(h, hdr(&[("Content-Type", "text/plain"), ("X-Cache", "HIT")]));
    let rules = CacheRules::new(CacheConfig::default());
    let key = CacheKey::new("GET".to_string(), "/x".to_string(), None, &hdr(&[]), &vec![]);
    assert!(rules.should_store(&key, 200, &stored.headers));
    assert!(!rules.should_store(&key, 500, &stored.headers));
}

#[test]
fn rule_keys_follow_rule_order() {
    let rules = vec![
        RateLimitConfig { dimension: RateLimitDimension::User, requests: 1, window_secs: 1, burst: None },
        RateLimitConfig { dimension: RateLimitDimension::Route, requests: 1, window_secs: 1, burst: None },
        RateLimitConfig { dimension: RateLimitDimension::ApiKey, requests: 1, window_secs: 1, burst: None },
    ];
    let keys = gateway::ratelimit::rule_keys(&rules, "9.9.9.9", None, Some("abc"), "/r");
    assert_eq!(keys.len(), 3);
    assert!(keys[0].is_none());
    assert_eq!(keys[1].as_ref().unwrap().to_redis_key(), "gateway:ratelimit:route:9.9.9.9:/r");
    assert_eq!(keys[2].as_ref().unwrap().to_redis_key(), "gateway:ratelimit:apikey:abc");
}

#[test]
fn cache_key_keeps_non_ascii_values_and_every_cache_control_counts() {
    let names = vec!["X-Lang".to_string()];
    let k1 = CacheKey::new("GET".to_string(), "/p".to_string(), None, &hdr(&[("x-lang", "é")]), &names);
    let k2 = CacheKey::new("GET".to_string(), "/p".to_string(), None, &hdr(&[("x-lang", "è")]), &names);
    assert_ne!(k1, k2);
    let rules = CacheRules::new(CacheConfig::default());
    assert!(!rules.is_response_cacheable(&hdr(&[("cache-control", "public"), ("Cache-Control", "no-store")])));
    assert!(!rules.is_response_cacheable(&hdr(&[("cache-control", "über, PRIVATE")])));
}

#[test]
fn cache_hit_response_copies_status_body_and_headers() {
    let stored = CachedResponse { status: 404, headers: hdr(&[("A", "1")]), body: b"gone".to_vec() };
    let served = stored.hit_response();
    assert_eq!(served.status, 404);
    assert_eq!(served.body, b"gone".to_vec());
    assert_eq!(served.headers, hdr(&[("A", "1"), ("X-Cache", "HIT")]));
}
