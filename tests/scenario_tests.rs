use gateway::cache::{CacheConfig, CacheKey, CacheRules, CachedResponse};
use gateway::error::GatewayError;
use gateway::headers::{get_header, HeaderList};
use gateway::pipeline::{Pipeline, PipelineAction, PipelineEvent, Rejection};
use gateway::proxy::{BreakerReport, UpstreamOutcome};
use gateway::ratelimit::{
    create_rate_limit_key, local_check_result, needs_local, rate_limit_exceeded_headers, store_result, store_result_usable,
    RateLimitConfig, RateLimitDimension, RateLimitResult,
};
use governor::{Quota, RateLimiter};
use std::num::NonZeroU32;
use std::time::Duration;

#[test]
fn local_rate_limit_answers_429_on_sixth_request() {
    let rule = RateLimitConfig { dimension: RateLimitDimension::Ip, requests: 5, window_secs: 60, burst: None };
    let n = NonZeroU32::new(rule.burst_size()).unwrap();
    let bucket = RateLimiter::direct(Quota::per_second(n).allow_burst(n)).with_middleware::<governor::middleware::StateInformationMiddleware>();
    let key = create_rate_limit_key(rule.dimension, "10.0.0.7", None, None, "/x").unwrap();
    assert_eq!(key.to_redis_key(), "gateway:ratelimit:ip:10.0.0.7");
    for i in 0..5 {
        let result = local_check_result(&rule, bucket.check().ok().map(|s| s.remaining_burst_capacity()));
        assert!(result.allowed);
        assert_eq!(result.remaining, 4 - i);
    }
    let result = local_check_result(&rule, bucket.check().ok().map(|s| s.remaining_burst_capacity()));
    assert!(!result.allowed);
    let err = GatewayError::RateLimited(key.to_redis_key());
    assert_eq!(err.status_code(), 429);
    let headers = rate_limit_exceeded_headers(result.limit, result.remaining, result.reset_after, result.retry_after);
    assert_eq!(get_header(&headers, "X-RateLimit-Limit").unwrap(), "5");
    assert_eq!(get_header(&headers, "X-RateLimit-Remaining").unwrap(), "0");
    assert!(get_header(&headers, "Retry-After").is_some());
}

#[test]
fn store_replies_map_to_results() {
    let rule = RateLimitConfig { dimension: RateLimitDimension::User, requests: 10, window_secs: 30, burst: None };
    let ok = store_result(&rule, Some(&vec![1, 7, 30])).unwrap();
    assert!(ok.allowed);
    assert_eq!(ok.remaining, 7);
    assert_eq!(ok.reset_after, 30);
    let denied = store_result(&rule, Some(&vec![0, 0, 12])).unwrap();
    assert!(!denied.allowed);
    assert_eq!(denied.retry_after, Some(12));
    assert!(store_result(&rule, None).is_none());
    assert!(store_result(&rule, Some(&vec![1])).is_none());
    assert!(store_result_usable(&ok));
    assert!(store_result_usable(&denied));
    let odd = gateway::ratelimit::RateLimitResult { allowed: false, remaining: 3, limit: 10, reset_after: 1, retry_after: None };
    assert!(!store_result_usable(&odd));
    // an unreachable store leaves the decision to the local limiter
    assert!(needs_local(&store_result(&rule, None)));
    assert!(!needs_local(&Some(denied)));
    assert!(needs_local(&Some(odd)));
    assert_eq!(rule.refill_period_ms(), Some(3000));
}

#[test]
fn pipeline_runs_stages_in_order() {
    let mut p = Pipeline::new();
    let a = p.step(PipelineEvent::Routed { ip_filter: true, auth: false, rules: 2, cache: true });
    assert_eq!(a, PipelineAction::CheckIp);
    assert_eq!(p.step(PipelineEvent::IpChecked(true)), PipelineAction::CheckRule(0));
    // the first rule does not apply to this request
    assert_eq!(p.step(PipelineEvent::RuleChecked(None)), PipelineAction::CheckRule(1));
    let ok = RateLimitResult::allowed(4, 5, 60);
    assert_eq!(p.step(PipelineEvent::RuleChecked(Some(ok))), PipelineAction::LookupCache);
    assert_eq!(p.step(PipelineEvent::CacheChecked(false)), PipelineAction::ChooseBackend);
    assert_eq!(p.step(PipelineEvent::BackendChosen(Some(1))), PipelineAction::AskBreaker(1));
    assert_eq!(p.step(PipelineEvent::BreakerAnswered(true)), PipelineAction::Forward(1));
    assert_eq!(
        p.step(PipelineEvent::UpstreamFinished(UpstreamOutcome::Response(200))),
        PipelineAction::Complete { backend: 1, report: BreakerReport::Success, healthy: true, answered: true, store: true, limit: Some(ok) }
    );
}

#[test]
fn pipeline_rejections() {
    let mut p = Pipeline::new();
    assert_eq!(p.step(PipelineEvent::RouteFailed), PipelineAction::Reject(Rejection::NoRoute));
    let mut p = Pipeline::new();
    p.step(PipelineEvent::Routed { ip_filter: true, auth: true, rules: 0, cache: false });
    assert_eq!(p.step(PipelineEvent::IpChecked(false)), PipelineAction::Reject(Rejection::Forbidden));
    let mut p = Pipeline::new();
    assert_eq!(p.step(PipelineEvent::Routed { ip_filter: false, auth: true, rules: 0, cache: false }), PipelineAction::Authenticate);
    assert_eq!(p.step(PipelineEvent::Authenticated(false)), PipelineAction::Reject(Rejection::Unauthorized));
    let mut p = Pipeline::new();
    p.step(PipelineEvent::Routed { ip_filter: false, auth: false, rules: 1, cache: false });
    let refused = RateLimitResult::denied(5, 60);
    assert_eq!(p.step(PipelineEvent::RuleChecked(Some(refused))), PipelineAction::Reject(Rejection::RateLimited(refused)));
    let mut p = Pipeline::new();
    p.step(PipelineEvent::Routed { ip_filter: false, auth: false, rules: 0, cache: false });
    assert_eq!(p.step(PipelineEvent::BackendChosen(None)), PipelineAction::Reject(Rejection::NoHealthyBackend));
    let mut p = Pipeline::new();
    p.step(PipelineEvent::Routed { ip_filter: false, auth: false, rules: 0, cache: false });
    p.step(PipelineEvent::BackendChosen(Some(0)));
    assert_eq!(p.step(PipelineEvent::BreakerAnswered(false)), PipelineAction::Reject(Rejection::CircuitOpen));
    let mut p = Pipeline::new();
    assert_eq!(p.step(PipelineEvent::IpChecked(true)), PipelineAction::Reject(Rejection::OutOfOrder));
}

#[test]
fn pipeline_cache_hit_skips_upstream_and_timeouts_report() {
    let mut p = Pipeline::new();
    assert_eq!(p.step(PipelineEvent::Routed { ip_filter: false, auth: false, rules: 0, cache: true }), PipelineAction::LookupCache);
    assert_eq!(p.step(PipelineEvent::CacheChecked(true)), PipelineAction::ServeCached { limit: None });
    let mut p = Pipeline::new();
    p.step(PipelineEvent::Routed { ip_filter: false, auth: false, rules: 0, cache: true });
    p.step(PipelineEvent::CacheChecked(false));
    p.step(PipelineEvent::BackendChosen(Some(0)));
    p.step(PipelineEvent::BreakerAnswered(true));
    assert_eq!(
        p.step(PipelineEvent::UpstreamFinished(UpstreamOutcome::Timeout)),
        PipelineAction::Complete { backend: 0, report: BreakerReport::Timeout, healthy: false, answered: false, store: false, limit: None }
    );
}

#[test]
fn second_get_is_served_from_cache() {
    let rules = CacheRules::new(CacheConfig { enabled: true, ttl_secs: 300, ..Default::default() });
    let store: moka::future::Cache<CacheKey, CachedResponse> =
        moka::future::Cache::builder().max_capacity(1000).time_to_live(Duration::from_secs(300)).build();
    let no_headers: HeaderList = vec![];
    let key = CacheKey::new("GET".to_string(), "/x".to_string(), None, &no_headers, rules.key_headers());
    let upstream_calls = std::cell::Cell::new(0);
    let runtime = tokio::runtime::Builder::new_current_thread().enable_all().build().unwrap();
    runtime.block_on(async {
        // first request: a miss, answered by the upstream and stored
        assert!(store.get(&key).await.is_none());
        upstream_calls.set(upstream_calls.get() + 1);
        let answer = CachedResponse { status: 200, headers: vec![("Content-Type".to_string(), "text/plain".to_string())], body: b"x-body".to_vec() };
        assert!(get_header(&answer.headers, "X-Cache").is_none());
        if rules.should_store(&key, answer.status, &answer.headers) {
            store.insert(key.clone(), answer.clone()).await;
        }
        // second request within the time to live: a hit, marked as such
        let again = CacheKey::new("GET".to_string(), "/x".to_string(), None, &no_headers, rules.key_headers());
        let hit = store.get(&again).await.expect("cached");
        assert_eq!(hit.status, 200);
        assert_eq!(hit.body, b"x-body".to_vec());
        assert_eq!(get_header(&hit.hit_headers(), "X-Cache").unwrap(), "HIT");
    });
    assert_eq!(upstream_calls.get(), 1);
}
