use vstd::prelude::*;
use vstd::string::*;
use crate::circuit::duration_of_secs;
use crate::headers::{decimal, header_pairs, set_header, signed_decimal, u64_text, i64_text, without_header, HeaderList};

verus! {

/// What a rate-limit rule counts requests by.
#[derive(PartialEq, Eq, Structural, Clone, Copy, Debug)]
pub enum RateLimitDimension {
    Ip,
    User,
    ApiKey,
    Route,
}

/// One rate-limit rule: at most `requests` per `window_secs` seconds per key.
#[derive(Clone, Copy, Debug)]
pub struct RateLimitConfig {
    pub dimension: RateLimitDimension,
    pub requests: u32,
    pub window_secs: u64,
    pub burst: Option<u32>,
}

impl RateLimitConfig {
    pub fn window(&self) -> (r: core::time::Duration)
        ensures
            r == duration_of_secs(self.window_secs),
    {
        core::time::Duration::from_secs(self.window_secs)
    }

    /// Bucket capacity: the configured burst, else the request count.
    pub fn burst_size(&self) -> (r: u32)
        ensures
            r == match self.burst {
                Some(b) => b,
                None => self.requests,
            },
    {
        match self.burst {
            Some(b) => b,
            None => self.requests,
        }
    }
}

/// Milliseconds between two token refills of a rule's local bucket: the window spread
/// over the request count (refill rate `requests / window`), at least one; `None` for a
/// rule that counts no request.
pub open spec fn refill_period_spec(config: RateLimitConfig) -> Option<u64> {
    if config.requests == 0 {
        None
    } else {
        let p = (config.window_secs as int * 1000) / (config.requests as int);
        Some(if p < 1 { 1u64 } else if p > u64::MAX { u64::MAX } else { p as u64 })
    }
}

impl RateLimitConfig {
    pub fn refill_period_ms(&self) -> (r: Option<u64>)
        ensures
            r == refill_period_spec(*self),
    {
        if self.requests == 0 {
            return None;
        }
        let p: u128 = (self.window_secs as u128 * 1000) / (self.requests as u128);
        if p < 1 {
            Some(1)
        } else if p > u64::MAX as u128 {
            Some(u64::MAX)
        } else {
            Some(p as u64)
        }
    }
}

/// Outcome of one admission check.
#[derive(Clone, Copy, Debug, PartialEq, Eq, Structural)]
pub struct RateLimitResult {
    pub allowed: bool,
    pub remaining: i64,
    pub limit: u32,
    pub reset_after: u64,
    pub retry_after: Option<u64>,
}

impl RateLimitResult {
    pub fn allowed(remaining: i64, limit: u32, reset_after: u64) -> (r: RateLimitResult)
        ensures
            r == (RateLimitResult { allowed: true, remaining, limit, reset_after, retry_after: None }),
    {
        RateLimitResult { allowed: true, remaining, limit, reset_after, retry_after: None }
    }

    pub fn denied(limit: u32, retry_after: u64) -> (r: RateLimitResult)
        ensures
            r == (RateLimitResult { allowed: false, remaining: 0, limit, reset_after: retry_after, retry_after: Some(retry_after) }),
    {
        RateLimitResult { allowed: false, remaining: 0, limit, reset_after: retry_after, retry_after: Some(retry_after) }
    }
}

/// The result the local limiter reports for rule `config` once its token bucket has
/// decided: `Some(n)` when it admitted the request with `n` tokens left, `None` when it
/// refused it.
pub open spec fn local_result_spec(config: RateLimitConfig, outcome: Option<u32>) -> RateLimitResult {
    match outcome {
        Some(n) => RateLimitResult {
            allowed: true,
            remaining: n as i64,
            limit: config.requests,
            reset_after: config.window_secs,
            retry_after: None,
        },
        None => RateLimitResult {
            allowed: false,
            remaining: 0,
            limit: config.requests,
            reset_after: config.window_secs,
            retry_after: Some(config.window_secs),
        },
    }
}

pub fn local_check_result(config: &RateLimitConfig, outcome: Option<u32>) -> (r: RateLimitResult)
    ensures
        r == local_result_spec(*config, outcome),
{
    match outcome {
        Some(n) => RateLimitResult::allowed(n as i64, config.requests, config.window_secs),
        None => RateLimitResult::denied(config.requests, config.window_secs),
    }
}

/// Who a rule counts: a dimension, an identifier, and for per-route rules the route.
pub struct RateLimitKey {
    pub dimension: RateLimitDimension,
    pub identifier: String,
    pub route: Option<String>,
}

pub open spec fn dimension_name(d: RateLimitDimension) -> Seq<char> {
    match d {
        RateLimitDimension::Ip => "ip"@,
        RateLimitDimension::User => "user"@,
        RateLimitDimension::ApiKey => "apikey"@,
        RateLimitDimension::Route => "route"@,
    }
}

/// The store key of a rate-limit key: `gateway:ratelimit:<dim>:<id>[:<route>]`.
pub open spec fn store_key(d: RateLimitDimension, id: Seq<char>, route: Option<Seq<char>>) -> Seq<char> {
    let base = "gateway:ratelimit:"@ + dimension_name(d) + ":"@ + id;
    match route {
        Some(r) => base + ":"@ + r,
        None => base,
    }
}

impl RateLimitKey {
    pub fn new(dimension: RateLimitDimension, identifier: String) -> (r: RateLimitKey)
        ensures
            r.dimension == dimension,
            r.identifier@ == identifier@,
            r.route is None,
    {
        RateLimitKey { dimension, identifier, route: None }
    }

    pub fn with_route(dimension: RateLimitDimension, identifier: String, route: String) -> (r: RateLimitKey)
        ensures
            r.dimension == dimension,
            r.identifier@ == identifier@,
            r.route matches Some(x) && x@ == route@,
    {
        RateLimitKey { dimension, identifier, route: Some(route) }
    }

    pub open spec fn route_view(&self) -> Option<Seq<char>> {
        match self.route {
            Some(r) => Some(r@),
            None => None,
        }
    }

    pub fn to_redis_key(&self) -> (r: String)
        ensures
            r@ == store_key(self.dimension, self.identifier@, self.route_view()),
    {
        let dim = match self.dimension {
            RateLimitDimension::Ip => "ip",
            RateLimitDimension::User => "user",
            RateLimitDimension::ApiKey => "apikey",
            RateLimitDimension::Route => "route",
        };
        let base = String::from_str("gateway:ratelimit:").concat(dim).concat(":").concat(self.identifier.as_str());
        match &self.route {
            Some(route) => base.concat(":").concat(route.as_str()),
            None => base,
        }
    }
}

/// The (dimension, identifier, route) of the key a rule applies to for one request, or
/// `None` when the rule's identifier is unavailable (no authenticated user, no API key).
pub open spec fn rule_key(dimension: RateLimitDimension, client_ip: Seq<char>, user_id: Option<Seq<char>>, api_key: Option<Seq<char>>, path: Seq<char>) -> Option<(RateLimitDimension, Seq<char>, Option<Seq<char>>)> {
    match dimension {
        RateLimitDimension::Ip => Some((dimension, client_ip, None)),
        RateLimitDimension::User => match user_id {
            Some(u) => Some((dimension, u, None)),
            None => None,
        },
        RateLimitDimension::ApiKey => match api_key {
            Some(a) => Some((dimension, a, None)),
            None => None,
        },
        RateLimitDimension::Route => Some((dimension, client_ip, Some(path))),
    }
}

pub open spec fn opt_view(s: Option<&str>) -> Option<Seq<char>> {
    match s {
        Some(x) => Some(x@),
        None => None,
    }
}

impl RateLimitKey {
    pub open spec fn key_view(&self) -> (RateLimitDimension, Seq<char>, Option<Seq<char>>) {
        (self.dimension, self.identifier@, self.route_view())
    }
}

pub open spec fn key_option_view(k: Option<RateLimitKey>) -> Option<(RateLimitDimension, Seq<char>, Option<Seq<char>>)> {
    match k {
        Some(x) => Some(x.key_view()),
        None => None,
    }
}

/// The key a rule applies to for one request.
pub fn create_rate_limit_key(dimension: RateLimitDimension, client_ip: &str, user_id: Option<&str>, api_key: Option<&str>, path: &str) -> (r: Option<RateLimitKey>)
    ensures
        key_option_view(r) == rule_key(dimension, client_ip@, opt_view(user_id), opt_view(api_key), path@),
{
    match dimension {
        RateLimitDimension::Ip => Some(RateLimitKey::new(RateLimitDimension::Ip, String::from_str(client_ip))),
        RateLimitDimension::User => match user_id {
            Some(id) => Some(RateLimitKey::new(RateLimitDimension::User, String::from_str(id))),
            None => None,
        },
        RateLimitDimension::ApiKey => match api_key {
            Some(key) => Some(RateLimitKey::new(RateLimitDimension::ApiKey, String::from_str(key))),
            None => None,
        },
        RateLimitDimension::Route => Some(RateLimitKey::with_route(
            RateLimitDimension::Route,
            String::from_str(client_ip),
            String::from_str(path),
        )),
    }
}

/// The keys of a request under each rule, in rule order; rules whose identifier is
/// unavailable are skipped (`None`).
pub fn rule_keys(rules: &Vec<RateLimitConfig>, client_ip: &str, user_id: Option<&str>, api_key: Option<&str>, path: &str) -> (r: Vec<Option<RateLimitKey>>)
    ensures
        r@.len() == rules@.len(),
        forall|i: int| 0 <= i < rules@.len() ==> key_option_view(#[trigger] r@[i])
            == rule_key(rules@[i].dimension, client_ip@, opt_view(user_id), opt_view(api_key), path@),
{
    let mut keys: Vec<Option<RateLimitKey>> = Vec::new();
    let mut i: usize = 0;
    while i < rules.len()
        invariant
            i <= rules@.len(),
            keys@.len() == i,
            forall|j: int| 0 <= j < i ==> key_option_view(#[trigger] keys@[j])
                == rule_key(rules@[j].dimension, client_ip@, opt_view(user_id), opt_view(api_key), path@),
        decreases rules@.len() - i,
    {
        keys.push(create_rate_limit_key(rules[i].dimension, client_ip, user_id, api_key, path));
        i = i + 1;
    }
    keys
}

/// Sets the three rate-limit headers on a response's header list.
pub fn add_rate_limit_headers(headers: &mut HeaderList, limit: u32, remaining: i64, reset_after: u64)
    ensures
        header_pairs(final(headers)@) == without_header(
            without_header(
                without_header(header_pairs(old(headers)@), "X-RateLimit-Limit"@).push(("X-RateLimit-Limit"@, decimal(limit as nat))),
                "X-RateLimit-Remaining"@,
            ).push(("X-RateLimit-Remaining"@, signed_decimal(remaining as int))),
            "X-RateLimit-Reset"@,
        ).push(("X-RateLimit-Reset"@, decimal(reset_after as nat))),
{
    let l = u64_text(limit as u64);
    set_header(headers, "X-RateLimit-Limit", l.as_str());
    let rem = i64_text(remaining);
    set_header(headers, "X-RateLimit-Remaining", rem.as_str());
    let reset = u64_text(reset_after);
    set_header(headers, "X-RateLimit-Reset", reset.as_str());
}

/// Headers of a 429 answer: the three rate-limit headers, and `Retry-After` when known.
pub fn rate_limit_exceeded_headers(limit: u32, remaining: i64, reset_after: u64, retry_after: Option<u64>) -> (r: HeaderList)
    ensures
        header_pairs(r@) == seq![
            ("X-RateLimit-Limit"@, decimal(limit as nat)),
            ("X-RateLimit-Remaining"@, signed_decimal(remaining as int)),
            ("X-RateLimit-Reset"@, decimal(reset_after as nat)),
        ] + match retry_after {
            Some(s) => seq![("Retry-After"@, decimal(s as nat))],
            None => Seq::empty(),
        },
{
    let mut h: HeaderList = Vec::new();
    h.push((String::from_str("X-RateLimit-Limit"), u64_text(limit as u64)));
    h.push((String::from_str("X-RateLimit-Remaining"), i64_text(remaining)));
    h.push((String::from_str("X-RateLimit-Reset"), u64_text(reset_after)));
    match retry_after {
        Some(s) => {
            h.push((String::from_str("Retry-After"), u64_text(s)));
        },
        None => {},
    }
    assert(header_pairs(h@) =~= seq![
        ("X-RateLimit-Limit"@, decimal(limit as nat)),
        ("X-RateLimit-Remaining"@, signed_decimal(remaining as int)),
        ("X-RateLimit-Reset"@, decimal(reset_after as nat)),
    ] + match retry_after {
        Some(s) => seq![("Retry-After"@, decimal(s as nat))],
        None => Seq::empty(),
    });
    h
}

/// Algorithm a shared-store limiter runs.
#[derive(PartialEq, Eq, Structural, Clone, Copy, Debug)]
pub enum RateLimitAlgorithm {
    TokenBucket,
    SlidingWindow,
    FixedWindow,
}

/// The result of a shared-store check from the store's reply `[allowed, remaining,
/// reset_after]`, or `None` when the call failed or the reply is malformed: the store is
/// then unreachable and the local limiter decides.
pub open spec fn store_result_spec(config: RateLimitConfig, reply: Option<Seq<i64>>) -> Option<RateLimitResult> {
    match reply {
        Some(r) => if r.len() >= 3 {
            if r[0] == 1 {
                Some(RateLimitResult { allowed: true, remaining: r[1], limit: config.requests, reset_after: r[2] as u64, retry_after: None })
            } else {
                Some(RateLimitResult {
                    allowed: false,
                    remaining: 0,
                    limit: config.requests,
                    reset_after: r[2] as u64,
                    retry_after: Some(r[2] as u64),
                })
            }
        } else {
            None
        },
        None => None,
    }
}

pub fn store_result(config: &RateLimitConfig, reply: Option<&Vec<i64>>) -> (r: Option<RateLimitResult>)
    ensures
        r == store_result_spec(*config, match reply {
            Some(v) => Some(v@),
            None => None,
        }),
{
    match reply {
        Some(v) => {
            if v.len() >= 3 {
                if v[0] == 1 {
                    Some(RateLimitResult::allowed(v[1], config.requests, v[2] as u64))
                } else {
                    Some(RateLimitResult::denied(config.requests, v[2] as u64))
                }
            } else {
                None
            }
        },
        None => None,
    }
}

/// Whether the local limiter must decide after the shared store answered `store`
/// (`None`: the call failed): always when the store failed, and when its result is
/// neither an admission nor a denial with nothing remaining.
pub fn needs_local(store: &Option<RateLimitResult>) -> (r: bool)
    ensures
        r == match *store {
            Some(x) => !(x.allowed || x.remaining == 0),
            None => true,
        },
{
    match store {
        Some(x) => !store_result_usable(x),
        None => true,
    }
}

/// Whether a shared-store result is taken as it is; otherwise the local limiter decides.
pub fn store_result_usable(result: &RateLimitResult) -> (r: bool)
    ensures
        r == (result.allowed || result.remaining == 0),
{
    result.allowed || result.remaining == 0
}

} // verus!
