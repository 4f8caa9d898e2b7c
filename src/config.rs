use vstd::prelude::*;
use vstd::string::*;
use crate::error::GatewayError;
use crate::backend::BackendConfig;
use crate::cache::CacheConfig;
use crate::health::HealthCheckConfig;
use crate::ipfilter::IpFilterConfig;
use crate::ratelimit::RateLimitConfig;
use crate::transform::TransformConfig;

verus! {

/// Listener settings.
pub struct ServerConfig {
    pub host: String,
    pub port: u16,
    pub timeout_secs: u64,
}

/// How a route authenticates callers.
#[derive(PartialEq, Eq, Structural, Clone, Copy, Debug)]
pub enum AuthMethod {
    Jwt,
    ApiKey,
}

/// Authentication requirement of a route.
pub struct RouteAuthConfig {
    pub required: bool,
    pub methods: Vec<AuthMethod>,
}

/// One route: its path pattern, its upstream (a single backend URL or a pool) and its rules.
pub struct RouteConfig {
    pub path: String,
    /// A single upstream; empty when the route names a pool instead.
    pub backend: String,
    /// A pool of upstreams; empty when the route names a single backend.
    pub backends: Vec<BackendConfig>,
    /// Load-balancing strategy of the pool (round-robin when absent).
    pub load_balancer: Option<String>,
    pub health_check: Option<HealthCheckConfig>,
    pub methods: Vec<String>,
    pub strip_prefix: bool,
    pub description: String,
    pub auth: Option<RouteAuthConfig>,
    pub rate_limit: Option<Vec<RateLimitConfig>>,
    pub ip_filter: Option<IpFilterConfig>,
    pub cache: Option<CacheConfig>,
    pub transform: Option<TransformConfig>,
}

pub struct JwtConfig {
    pub secret: Option<String>,
    pub public_key: Option<String>,
    pub algorithm: String,
    pub issuer: Option<String>,
    pub audience: Option<String>,
}

pub struct RedisConfig {
    pub url: String,
    pub prefix: String,
}

pub struct ApiKeyConfig {
    pub header: String,
    /// Known keys and the user each belongs to.
    pub keys: Vec<(String, String)>,
    pub redis: Option<RedisConfig>,
}

pub struct AuthConfig {
    pub jwt: Option<JwtConfig>,
    pub api_key: Option<ApiKeyConfig>,
}

pub struct RateLimitRedisConfig {
    pub url: String,
}

pub struct GlobalRateLimitConfig {
    pub enabled: bool,
    pub global: Vec<RateLimitConfig>,
    pub redis: Option<RateLimitRedisConfig>,
    pub algorithm: String,
}

/// The whole gateway configuration.
pub struct GatewayConfig {
    pub server: ServerConfig,
    pub routes: Vec<RouteConfig>,
    pub auth: Option<AuthConfig>,
    pub rate_limiting: Option<GlobalRateLimitConfig>,
    /// Per-backend circuit breaking; none when absent.
    pub circuit_breaker: Option<crate::circuit::CircuitBreakerConfig>,
}

pub fn default_true() -> (r: bool)
    ensures
        r,
{
    true
}

pub fn default_jwt_algorithm() -> (r: String)
    ensures
        r@ == "HS256"@,
{
    String::from_str("HS256")
}

pub fn default_api_key_header() -> (r: String)
    ensures
        r@ == "X-API-Key"@,
{
    String::from_str("X-API-Key")
}

pub fn default_redis_prefix() -> (r: String)
    ensures
        r@ == "gateway:apikey:"@,
{
    String::from_str("gateway:apikey:")
}

pub fn default_host() -> (r: String)
    ensures
        r@ == "0.0.0.0"@,
{
    String::from_str("0.0.0.0")
}

pub fn default_port() -> (r: u16)
    ensures
        r == 8080,
{
    8080
}

pub fn default_timeout() -> (r: u64)
    ensures
        r == 30,
{
    30
}

pub fn default_rate_limit_algorithm() -> (r: String)
    ensures
        r@ == "sliding_window"@,
{
    String::from_str("sliding_window")
}

impl Default for ServerConfig {
    fn default() -> (r: ServerConfig)
        ensures
            r.host@ == "0.0.0.0"@,
            r.port == 8080,
            r.timeout_secs == 30,
    {
        ServerConfig { host: default_host(), port: default_port(), timeout_secs: default_timeout() }
    }
}

/// The upper-case form of a text, as Unicode case mapping gives it.
pub uninterp spec fn upper_of(s: Seq<char>) -> Seq<char>;

/// The upper-case form of an ASCII character.
pub open spec fn upper_char(c: char) -> char {
    if 'a' <= c && c <= 'z' {
        ((c as u32) - 32) as char
    } else {
        c
    }
}

/// Relies on `str::to_uppercase`: the result depends on the characters alone, and on
/// ASCII text it upper-cases the letters a-z and keeps every other character.
#[verifier::external_body]
pub(crate) fn to_upper_text(s: &str) -> (r: String)
    ensures
        r@ == upper_of(s@),
        crate::router::all_ascii(s@) ==> r@ == s@.map_values(|c: char| upper_char(c)),
{
    s.to_uppercase()
}

pub open spec fn starts_with(s: Seq<char>, prefix: Seq<char>) -> bool {
    prefix.len() <= s.len() && s.subrange(0, prefix.len() as int) == prefix
}

/// Whether `s` begins with `prefix`.
pub fn has_prefix(s: &str, prefix: &str) -> (r: bool)
    ensures
        r == starts_with(s@, prefix@),
{
    let n = s.unicode_len();
    let m = prefix.unicode_len();
    if m > n {
        return false;
    }
    let mut i: usize = 0;
    while i < m
        invariant
            n == s@.len(),
            m == prefix@.len(),
            m <= n,
            i <= m,
            forall|j: int| 0 <= j < i ==> s@[j] == prefix@[j],
        decreases m - i,
    {
        if s.get_char(i) != prefix.get_char(i) {
            assert(s@.subrange(0, m as int)[i as int] != prefix@[i as int]);
            return false;
        }
        i = i + 1;
    }
    assert(s@.subrange(0, m as int) =~= prefix@);
    true
}

/// The methods a route may list.
pub open spec fn known_method(m: Seq<char>) -> bool {
    m == "GET"@ || m == "POST"@ || m == "PUT"@ || m == "DELETE"@ || m == "PATCH"@ || m == "HEAD"@ || m == "OPTIONS"@
}

fn is_known_method(m: &str) -> (r: bool)
    ensures
        r == known_method(m@),
{
    let t = String::from_str(m);
    t == String::from_str("GET") || t == String::from_str("POST") || t == String::from_str("PUT")
        || t == String::from_str("DELETE") || t == String::from_str("PATCH") || t == String::from_str("HEAD")
        || t == String::from_str("OPTIONS")
}

/// Rules that pass: every rule counts at least one request over a window of at least a second.
pub open spec fn limits_ok(ls: Seq<RateLimitConfig>) -> bool {
    forall|i: int| 0 <= i < ls.len() ==> ls[i].requests > 0 && ls[i].window_secs > 0
}

/// Whether a backend URL is an http or https URL.
pub open spec fn http_url(u: Seq<char>) -> bool {
    starts_with(u, "http://"@) || starts_with(u, "https://"@)
}

/// The first failing check of a route, if any: `Some(true)` for a malformed route
/// (empty path; not exactly one of a backend and a pool; a backend URL that is not
/// http(s); an unknown method), `Some(false)` for a bad rate-limit rule.
pub open spec fn route_problem(r: RouteConfig) -> Option<bool> {
    if r.path@.len() == 0 || (r.backend@.len() == 0) == (r.backends@.len() == 0) {
        Some(true)
    } else if r.backend@.len() > 0 && !http_url(r.backend@) {
        Some(true)
    } else if exists|i: int| 0 <= i < r.backends@.len() && !http_url(#[trigger] r.backends@[i].url@) {
        Some(true)
    } else if exists|i: int| 0 <= i < r.methods@.len() && !known_method(upper_of(#[trigger] r.methods@[i]@)) {
        Some(true)
    } else if r.rate_limit matches Some(ls) && !limits_ok(ls@) {
        Some(false)
    } else {
        None
    }
}

/// The first problem over routes `0..n`.
pub open spec fn first_problem(routes: Seq<RouteConfig>, n: int) -> Option<bool>
    decreases n,
{
    if n <= 0 {
        None
    } else {
        match first_problem(routes, n - 1) {
            Some(p) => Some(p),
            None => route_problem(routes[n - 1]),
        }
    }
}

/// The problem validation reports for a configuration: the first failing route's,
/// else `Some(false)` for a bad global rate-limit rule, else none.
pub open spec fn config_problem(c: GatewayConfig) -> Option<bool> {
    match first_problem(c.routes@, c.routes@.len() as int) {
        Some(p) => Some(p),
        None => match c.rate_limiting {
            Some(g) => if limits_ok(g.global@) { None } else { Some(false) },
            None => None,
        },
    }
}

proof fn lemma_first_problem_stays(routes: Seq<RouteConfig>, k: int, n: int)
    requires
        0 <= k <= n,
        first_problem(routes, k) is Some,
    ensures
        first_problem(routes, n) == first_problem(routes, k),
    decreases n - k,
{
    if n > k {
        lemma_first_problem_stays(routes, k, n - 1);
    }
}

fn is_http_url(u: &str) -> (r: bool)
    ensures
        r == http_url(u@),
{
    proof {
        reveal_strlit("http://");
        reveal_strlit("https://");
    }
    has_prefix(u, "http://") || has_prefix(u, "https://")
}

fn check_limits(ls: &Vec<RateLimitConfig>) -> (r: bool)
    ensures
        r == limits_ok(ls@),
{
    let mut i: usize = 0;
    while i < ls.len()
        invariant
            i <= ls@.len(),
            forall|j: int| 0 <= j < i ==> ls@[j].requests > 0 && ls@[j].window_secs > 0,
        decreases ls@.len() - i,
    {
        if ls[i].requests == 0 || ls[i].window_secs == 0 {
            return false;
        }
        i = i + 1;
    }
    true
}

fn check_route(r: &RouteConfig) -> (res: Option<bool>)
    ensures
        res == route_problem(*r),
{
    proof {
        reveal_strlit("http://");
        reveal_strlit("https://");
    }
    if r.path.as_str().unicode_len() == 0 || (r.backend.as_str().unicode_len() == 0) == (r.backends.len() == 0) {
        return Some(true);
    }
    if r.backend.as_str().unicode_len() > 0 && !is_http_url(r.backend.as_str()) {
        return Some(true);
    }
    let mut b: usize = 0;
    while b < r.backends.len()
        invariant
            b <= r.backends@.len(),
            forall|j: int| 0 <= j < b ==> http_url(#[trigger] r.backends@[j].url@),
        decreases r.backends@.len() - b,
    {
        if !is_http_url(r.backends[b].url.as_str()) {
            return Some(true);
        }
        b = b + 1;
    }
    let mut i: usize = 0;
    while i < r.methods.len()
        invariant
            i <= r.methods@.len(),
            forall|j: int| 0 <= j < i ==> known_method(upper_of(#[trigger] r.methods@[j]@)),
        decreases r.methods@.len() - i,
    {
        let up = to_upper_text(r.methods[i].as_str());
        if !is_known_method(up.as_str()) {
            return Some(true);
        }
        i = i + 1;
    }
    match &r.rate_limit {
        Some(ls) => if !check_limits(ls) {
            return Some(false);
        },
        None => {},
    }
    None
}

impl GatewayConfig {
    /// Checks every route, then the global rate limits; the first failure is reported:
    /// a malformed route as `InvalidRoute`, a bad rate-limit rule as `Config`.
    pub fn validate(&self) -> (r: Result<(), GatewayError>)
        ensures
            match config_problem(*self) {
                None => r is Ok,
                Some(true) => r matches Err(e) && e is InvalidRoute,
                Some(false) => r matches Err(e) && e is Config,
            },
    {
        let mut i: usize = 0;
        while i < self.routes.len()
            invariant
                i <= self.routes@.len(),
                first_problem(self.routes@, i as int) is None,
            decreases self.routes@.len() - i,
        {
            let p = check_route(&self.routes[i]);
            proof {
                if p is Some {
                    lemma_first_problem_stays(self.routes@, i + 1, self.routes@.len() as int);
                }
            }
            match p {
                Some(true) => {
                    return Err(GatewayError::InvalidRoute(String::from_str("route path, backend URL or method is invalid")));
                },
                Some(false) => {
                    return Err(GatewayError::Config(String::from_str("rate limit requests and window must be > 0")));
                },
                None => {},
            }
            i = i + 1;
        }
        match &self.rate_limiting {
            Some(g) => if !check_limits(&g.global) {
                return Err(GatewayError::Config(String::from_str("Global rate limit requests and window must be > 0")));
            },
            None => {},
        }
        Ok(())
    }

    /// A configuration with default server settings and nothing else.
    pub fn default_config() -> (r: GatewayConfig)
        ensures
            r.server.host@ == "0.0.0.0"@,
            r.server.port == 8080,
            r.server.timeout_secs == 30,
            r.routes@.len() == 0,
            r.auth is None,
            r.rate_limiting is None,
            r.circuit_breaker is None,
    {
        GatewayConfig { server: ServerConfig::default(), routes: Vec::new(), auth: None, rate_limiting: None, circuit_breaker: None }
    }
}

} // verus!
