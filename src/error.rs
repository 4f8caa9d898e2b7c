use vstd::prelude::*;
use vstd::string::*;

verus! {

/// Every failure the gateway can surface to a client.
#[derive(Debug)]
pub enum GatewayError {
    Config(String),
    RouteNotFound(String),
    InvalidRoute(String),
    Proxy(String),
    Backend(String),
    InvalidMethod(String),
    Timeout(String),
    Internal(String),
    Io(String),
    Http(String),
    Serialization(String),
    Unauthorized(String),
    InvalidToken(String),
    MissingCredentials,
    InvalidApiKey,
    Forbidden(String),
    RateLimited(String),
    CircuitBreakerOpen(String),
    NoHealthyBackend(String),
}

/// HTTP status that each error kind is surfaced with.
pub open spec fn status_of(e: GatewayError) -> u16 {
    match e {
        GatewayError::Config(_) => 500,
        GatewayError::RouteNotFound(_) => 404,
        GatewayError::InvalidRoute(_) => 400,
        GatewayError::Proxy(_) => 502,
        GatewayError::Backend(_) => 502,
        GatewayError::InvalidMethod(_) => 405,
        GatewayError::Timeout(_) => 504,
        GatewayError::Internal(_) => 500,
        GatewayError::Io(_) => 500,
        GatewayError::Http(_) => 400,
        GatewayError::Serialization(_) => 500,
        GatewayError::Unauthorized(_) => 401,
        GatewayError::InvalidToken(_) => 401,
        GatewayError::MissingCredentials => 401,
        GatewayError::InvalidApiKey => 401,
        GatewayError::Forbidden(_) => 403,
        GatewayError::RateLimited(_) => 429,
        GatewayError::CircuitBreakerOpen(_) => 503,
        GatewayError::NoHealthyBackend(_) => 503,
    }
}

/// Whether the retry executor may try the upstream call again after this error.
pub open spec fn retryable_spec(e: GatewayError) -> bool {
    match e {
        GatewayError::Timeout(_) | GatewayError::Backend(_) => true,
        _ => false,
    }
}

/// Human-readable text of an error: a fixed prefix per kind, then its detail.
pub open spec fn message_of(e: GatewayError) -> Seq<char> {
    match e {
        GatewayError::Config(s) => "Configuration error: "@ + s@,
        GatewayError::RouteNotFound(s) => "Route not found: "@ + s@,
        GatewayError::InvalidRoute(s) => "Invalid route configuration: "@ + s@,
        GatewayError::Proxy(s) => "Proxy error: "@ + s@,
        GatewayError::Backend(s) => "Backend error: "@ + s@,
        GatewayError::InvalidMethod(s) => "Invalid method: "@ + s@,
        GatewayError::Timeout(s) => "Timeout error: "@ + s@,
        GatewayError::Internal(s) => "Internal server error: "@ + s@,
        GatewayError::Io(s) => "IO error: "@ + s@,
        GatewayError::Http(s) => "HTTP error: "@ + s@,
        GatewayError::Serialization(s) => "Serialization error: "@ + s@,
        GatewayError::Unauthorized(s) => "Authentication failed: "@ + s@,
        GatewayError::InvalidToken(s) => "Invalid JWT token: "@ + s@,
        GatewayError::MissingCredentials => "Missing authentication credentials"@,
        GatewayError::InvalidApiKey => "Invalid API key"@,
        GatewayError::Forbidden(s) => "Forbidden: "@ + s@,
        GatewayError::RateLimited(s) => "Rate limit exceeded: "@ + s@,
        GatewayError::CircuitBreakerOpen(s) => "Circuit breaker open: "@ + s@,
        GatewayError::NoHealthyBackend(s) => "No healthy backend: "@ + s@,
    }
}

fn prefixed(prefix: &str, detail: &String) -> (r: String)
    ensures
        r@ == prefix@ + detail@,
{
    let r = String::from_str(prefix);
    r.concat(detail.as_str())
}

impl GatewayError {
    /// The HTTP status code this error is answered with.
    pub fn status_code(&self) -> (r: u16)
        ensures
            r == status_of(*self),
    {
        match self {
            GatewayError::Config(_) => 500,
            GatewayError::RouteNotFound(_) => 404,
            GatewayError::InvalidRoute(_) => 400,
            GatewayError::Proxy(_) => 502,
            GatewayError::Backend(_) => 502,
            GatewayError::InvalidMethod(_) => 405,
            GatewayError::Timeout(_) => 504,
            GatewayError::Internal(_) => 500,
            GatewayError::Io(_) => 500,
            GatewayError::Http(_) => 400,
            GatewayError::Serialization(_) => 500,
            GatewayError::Unauthorized(_) => 401,
            GatewayError::InvalidToken(_) => 401,
            GatewayError::MissingCredentials => 401,
            GatewayError::InvalidApiKey => 401,
            GatewayError::Forbidden(_) => 403,
            GatewayError::RateLimited(_) => 429,
            GatewayError::CircuitBreakerOpen(_) => 503,
            GatewayError::NoHealthyBackend(_) => 503,
        }
    }

    /// Whether the upstream call may be retried after this error
    /// (timeouts and connection failures only).
    pub fn is_retryable(&self) -> (r: bool)
        ensures
            r == retryable_spec(*self),
    {
        match self {
            GatewayError::Timeout(_) | GatewayError::Backend(_) => true,
            _ => false,
        }
    }

    /// The error's text, as placed in the `"error"` field of a response body.
    pub fn to_string(&self) -> (r: String)
        ensures
            r@ == message_of(*self),
    {
        match self {
            GatewayError::Config(s) => prefixed("Configuration error: ", s),
            GatewayError::RouteNotFound(s) => prefixed("Route not found: ", s),
            GatewayError::InvalidRoute(s) => prefixed("Invalid route configuration: ", s),
            GatewayError::Proxy(s) => prefixed("Proxy error: ", s),
            GatewayError::Backend(s) => prefixed("Backend error: ", s),
            GatewayError::InvalidMethod(s) => prefixed("Invalid method: ", s),
            GatewayError::Timeout(s) => prefixed("Timeout error: ", s),
            GatewayError::Internal(s) => prefixed("Internal server error: ", s),
            GatewayError::Io(s) => prefixed("IO error: ", s),
            GatewayError::Http(s) => prefixed("HTTP error: ", s),
            GatewayError::Serialization(s) => prefixed("Serialization error: ", s),
            GatewayError::Unauthorized(s) => prefixed("Authentication failed: ", s),
            GatewayError::InvalidToken(s) => prefixed("Invalid JWT token: ", s),
            GatewayError::MissingCredentials => String::from_str("Missing authentication credentials"),
            GatewayError::InvalidApiKey => String::from_str("Invalid API key"),
            GatewayError::Forbidden(s) => prefixed("Forbidden: ", s),
            GatewayError::RateLimited(s) => prefixed("Rate limit exceeded: ", s),
            GatewayError::CircuitBreakerOpen(s) => prefixed("Circuit breaker open: ", s),
            GatewayError::NoHealthyBackend(s) => prefixed("No healthy backend: ", s),
        }
    }
}

} // verus!
