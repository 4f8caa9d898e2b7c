use vstd::prelude::*;
use vstd::string::*;

verus! {

/// Cross-origin settings of the listener.
pub struct CorsConfig {
    pub allowed_origins: Vec<String>,
    pub allowed_methods: Vec<String>,
    pub allowed_headers: Vec<String>,
    pub exposed_headers: Vec<String>,
    pub allow_credentials: bool,
    pub max_age_secs: u64,
}

pub open spec fn texts(v: Seq<String>) -> Seq<Seq<char>> {
    v.map_values(|s: String| s@)
}

pub fn default_methods() -> (r: Vec<String>)
    ensures
        texts(r@) == seq!["GET"@, "POST"@, "PUT"@, "DELETE"@, "PATCH"@, "OPTIONS"@],
{
    let r = vec![
        String::from_str("GET"),
        String::from_str("POST"),
        String::from_str("PUT"),
        String::from_str("DELETE"),
        String::from_str("PATCH"),
        String::from_str("OPTIONS"),
    ];
    assert(texts(r@) =~= seq!["GET"@, "POST"@, "PUT"@, "DELETE"@, "PATCH"@, "OPTIONS"@]);
    r
}

pub fn default_headers() -> (r: Vec<String>)
    ensures
        texts(r@) == seq!["Content-Type"@, "Authorization"@, "X-API-Key"@],
{
    let r = vec![String::from_str("Content-Type"), String::from_str("Authorization"), String::from_str("X-API-Key")];
    assert(texts(r@) =~= seq!["Content-Type"@, "Authorization"@, "X-API-Key"@]);
    r
}

pub fn default_max_age() -> (r: u64)
    ensures
        r == 3600,
{
    3600
}

impl Default for CorsConfig {
    fn default() -> (r: CorsConfig)
        ensures
            texts(r.allowed_origins@) == seq!["*"@],
            texts(r.allowed_methods@) == seq!["GET"@, "POST"@, "PUT"@, "DELETE"@, "PATCH"@, "OPTIONS"@],
            texts(r.allowed_headers@) == seq!["Content-Type"@, "Authorization"@, "X-API-Key"@],
            r.exposed_headers@.len() == 0,
            !r.allow_credentials,
            r.max_age_secs == 3600,
    {
        let origins = vec![String::from_str("*")];
        assert(texts(origins@) =~= seq!["*"@]);
        CorsConfig {
            allowed_origins: origins,
            allowed_methods: default_methods(),
            allowed_headers: default_headers(),
            exposed_headers: Vec::new(),
            allow_credentials: false,
            max_age_secs: default_max_age(),
        }
    }
}

impl CorsConfig {
    /// Any origin, the common methods, any header, no credentials, cached a day.
    pub fn permissive() -> (r: CorsConfig)
        ensures
            texts(r.allowed_origins@) == seq!["*"@],
            texts(r.allowed_methods@) == seq!["GET"@, "POST"@, "PUT"@, "DELETE"@, "PATCH"@, "OPTIONS"@, "HEAD"@],
            texts(r.allowed_headers@) == seq!["*"@],
            r.exposed_headers@.len() == 0,
            !r.allow_credentials,
            r.max_age_secs == 86400,
    {
        let origins = vec![String::from_str("*")];
        let methods = vec![
            String::from_str("GET"),
            String::from_str("POST"),
            String::from_str("PUT"),
            String::from_str("DELETE"),
            String::from_str("PATCH"),
            String::from_str("OPTIONS"),
            String::from_str("HEAD"),
        ];
        let headers = vec![String::from_str("*")];
        assert(texts(origins@) =~= seq!["*"@]);
        assert(texts(headers@) =~= seq!["*"@]);
        assert(texts(methods@) =~= seq!["GET"@, "POST"@, "PUT"@, "DELETE"@, "PATCH"@, "OPTIONS"@, "HEAD"@]);
        CorsConfig {
            allowed_origins: origins,
            allowed_methods: methods,
            allowed_headers: headers,
            exposed_headers: Vec::new(),
            allow_credentials: false,
            max_age_secs: 86400,
        }
    }

    /// Only the given origins, GET and POST, two headers, with credentials, cached ten minutes.
    pub fn restrictive(origins: Vec<String>) -> (r: CorsConfig)
        ensures
            texts(r.allowed_origins@) == texts(origins@),
            texts(r.allowed_methods@) == seq!["GET"@, "POST"@],
            texts(r.allowed_headers@) == seq!["Content-Type"@, "Authorization"@],
            r.exposed_headers@.len() == 0,
            r.allow_credentials,
            r.max_age_secs == 600,
    {
        let methods = vec![String::from_str("GET"), String::from_str("POST")];
        let headers = vec![String::from_str("Content-Type"), String::from_str("Authorization")];
        assert(texts(methods@) =~= seq!["GET"@, "POST"@]);
        assert(texts(headers@) =~= seq!["Content-Type"@, "Authorization"@]);
        CorsConfig {
            allowed_origins: origins,
            allowed_methods: methods,
            allowed_headers: headers,
            exposed_headers: Vec::new(),
            allow_credentials: true,
            max_age_secs: 600,
        }
    }
}

/// Configuration-file watching settings.
pub struct HotReloadConfig {
    pub enabled: bool,
    pub debounce_ms: u64,
}

pub fn default_debounce_ms() -> (r: u64)
    ensures
        r == 1000,
{
    1000
}

impl Default for HotReloadConfig {
    fn default() -> (r: HotReloadConfig)
        ensures
            !r.enabled,
            r.debounce_ms == 1000,
    {
        HotReloadConfig { enabled: false, debounce_ms: default_debounce_ms() }
    }
}

/// The authentication methods configured for the gateway.
pub struct AuthService {
    pub jwt: Option<crate::config::JwtConfig>,
    pub api_key: Option<crate::config::ApiKeyConfig>,
}

impl AuthService {
    /// The methods the configuration sets up; none without a configuration.
    pub fn new(config: Option<crate::config::AuthConfig>) -> (r: AuthService)
        ensures
            match config {
                Some(c) => r.jwt is Some == c.jwt is Some && r.api_key is Some == c.api_key is Some,
                None => r.jwt is None && r.api_key is None,
            },
    {
        match config {
            Some(c) => AuthService { jwt: c.jwt, api_key: c.api_key },
            None => AuthService { jwt: None, api_key: None },
        }
    }

    /// Whether any authentication method is configured.
    pub fn is_available(&self) -> (r: bool)
        ensures
            r == (self.jwt is Some || self.api_key is Some),
    {
        self.jwt.is_some() || self.api_key.is_some()
    }
}

/// How a caller was authenticated.
#[derive(PartialEq, Eq, Structural, Clone, Copy, Debug)]
pub enum AuthMethodType {
    Jwt,
    ApiKey,
}

} // verus!
