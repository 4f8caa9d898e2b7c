use vstd::prelude::*;
use vstd::string::*;
use crate::config::{ApiKeyConfig, AuthMethod};
use crate::error::GatewayError;
use crate::headers::{first_value, get_header, header_pairs, HeaderList};

verus! {

/// What the authenticator does next.
#[derive(PartialEq, Eq, Structural, Clone, Copy, Debug)]
pub enum AuthAction {
    /// Validate the request's JWT.
    TryJwt,
    /// Validate the request's API key.
    TryApiKey,
    /// The last validator accepted the caller.
    Accept,
    /// No validator found credentials to check.
    RejectMissing,
    /// Every validator that ran refused the credentials.
    RejectInvalid,
}

/// Whether a route allows method `m`: an empty list allows every configured method.
pub open spec fn method_allowed(allowed: Seq<AuthMethod>, m: AuthMethod) -> bool {
    allowed.len() == 0 || allowed.contains(m)
}

/// The next authentication step. Validators run in order, JWT then API key, each only
/// when configured and allowed by the route; `tried` counts the stages done (0, 1 or 2),
/// `failed` says whether a validator refused so far, and `last` is the verdict of the
/// validator that just ran. The first acceptance wins; when none accepts, the request
/// is refused as invalid if some validator ran, else as missing credentials.
pub open spec fn auth_step_spec(allowed: Seq<AuthMethod>, jwt: bool, api_key: bool, tried: u8, failed: bool, last: Option<bool>) -> AuthAction {
    if last == Some(true) {
        AuthAction::Accept
    } else if tried == 0 && jwt && method_allowed(allowed, AuthMethod::Jwt) {
        AuthAction::TryJwt
    } else if tried <= 1 && api_key && method_allowed(allowed, AuthMethod::ApiKey) {
        AuthAction::TryApiKey
    } else if failed || last == Some(false) {
        AuthAction::RejectInvalid
    } else {
        AuthAction::RejectMissing
    }
}

fn allows(allowed: &Vec<AuthMethod>, m: AuthMethod) -> (r: bool)
    ensures
        r == method_allowed(allowed@, m),
{
    if allowed.len() == 0 {
        return true;
    }
    let mut i: usize = 0;
    while i < allowed.len()
        invariant
            i <= allowed@.len(),
            forall|j: int| 0 <= j < i ==> allowed@[j] != m,
        decreases allowed@.len() - i,
    {
        if allowed[i] == m {
            assert(allowed@[i as int] == m);
            return true;
        }
        i = i + 1;
    }
    false
}

pub fn auth_step(allowed: &Vec<AuthMethod>, jwt: bool, api_key: bool, tried: u8, failed: bool, last: Option<bool>) -> (r: AuthAction)
    ensures
        r == auth_step_spec(allowed@, jwt, api_key, tried, failed, last),
{
    let accepted = match last {
        Some(ok) => ok,
        None => false,
    };
    let refused = match last {
        Some(ok) => !ok,
        None => false,
    };
    if accepted {
        AuthAction::Accept
    } else if tried == 0 && jwt && allows(allowed, AuthMethod::Jwt) {
        AuthAction::TryJwt
    } else if tried <= 1 && api_key && allows(allowed, AuthMethod::ApiKey) {
        AuthAction::TryApiKey
    } else if failed || refused {
        AuthAction::RejectInvalid
    } else {
        AuthAction::RejectMissing
    }
}

/// Whether `key` is one of the configured keys.
pub open spec fn key_known(keys: Seq<(String, String)>, key: Seq<char>) -> bool {
    exists|i: int| 0 <= i < keys.len() && keys[i].0@ == key
}

/// The caller an API key identifies (the key itself), or why it is refused: no key
/// header, an empty key, or a key that is not configured.
pub fn validate_api_key(config: &ApiKeyConfig, headers: &HeaderList) -> (r: Result<String, GatewayError>)
    ensures
        match first_value(header_pairs(headers@), config.header@) {
            None => r matches Err(e) && e is MissingCredentials,
            Some(v) => if v.len() > 0 && key_known(config.keys@, v) {
                r matches Ok(u) && u@ == v
            } else {
                r matches Err(e) && e is InvalidApiKey
            },
        },
{
    match get_header(headers, config.header.as_str()) {
        None => Err(GatewayError::MissingCredentials),
        Some(v) => {
            if v.as_str().unicode_len() == 0 {
                return Err(GatewayError::InvalidApiKey);
            }
            let mut i: usize = 0;
            while i < config.keys.len()
                invariant
                    i <= config.keys@.len(),
                    first_value(header_pairs(headers@), config.header@) == Some(v@),
                    v@.len() > 0,
                    forall|j: int| 0 <= j < i ==> config.keys@[j].0@ != v@,
                decreases config.keys@.len() - i,
            {
                if config.keys[i].0 == *v {
                    assert(config.keys@[i as int].0@ == v@);
                    assert(key_known(config.keys@, v@));
                    let u = String::from_str(v.as_str());
                    return Ok(u);
                }
                i = i + 1;
            }
            Err(GatewayError::InvalidApiKey)
        },
    }
}

} // verus!
