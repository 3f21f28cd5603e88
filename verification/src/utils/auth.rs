//! Authentication of inbound requests.
//!
//! The HTTP layer hands over the values of the headers and query parameters
//! that carry a token; a header whose value is not text counts as absent.

use crate::config::settings::{list_contains, valid_api_keys, Settings};
use crate::models::schemas::opt_view;
use crate::utils::text::{
    append_chars, append_str, chars_of, contains, copy_range, lowercase_of, matches_at,
    starts_with, str_contains, str_eq, string_of, to_lowercase, views,
};
use vstd::prelude::*;

verus! {

/// Query parameters that may carry a token.
#[derive(Debug, Clone)]
pub struct AuthQuery {
    pub key: Option<String>,
    pub password: Option<String>,
}

/// Headers that may carry a token.
#[derive(Debug, Clone)]
pub struct AuthHeaders {
    pub authorization: Option<String>,
    pub x_goog_api_key: Option<String>,
    pub x_api_key: Option<String>,
}

/// What a caller may do.
#[derive(Debug, Clone, Copy, PartialEq, Eq, Structural)]
pub enum AuthScope {
    Public,
    Authenticated,
    Admin,
}

/// The outcome of authentication.
#[derive(Debug)]
pub struct AuthResult {
    pub authenticated: bool,
    pub user_id: Option<String>,
    pub scope: AuthScope,
}

/// How many characters of a token appear in a user id.
pub const TOKEN_PREFIX_LEN: usize = 8;

/// The first `n` characters of `s`, or all of `s` if it has no more.
pub open spec fn prefix_of(s: Seq<char>, n: int) -> Seq<char> {
    if s.len() <= n {
        s
    } else {
        s.take(n)
    }
}

/// The first `n` characters of `s`, or all of `s` if it has no more.
pub fn prefix(s: &str, n: usize) -> (r: Vec<char>)
    ensures
        r@ == prefix_of(s@, n as int),
{
    let v = chars_of(s);
    if v.len() <= n {
        v
    } else {
        copy_range(v.as_slice(), 0, n)
    }
}

/// The token that a bearer header carries, if it is one.
pub open spec fn bearer_token(header: Option<Seq<char>>) -> Option<Seq<char>> {
    match header {
        Some(h) => if starts_with(h, "Bearer "@) {
            Some(h.skip("Bearer "@.len() as int))
        } else {
            None
        },
        None => None,
    }
}

/// The token of a request: from the bearer header, else from the provider
/// style header, else from the custom header, else from the query.
pub open spec fn token_of(headers: AuthHeaders, query: AuthQuery) -> Option<Seq<char>> {
    if bearer_token(opt_view(headers.authorization)) is Some {
        bearer_token(opt_view(headers.authorization))
    } else if headers.x_goog_api_key is Some {
        opt_view(headers.x_goog_api_key)
    } else if headers.x_api_key is Some {
        opt_view(headers.x_api_key)
    } else if query.key is Some {
        opt_view(query.key)
    } else {
        opt_view(query.password)
    }
}

/// Finds the token of a request.
pub fn extract_auth_token(headers: &AuthHeaders, query: &AuthQuery) -> (r: Option<String>)
    ensures
        opt_view(r) == token_of(*headers, *query),
{
    match &headers.authorization {
        Some(h) => {
            let v = chars_of(h.as_str());
            let p = chars_of("Bearer ");
            if matches_at(v.as_slice(), p.as_slice(), 0) {
                let rest = copy_range(v.as_slice(), p.len(), v.len());
                return Some(string_of(rest.as_slice()));
            }
        },
        None => {},
    }
    match &headers.x_goog_api_key {
        Some(k) => {
            return Some(k.clone());
        },
        None => {},
    }
    match &headers.x_api_key {
        Some(k) => {
            return Some(k.clone());
        },
        None => {},
    }
    match &query.key {
        Some(k) => {
            return Some(k.clone());
        },
        None => {},
    }
    match &query.password {
        Some(k) => Some(k.clone()),
        None => None,
    }
}

/// Whether `token` opens the gateway: it is one of the two passwords or a
/// configured upstream key that is not on the deny-list.
pub open spec fn token_valid(token: Seq<char>, settings: Settings) -> bool {
    token == settings.password@ || token == settings.web_password@ || valid_api_keys(
        views(settings.gemini_api_keys@),
        views(settings.invalid_api_keys@),
    ).contains(token)
}

/// Checks a token against the settings.
pub fn validate_auth_token(token: &str, settings: &Settings) -> (r: bool)
    ensures
        r == token_valid(token@, *settings),
{
    if str_eq(token, settings.password.as_str()) || str_eq(token, settings.web_password.as_str()) {
        return true;
    }
    let keys = settings.get_valid_api_keys();
    list_contains(&keys, token)
}

/// Whether some entry of the whitelist, in lowercase, is part of `agent` in
/// lowercase.
pub open spec fn agent_listed(agent: Seq<char>, whitelist: Seq<Seq<char>>) -> bool {
    exists|i: int|
        0 <= i < whitelist.len() && contains(
            lowercase_of(agent),
            lowercase_of(#[trigger] whitelist[i]),
        )
}

/// Whether a user agent may pass: always without a whitelist, else only a
/// present agent that matches an entry.
pub open spec fn agent_allowed(agent: Option<Seq<char>>, whitelist: Seq<Seq<char>>) -> bool {
    whitelist.len() == 0 || (agent is Some && agent_listed(agent->0, whitelist))
}

/// The view of an optional borrowed string.
pub open spec fn str_view(s: Option<&str>) -> Option<Seq<char>> {
    match s {
        Some(x) => Some(x@),
        None => None,
    }
}

/// Checks the user agent against the whitelist.
pub fn validate_user_agent(user_agent: Option<&str>, settings: &Settings) -> (r: bool)
    ensures
        r == agent_allowed(str_view(user_agent), views(settings.whitelist_user_agent@)),
{
    if settings.whitelist_user_agent.len() == 0 {
        return true;
    }
    match user_agent {
        Some(ua) => {
            let lower = to_lowercase(ua);
            let list = &settings.whitelist_user_agent;
            let mut i: usize = 0;
            while i < list.len()
                invariant
                    i <= list.len(),
                    user_agent == Some(ua),
                    list@ == settings.whitelist_user_agent@,
                    lower@ == lowercase_of(ua@),
                    forall|k: int|
                        0 <= k < i ==> !contains(
                            lowercase_of(ua@),
                            lowercase_of(#[trigger] views(list@)[k]),
                        ),
                decreases list.len() - i,
            {
                let allowed = to_lowercase(list[i].as_str());
                if str_contains(lower.as_str(), allowed.as_str()) {
                    proof {
                        assert(views(list@)[i as int] == list@[i as int]@);
                        assert(contains(lowercase_of(ua@), lowercase_of(views(list@)[i as int])));
                        assert(agent_listed(ua@, views(list@)));
                    }
                    return true;
                }
                proof {
                    assert(views(list@)[i as int] == list@[i as int]@);
                }
                i += 1;
            }
            false
        },
        None => false,
    }
}

/// Whether the gateway is open to everyone.
pub fn is_public_mode(settings: &Settings) -> (r: bool)
    ensures
        r == settings.public_mode,
{
    settings.public_mode
}

/// Whether `password` is the dashboard password.
pub fn verify_web_password(password: &str, settings: &Settings) -> (r: bool)
    ensures
        r == (password@ == settings.web_password@),
{
    str_eq(password, settings.web_password.as_str())
}

/// Whether a request is let in.
pub open spec fn is_authenticated(headers: AuthHeaders, query: AuthQuery, settings: Settings) -> bool {
    settings.public_mode || (token_of(headers, query) is Some && token_valid(
        token_of(headers, query)->0,
        settings,
    ))
}

/// The scope that a request is given: public in public mode or without a
/// valid token, admin with the dashboard password, authenticated otherwise.
pub open spec fn scope_of(headers: AuthHeaders, query: AuthQuery, settings: Settings) -> AuthScope {
    if settings.public_mode || !is_authenticated(headers, query, settings) {
        AuthScope::Public
    } else if token_of(headers, query)->0 == settings.web_password@ {
        AuthScope::Admin
    } else {
        AuthScope::Authenticated
    }
}

/// The user id that a request is given.
pub open spec fn user_id_of(headers: AuthHeaders, query: AuthQuery, settings: Settings) -> Option<
    Seq<char>,
> {
    if settings.public_mode {
        Some("public"@)
    } else if is_authenticated(headers, query, settings) {
        Some("user_"@ + prefix_of(token_of(headers, query)->0, TOKEN_PREFIX_LEN as int))
    } else {
        None
    }
}

/// Authenticates a request.
pub fn authenticate_request(headers: &AuthHeaders, query: &AuthQuery, settings: &Settings) -> (r:
    AuthResult)
    ensures
        r.authenticated == is_authenticated(*headers, *query, *settings),
        r.scope == scope_of(*headers, *query, *settings),
        opt_view(r.user_id) == user_id_of(*headers, *query, *settings),
{
    if settings.public_mode {
        return AuthResult {
            authenticated: true,
            user_id: Some("public".to_string()),
            scope: AuthScope::Public,
        };
    }
    match extract_auth_token(headers, query) {
        Some(token) => {
            if validate_auth_token(token.as_str(), settings) {
                let scope = if str_eq(token.as_str(), settings.web_password.as_str()) {
                    AuthScope::Admin
                } else {
                    AuthScope::Authenticated
                };
                let mut id: Vec<char> = Vec::new();
                append_str(&mut id, "user_");
                let head = prefix(token.as_str(), TOKEN_PREFIX_LEN);
                append_chars(&mut id, head.as_slice());
                return AuthResult {
                    authenticated: true,
                    user_id: Some(string_of(id.as_slice())),
                    scope,
                };
            }
        },
        None => {},
    }
    AuthResult { authenticated: false, user_id: None, scope: AuthScope::Public }
}

} // verus!
