//! Sign-in and token verification for the dashboard.

use crate::config::settings::Settings;
use crate::models::schemas::opt_view;
use crate::utils::auth::{
    authenticate_request, is_authenticated, scope_of, user_id_of, AuthHeaders, AuthQuery,
    AuthScope,
};
use crate::utils::text::str_eq;
use vstd::prelude::*;

verus! {

/// A sign-in attempt.
#[derive(Debug, Clone)]
pub struct LoginRequest {
    pub password: String,
}

/// The answer to a sign-in attempt.
#[derive(Debug, Clone)]
pub struct LoginResponse {
    pub success: bool,
    pub message: String,
    pub token: Option<String>,
}

/// The answer to a token verification.
#[derive(Debug, Clone)]
pub struct VerifyResponse {
    pub valid: bool,
    pub user_id: Option<String>,
    pub scope: String,
}

/// Whether a password signs in: it is the dashboard password or the API
/// password.
pub open spec fn password_accepted(password: Seq<char>, settings: Settings) -> bool {
    password == settings.web_password@ || password == settings.password@
}

/// Answers a sign-in attempt. The token of a successful sign-in is the
/// password itself.
pub fn login(request: LoginRequest, settings: &Settings) -> (r: LoginResponse)
    ensures
        r.success == password_accepted(request.password@, *settings),
        r.success ==> r.message@ == "Login successful"@ && opt_view(r.token) == Some(
            request.password@,
        ),
        !r.success ==> r.message@ == "Invalid password"@ && r.token is None,
{
    if str_eq(request.password.as_str(), settings.web_password.as_str()) || str_eq(
        request.password.as_str(),
        settings.password.as_str(),
    ) {
        LoginResponse {
            success: true,
            message: "Login successful".to_string(),
            token: Some(request.password),
        }
    } else {
        LoginResponse { success: false, message: "Invalid password".to_string(), token: None }
    }
}

/// The name of a scope.
pub open spec fn scope_name(scope: AuthScope) -> Seq<char> {
    match scope {
        AuthScope::Public => "public"@,
        AuthScope::Authenticated => "authenticated"@,
        AuthScope::Admin => "admin"@,
    }
}

/// Verifies the token of a request.
pub fn verify_auth(headers: &AuthHeaders, query: &AuthQuery, settings: &Settings) -> (r:
    VerifyResponse)
    ensures
        r.valid == is_authenticated(*headers, *query, *settings),
        opt_view(r.user_id) == user_id_of(*headers, *query, *settings),
        r.scope@ == scope_name(scope_of(*headers, *query, *settings)),
{
    let auth = authenticate_request(headers, query, settings);
    let scope = match auth.scope {
        AuthScope::Public => "public",
        AuthScope::Authenticated => "authenticated",
        AuthScope::Admin => "admin",
    };
    VerifyResponse { valid: auth.authenticated, user_id: auth.user_id, scope: scope.to_string() }
}

} // verus!
