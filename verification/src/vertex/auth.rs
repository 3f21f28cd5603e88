//! Key checks of the secondary backend.

use crate::config::settings::Settings;
use crate::utils::text::{chars_of, copy_range, matches_at, starts_with, string_of};
use crate::vertex::model_loader::{is_json, is_json_text};
use vstd::prelude::*;

verus! {

/// Whether a key is accepted. Every key is.
pub fn validate_api_key(_api_key: &str) -> (r: bool)
    ensures
        r,
{
    true
}

/// Why no key could be read from a request.
#[derive(Debug, Clone, Copy, PartialEq, Eq, Structural)]
pub enum ApiKeyError {
    /// There is no authorization header.
    Missing,
    /// The header is not a bearer header.
    InvalidFormat,
    /// The key was not accepted.
    Invalid,
}

impl ApiKeyError {
    /// The text of the error.
    pub fn message(&self) -> (r: String)
        ensures
            r@ == (match *self {
                ApiKeyError::Missing => "Missing API key. Please include 'Authorization: Bearer YOUR_API_KEY' header."@,
                ApiKeyError::InvalidFormat => "Invalid API key format. Use 'Authorization: Bearer YOUR_API_KEY'"@,
                ApiKeyError::Invalid => "Invalid API key"@,
            }),
    {
        match self {
            ApiKeyError::Missing => "Missing API key. Please include 'Authorization: Bearer YOUR_API_KEY' header.".to_string(),
            ApiKeyError::InvalidFormat => "Invalid API key format. Use 'Authorization: Bearer YOUR_API_KEY'".to_string(),
            ApiKeyError::Invalid => "Invalid API key".to_string(),
        }
    }
}

/// The key that an authorization header carries.
pub open spec fn api_key_in(authorization: Option<Seq<char>>) -> Result<Seq<char>, ApiKeyError> {
    match authorization {
        None => Err(ApiKeyError::Missing),
        Some(h) => if starts_with(h, "Bearer "@) {
            Ok(h.skip("Bearer "@.len() as int))
        } else {
            Err(ApiKeyError::InvalidFormat)
        },
    }
}

/// The view of an outcome of reading a key.
pub open spec fn key_view(r: Result<String, ApiKeyError>) -> Result<Seq<char>, ApiKeyError> {
    match r {
        Ok(k) => Ok(k@),
        Err(e) => Err(e),
    }
}

/// Reads the key from the value of the authorization header, if the request
/// has one that is text.
pub fn extract_api_key(authorization: Option<&str>) -> (r: Result<String, ApiKeyError>)
    ensures
        key_view(r) == api_key_in(crate::utils::auth::str_view(authorization)),
{
    match authorization {
        None => Err(ApiKeyError::Missing),
        Some(h) => {
            let v = chars_of(h);
            let p = chars_of("Bearer ");
            if !matches_at(v.as_slice(), p.as_slice(), 0) {
                return Err(ApiKeyError::InvalidFormat);
            }
            let rest = copy_range(v.as_slice(), p.len(), v.len());
            let key = string_of(rest.as_slice());
            if !validate_api_key(key.as_str()) {
                return Err(ApiKeyError::Invalid);
            }
            Ok(key)
        },
    }
}

/// What is wrong with the settings of the secondary backend.
#[derive(Debug, Clone, Copy, PartialEq, Eq, Structural)]
pub enum VertexSettingsError {
    /// There is no password to serve as the key.
    ApiKeyNotSet,
    /// The credentials are set and are not JSON.
    CredentialsNotJson,
}

impl VertexSettingsError {
    /// The text of the error.
    pub fn message(&self) -> (r: String)
        ensures
            r@ == (match *self {
                VertexSettingsError::ApiKeyNotSet => "API key is not set. Some functionality may be limited."@,
                VertexSettingsError::CredentialsNotJson => "Google Credentials JSON is not valid JSON. Please check the format."@,
            }),
    {
        match self {
            VertexSettingsError::ApiKeyNotSet => "API key is not set. Some functionality may be limited.".to_string(),
            VertexSettingsError::CredentialsNotJson => "Google Credentials JSON is not valid JSON. Please check the format.".to_string(),
        }
    }
}

/// What is wrong with the settings, if anything: a missing password first,
/// then credentials that are set and are not JSON.
pub open spec fn settings_fault(s: Settings) -> Option<VertexSettingsError> {
    if s.password@.len() == 0 {
        Some(VertexSettingsError::ApiKeyNotSet)
    } else if s.google_credentials_json@.len() > 0 && !is_json(s.google_credentials_json@) {
        Some(VertexSettingsError::CredentialsNotJson)
    } else {
        None
    }
}

/// Checks the settings of the secondary backend.
pub fn validate_vertex_settings(settings: &Settings) -> (r: Result<(), VertexSettingsError>)
    ensures
        r == (match settings_fault(*settings) {
            Some(e) => Err::<(), VertexSettingsError>(e),
            None => Ok(()),
        }),
{
    if settings.password.as_str().is_empty() {
        Err(VertexSettingsError::ApiKeyNotSet)
    } else if !settings.google_credentials_json.as_str().is_empty() && !is_json_text(
        settings.google_credentials_json.as_str(),
    ) {
        Err(VertexSettingsError::CredentialsNotJson)
    } else {
        Ok(())
    }
}

} // verus!
