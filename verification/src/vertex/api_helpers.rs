//! Error payloads of the secondary backend.

use crate::utils::text::{
    append_str, blank, chars_of, contains, is_blank, lowercase_of, str_contains, string_of,
    to_lowercase,
};
use crate::models::schemas::ChatCompletionChunk;
use crate::utils::response::{is_plain_chunk, plain_chunk};
use vstd::prelude::*;

verus! {

/// A structured error: the HTTP status, which is also the code of the
/// payload, the message and the type.
#[derive(Debug, Clone)]
pub struct OpenAiError {
    pub status_code: u16,
    pub message: String,
    pub error_type: String,
}

/// Whether `e` has the given status, message and type.
pub open spec fn is_error(e: OpenAiError, status: u16, message: Seq<char>, error_type: Seq<char>) -> bool {
    e.status_code == status && e.message@ == message && e.error_type@ == error_type
}

/// A structured error.
pub fn create_openai_error_response(status_code: u16, message: &str, error_type: &str) -> (e:
    OpenAiError)
    ensures
        is_error(e, status_code, message@, error_type@),
{
    OpenAiError {
        status_code,
        message: message.to_string(),
        error_type: error_type.to_string(),
    }
}

/// The error for a request over the rate limit.
pub fn handle_rate_limit_error(_error_message: &str) -> (e: OpenAiError)
    ensures
        is_error(e, 429, "Rate limit exceeded. Please try again later."@, "rate_limit_exceeded"@),
{
    create_openai_error_response(
        429,
        "Rate limit exceeded. Please try again later.",
        "rate_limit_exceeded",
    )
}

/// The error for a failed authentication.
pub fn handle_auth_error(_error_message: &str) -> (e: OpenAiError)
    ensures
        is_error(
            e,
            401,
            "Authentication failed. Please check your API key."@,
            "authentication_error"@,
        ),
{
    create_openai_error_response(
        401,
        "Authentication failed. Please check your API key.",
        "authentication_error",
    )
}

/// The error for an exhausted quota.
pub fn handle_quota_error(_error_message: &str) -> (e: OpenAiError)
    ensures
        is_error(
            e,
            429,
            "Quota exceeded. Please check your billing and usage limits."@,
            "quota_exceeded"@,
        ),
{
    create_openai_error_response(
        429,
        "Quota exceeded. Please check your billing and usage limits.",
        "quota_exceeded",
    )
}

/// The error for a denied permission.
pub fn handle_permission_error(_error_message: &str) -> (e: OpenAiError)
    ensures
        is_error(
            e,
            403,
            "Permission denied. You don't have access to this resource."@,
            "permission_denied"@,
        ),
{
    create_openai_error_response(
        403,
        "Permission denied. You don't have access to this resource.",
        "permission_denied",
    )
}

/// The error for an unknown model.
pub fn handle_model_not_found_error(model_name: &str) -> (e: OpenAiError)
    ensures
        is_error(
            e,
            404,
            "Model '"@ + model_name@ + "' not found. Please check the model name."@,
            "model_not_found"@,
        ),
{
    let mut message: Vec<char> = Vec::new();
    append_str(&mut message, "Model '");
    append_str(&mut message, model_name);
    append_str(&mut message, "' not found. Please check the model name.");
    let text = string_of(message.as_slice());
    create_openai_error_response(404, text.as_str(), "model_not_found")
}

/// The error for a malformed request.
pub fn handle_invalid_request_error(error_message: &str) -> (e: OpenAiError)
    ensures
        is_error(e, 400, "Invalid request: "@ + error_message@, "invalid_request"@),
{
    let mut message: Vec<char> = Vec::new();
    append_str(&mut message, "Invalid request: ");
    append_str(&mut message, error_message);
    let text = string_of(message.as_slice());
    create_openai_error_response(400, text.as_str(), "invalid_request")
}

/// The error for an unavailable service.
pub fn handle_service_unavailable_error(_error_message: &str) -> (e: OpenAiError)
    ensures
        is_error(
            e,
            503,
            "Service temporarily unavailable. Please try again later."@,
            "service_unavailable"@,
        ),
{
    create_openai_error_response(
        503,
        "Service temporarily unavailable. Please try again later.",
        "service_unavailable",
    )
}

/// The error for everything else.
pub fn handle_generic_error(_error_message: &str) -> (e: OpenAiError)
    ensures
        is_error(
            e,
            500,
            "An unexpected error occurred. Please try again later."@,
            "internal_error"@,
        ),
{
    create_openai_error_response(
        500,
        "An unexpected error occurred. Please try again later.",
        "internal_error",
    )
}

/// The kinds of error that a text is classified into.
#[derive(Debug, Clone, Copy, PartialEq, Eq, Structural)]
pub enum ErrorClass {
    RateLimit,
    Authentication,
    Quota,
    Permission,
    ModelNotFound,
    InvalidRequest,
    Unavailable,
    Generic,
}

/// The class of an error text, by the first phrase that its lowercase form
/// holds.
pub open spec fn class_of(message: Seq<char>) -> ErrorClass {
    let l = lowercase_of(message);
    if contains(l, "rate limit"@) || contains(l, "too many requests"@) {
        ErrorClass::RateLimit
    } else if contains(l, "authentication"@) || contains(l, "unauthorized"@) {
        ErrorClass::Authentication
    } else if contains(l, "quota"@) || contains(l, "billing"@) {
        ErrorClass::Quota
    } else if contains(l, "permission"@) || contains(l, "forbidden"@) {
        ErrorClass::Permission
    } else if contains(l, "model"@) && contains(l, "not found"@) {
        ErrorClass::ModelNotFound
    } else if contains(l, "invalid"@) || contains(l, "bad request"@) {
        ErrorClass::InvalidRequest
    } else if contains(l, "unavailable"@) || contains(l, "timeout"@) {
        ErrorClass::Unavailable
    } else {
        ErrorClass::Generic
    }
}

/// Classifies an error text.
pub fn classify_error(error_message: &str) -> (c: ErrorClass)
    ensures
        c == class_of(error_message@),
{
    let lower = to_lowercase(error_message);
    let l = lower.as_str();
    if str_contains(l, "rate limit") || str_contains(l, "too many requests") {
        ErrorClass::RateLimit
    } else if str_contains(l, "authentication") || str_contains(l, "unauthorized") {
        ErrorClass::Authentication
    } else if str_contains(l, "quota") || str_contains(l, "billing") {
        ErrorClass::Quota
    } else if str_contains(l, "permission") || str_contains(l, "forbidden") {
        ErrorClass::Permission
    } else if str_contains(l, "model") && str_contains(l, "not found") {
        ErrorClass::ModelNotFound
    } else if str_contains(l, "invalid") || str_contains(l, "bad request") {
        ErrorClass::InvalidRequest
    } else if str_contains(l, "unavailable") || str_contains(l, "timeout") {
        ErrorClass::Unavailable
    } else {
        ErrorClass::Generic
    }
}

/// The status that goes with a class of error.
pub open spec fn class_status(c: ErrorClass) -> u16 {
    match c {
        ErrorClass::RateLimit => 429,
        ErrorClass::Authentication => 401,
        ErrorClass::Quota => 429,
        ErrorClass::Permission => 403,
        ErrorClass::ModelNotFound => 404,
        ErrorClass::InvalidRequest => 400,
        ErrorClass::Unavailable => 503,
        ErrorClass::Generic => 500,
    }
}

/// The type that goes with a class of error.
pub open spec fn class_type(c: ErrorClass) -> Seq<char> {
    match c {
        ErrorClass::RateLimit => "rate_limit_exceeded"@,
        ErrorClass::Authentication => "authentication_error"@,
        ErrorClass::Quota => "quota_exceeded"@,
        ErrorClass::Permission => "permission_denied"@,
        ErrorClass::ModelNotFound => "model_not_found"@,
        ErrorClass::InvalidRequest => "invalid_request"@,
        ErrorClass::Unavailable => "service_unavailable"@,
        ErrorClass::Generic => "internal_error"@,
    }
}

/// Classifies an error text and builds the error for its class.
pub fn classify_and_handle_error(error_message: &str) -> (e: OpenAiError)
    ensures
        e.status_code == class_status(class_of(error_message@)),
        e.error_type@ == class_type(class_of(error_message@)),
        class_of(error_message@) == ErrorClass::InvalidRequest ==> e.message@
            == "Invalid request: "@ + error_message@,
        class_of(error_message@) == ErrorClass::ModelNotFound ==> e.message@
            == "Model '"@ + "unknown"@ + "' not found. Please check the model name."@,
{
    match classify_error(error_message) {
        ErrorClass::RateLimit => handle_rate_limit_error(error_message),
        ErrorClass::Authentication => handle_auth_error(error_message),
        ErrorClass::Quota => handle_quota_error(error_message),
        ErrorClass::Permission => handle_permission_error(error_message),
        ErrorClass::ModelNotFound => handle_model_not_found_error("unknown"),
        ErrorClass::InvalidRequest => handle_invalid_request_error(error_message),
        ErrorClass::Unavailable => handle_service_unavailable_error(error_message),
        ErrorClass::Generic => handle_generic_error(error_message),
    }
}

/// Why the parameters of a request are not accepted.
#[derive(Debug, Clone, Copy, PartialEq, Eq, Structural)]
pub enum ParameterError {
    EmptyModel,
    NoMessages,
    MaxTokensNotPositive,
    TopKNotPositive,
}

impl ParameterError {
    /// The text of the error.
    pub fn message(&self) -> (r: String)
        ensures
            r@ == (match *self {
                ParameterError::EmptyModel => "Model name cannot be empty"@,
                ParameterError::NoMessages => "Messages array cannot be empty"@,
                ParameterError::MaxTokensNotPositive => "max_tokens must be positive"@,
                ParameterError::TopKNotPositive => "top_k must be positive"@,
            }),
    {
        match self {
            ParameterError::EmptyModel => "Model name cannot be empty".to_string(),
            ParameterError::NoMessages => "Messages array cannot be empty".to_string(),
            ParameterError::MaxTokensNotPositive => "max_tokens must be positive".to_string(),
            ParameterError::TopKNotPositive => "top_k must be positive".to_string(),
        }
    }
}

/// The first fault in the countable parameters of a request: a blank model
/// name, no messages, a ceiling of tokens that is not positive, a number of
/// candidates per token that is not positive.
pub open spec fn parameter_fault(
    model: Seq<char>,
    message_count: usize,
    max_tokens: Option<i32>,
    top_k: Option<i32>,
) -> Option<ParameterError> {
    if is_blank(model) {
        Some(ParameterError::EmptyModel)
    } else if message_count == 0 {
        Some(ParameterError::NoMessages)
    } else if max_tokens is Some && max_tokens->0 <= 0 {
        Some(ParameterError::MaxTokensNotPositive)
    } else if top_k is Some && top_k->0 <= 0 {
        Some(ParameterError::TopKNotPositive)
    } else {
        None
    }
}

/// Checks the countable parameters of a request. The sampling parameters are
/// checked where they are read.
pub fn validate_request_parameters(
    model: &str,
    message_count: usize,
    max_tokens: Option<i32>,
    top_k: Option<i32>,
) -> (r: Option<ParameterError>)
    ensures
        r == parameter_fault(model@, message_count, max_tokens, top_k),
{
    let name = chars_of(model);
    if blank(name.as_slice()) {
        return Some(ParameterError::EmptyModel);
    }
    if message_count == 0 {
        return Some(ParameterError::NoMessages);
    }
    match max_tokens {
        Some(n) => {
            if n <= 0 {
                return Some(ParameterError::MaxTokensNotPositive);
            }
        },
        None => {},
    }
    match top_k {
        Some(k) => {
            if k <= 0 {
                return Some(ParameterError::TopKNotPositive);
            }
        },
        None => {},
    }
    None
}

/// A chunk of a streamed completion that carries `content`, empty or not,
/// and the stop reason, if there is one.
pub fn create_streaming_chunk(content: &str, model: &str, finish_reason: Option<&str>, created: u64) -> (chunk:
    ChatCompletionChunk)
    ensures
        is_plain_chunk(
            chunk,
            model@,
            created,
            Some(content@),
            match finish_reason {
                Some(reason) => Some(reason@),
                None => None,
            },
        ),
{
    let reason = match finish_reason {
        Some(r) => Some(r.to_string()),
        None => None,
    };
    plain_chunk(Some(content.to_string()), model, reason, created)
}

/// The last chunk of a streamed completion: no content, stopped normally.
pub fn create_final_streaming_chunk(model: &str, created: u64) -> (chunk: ChatCompletionChunk)
    ensures
        is_plain_chunk(chunk, model@, created, None, Some("stop"@)),
{
    plain_chunk(None, model, Some("stop".to_string()), created)
}

} // verus!
