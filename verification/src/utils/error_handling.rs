//! Translation of upstream error texts into what a client is shown.

use crate::models::schemas::{opt_view, ErrorDetail, ErrorResponse};
use crate::utils::auth::{prefix, prefix_of, TOKEN_PREFIX_LEN};
use crate::utils::pattern::{
    regex_capture_first, regex_first_group, regex_replace_all, regex_replaced,
};
use crate::utils::text::{
    append_str, chars_of, contains, copy_range, decimal, lowercase_of,
    push_decimal, str_contains, string_of, to_lowercase,
};
use vstd::prelude::*;

verus! {

/// The known upstream errors: a phrase, and the message shown for a text
/// that holds it. Earlier entries take precedence.
pub open spec fn error_mappings() -> Seq<(Seq<char>, Seq<char>)> {
    seq![
        ("invalid api key"@, "API key is invalid or expired"@),
        ("quota exceeded"@, "API quota has been exceeded"@),
        ("rate limit"@, "Rate limit exceeded, please try again later"@),
        ("safety"@, "Content was blocked due to safety policies"@),
        ("blocked"@, "Content was blocked by content filter"@),
        ("recitation"@, "Content may contain copyrighted material"@),
        ("model not found"@, "The specified model is not available"@),
        ("unsupported"@, "This operation is not supported"@),
        ("invalid request"@, "Invalid request format or parameters"@),
        ("token limit"@, "Request exceeds maximum token limit"@),
        ("timeout"@, "Request timed out, please try again"@),
        ("internal error"@, "Internal server error occurred"@),
        ("service unavailable"@, "Service is temporarily unavailable"@),
        ("bad gateway"@, "Gateway error, please try again"@),
    ]
}

/// The views of a list of pairs of strings.
pub open spec fn pair_views(v: Seq<(String, String)>) -> Seq<(Seq<char>, Seq<char>)> {
    v.map_values(|p: (String, String)| (p.0@, p.1@))
}

/// The table of known upstream errors.
pub fn create_error_mappings() -> (r: Vec<(String, String)>)
    ensures
        pair_views(r@) == error_mappings(),
{
    let mut r: Vec<(String, String)> = Vec::new();
    r.push(("invalid api key".to_string(), "API key is invalid or expired".to_string()));
    r.push(("quota exceeded".to_string(), "API quota has been exceeded".to_string()));
    r.push(("rate limit".to_string(), "Rate limit exceeded, please try again later".to_string()));
    r.push(("safety".to_string(), "Content was blocked due to safety policies".to_string()));
    r.push(("blocked".to_string(), "Content was blocked by content filter".to_string()));
    r.push(("recitation".to_string(), "Content may contain copyrighted material".to_string()));
    r.push(("model not found".to_string(), "The specified model is not available".to_string()));
    r.push(("unsupported".to_string(), "This operation is not supported".to_string()));
    r.push(("invalid request".to_string(), "Invalid request format or parameters".to_string()));
    r.push(("token limit".to_string(), "Request exceeds maximum token limit".to_string()));
    r.push(("timeout".to_string(), "Request timed out, please try again".to_string()));
    r.push(("internal error".to_string(), "Internal server error occurred".to_string()));
    r.push(("service unavailable".to_string(), "Service is temporarily unavailable".to_string()));
    r.push(("bad gateway".to_string(), "Gateway error, please try again".to_string()));
    proof {
        assert(pair_views(r@) =~= error_mappings());
    }
    r
}

/// The patterns of what must not be shown: named keys, bearer tokens, named
/// tokens, and any word of 32 or more characters.
pub open spec fn sensitive_patterns() -> Seq<Seq<char>> {
    seq!["API_KEY_\\w+"@, "Bearer \\w+"@, "token_\\w+"@, "\\b\\w{32,}\\b"@]
}

/// `text` with every match of `pattern` redacted; `text` itself when the
/// pattern is not a regular expression.
pub open spec fn redact_with(text: Seq<char>, pattern: Seq<char>) -> Seq<char> {
    match regex_replaced(pattern, text, "[REDACTED]"@) {
        Some(t) => t,
        None => text,
    }
}

/// `text` with every sensitive pattern redacted, one pattern after another.
pub open spec fn redacted(text: Seq<char>) -> Seq<char> {
    redact_with(
        redact_with(
            redact_with(redact_with(text, sensitive_patterns()[0]), sensitive_patterns()[1]),
            sensitive_patterns()[2],
        ),
        sensitive_patterns()[3],
    )
}

/// The longest message that is shown in full, in characters.
pub const MAX_MESSAGE_LEN: usize = 200;

/// `text` cut to 197 characters and an ellipsis if it is longer than 200.
pub open spec fn shortened(text: Seq<char>) -> Seq<char> {
    if text.len() > MAX_MESSAGE_LEN {
        text.take(MAX_MESSAGE_LEN - 3) + "..."@
    } else {
        text
    }
}

/// A message with what is sensitive redacted, cut to length.
pub open spec fn sanitized_message(message: Seq<char>) -> Seq<char> {
    shortened(redacted(message))
}

fn redact(text: String, pattern: &str) -> (r: String)
    ensures
        r@ == redact_with(text@, pattern@),
{
    match regex_replace_all(pattern, text.as_str(), "[REDACTED]") {
        Some(t) => t,
        None => text,
    }
}

/// Redacts what is sensitive in a message and cuts it to length.
pub fn sanitize_error_message(message: &str) -> (r: String)
    ensures
        r@ == sanitized_message(message@),
{
    let a = redact(message.to_string(), "API_KEY_\\w+");
    let b = redact(a, "Bearer \\w+");
    let c = redact(b, "token_\\w+");
    let d = redact(c, "\\b\\w{32,}\\b");
    let v = chars_of(d.as_str());
    if v.len() > MAX_MESSAGE_LEN {
        let mut out = copy_range(v.as_slice(), 0, MAX_MESSAGE_LEN - 3);
        append_str(&mut out, "...");
        string_of(out.as_slice())
    } else {
        d
    }
}

/// The position of the first known error at or after `from` whose phrase, in
/// lowercase, is part of `lower`; the length of the table if there is none.
pub open spec fn first_known(lower: Seq<char>, from: int) -> int
    decreases error_mappings().len() - from,
{
    if from < 0 || from >= error_mappings().len() {
        error_mappings().len() as int
    } else if contains(lower, lowercase_of(error_mappings()[from].0)) {
        from
    } else {
        first_known(lower, from + 1)
    }
}

/// What a client is shown for an upstream error text: the message of the
/// first known error whose phrase the text holds, whatever the case of its
/// letters; else the text itself, sanitized.
pub open spec fn translated(message: Seq<char>) -> Seq<char> {
    let i = first_known(lowercase_of(message), 0);
    if i < error_mappings().len() {
        error_mappings()[i].1
    } else {
        sanitized_message(message)
    }
}

/// Translates an upstream error text into what a client is shown.
pub fn translate_error(error_message: &str) -> (r: String)
    ensures
        r@ == translated(error_message@),
{
    let mappings = create_error_mappings();
    let lower = to_lowercase(error_message);
    let mut i: usize = 0;
    while i < mappings.len()
        invariant
            i <= mappings.len(),
            pair_views(mappings@) == error_mappings(),
            lower@ == lowercase_of(error_message@),
            first_known(lower@, 0) == first_known(lower@, i as int),
        decreases mappings.len() - i,
    {
        let phrase = to_lowercase(mappings[i].0.as_str());
        proof {
            assert(pair_views(mappings@)[i as int] == (mappings@[i as int].0@, mappings@[i as int].1@));
        }
        if str_contains(lower.as_str(), phrase.as_str()) {
            return mappings[i].1.clone();
        }
        i += 1;
    }
    sanitize_error_message(error_message)
}

/// The phrases that mark an error as worth a retry.
pub open spec fn retryable_patterns() -> Seq<Seq<char>> {
    seq![
        "timeout"@,
        "connection"@,
        "network"@,
        "temporary"@,
        "try again"@,
        "rate limit"@,
        "503"@,
        "502"@,
        "500"@,
    ]
}

/// Whether an error text, in lowercase, holds a phrase that marks it as
/// worth a retry.
pub open spec fn retryable(message: Seq<char>) -> bool {
    exists|i: int|
        0 <= i < retryable_patterns().len() && contains(
            lowercase_of(message),
            #[trigger] retryable_patterns()[i],
        )
}

/// Whether an upstream error is worth a retry.
pub fn is_retryable_error(error_message: &str) -> (r: bool)
    ensures
        r == retryable(error_message@),
{
    let lower = to_lowercase(error_message);
    let text = lower.as_str();
    let r = str_contains(text, "timeout") || str_contains(text, "connection") || str_contains(
        text,
        "network",
    ) || str_contains(text, "temporary") || str_contains(text, "try again") || str_contains(
        text,
        "rate limit",
    ) || str_contains(text, "503") || str_contains(text, "502") || str_contains(text, "500");
    proof {
        let p = retryable_patterns();
        let l = lowercase_of(error_message@);
        if r {
            let i = if contains(l, p[0]) {
                0int
            } else if contains(l, p[1]) {
                1int
            } else if contains(l, p[2]) {
                2int
            } else if contains(l, p[3]) {
                3int
            } else if contains(l, p[4]) {
                4int
            } else if contains(l, p[5]) {
                5int
            } else if contains(l, p[6]) {
                6int
            } else if contains(l, p[7]) {
                7int
            } else {
                8int
            };
            assert(contains(l, retryable_patterns()[i]));
        }
    }
    r
}

/// The patterns by which a status code is found in an error text, whatever
/// the case of its letters.
pub open spec fn code_patterns() -> Seq<Seq<char>> {
    seq!["(?i)status:?\\s*(\\d{3})"@, "(?i)code:?\\s*(\\d{3})"@, "(?i)error\\s*(\\d{3})"@, "(?i)HTTP\\s*(\\d{3})"@]
}

/// The status code named in an error text: what the first of the patterns
/// that finds one captures.
pub open spec fn error_code_in(message: Seq<char>) -> Option<Seq<char>> {
    if regex_first_group(code_patterns()[0], message) is Some {
        regex_first_group(code_patterns()[0], message)
    } else if regex_first_group(code_patterns()[1], message) is Some {
        regex_first_group(code_patterns()[1], message)
    } else if regex_first_group(code_patterns()[2], message) is Some {
        regex_first_group(code_patterns()[2], message)
    } else {
        regex_first_group(code_patterns()[3], message)
    }
}

/// Finds the status code named in an error text.
pub fn extract_error_code(error_message: &str) -> (r: Option<String>)
    ensures
        opt_view(r) == error_code_in(error_message@),
{
    match regex_capture_first("(?i)status:?\\s*(\\d{3})", error_message) {
        Some(code) => {
            return Some(code);
        },
        None => {},
    }
    match regex_capture_first("(?i)code:?\\s*(\\d{3})", error_message) {
        Some(code) => {
            return Some(code);
        },
        None => {},
    }
    match regex_capture_first("(?i)error\\s*(\\d{3})", error_message) {
        Some(code) => {
            return Some(code);
        },
        None => {},
    }
    regex_capture_first("(?i)HTTP\\s*(\\d{3})", error_message)
}

/// The error type that goes with an upstream status.
pub open spec fn upstream_error_type(status: u16) -> Seq<char> {
    if status == 400 {
        "invalid_request_error"@
    } else if status == 401 {
        "authentication_error"@
    } else if status == 403 {
        "permission_error"@
    } else if status == 404 {
        "not_found_error"@
    } else if status == 429 {
        "rate_limit_error"@
    } else if status == 502 {
        "api_connection_error"@
    } else {
        "api_error"@
    }
}

/// The structured payload for an upstream error: the translated message, the
/// type that goes with the status, and the status as the code.
pub fn create_gemini_error_response(status: u16, message: &str) -> (r: ErrorResponse)
    ensures
        r.error.message@ == translated(message@),
        r.error.error_type@ == upstream_error_type(status),
        opt_view(r.error.code) == Some(decimal(status as nat)),
        r.error.param is None,
{
    let error_type = if status == 400 {
        "invalid_request_error"
    } else if status == 401 {
        "authentication_error"
    } else if status == 403 {
        "permission_error"
    } else if status == 404 {
        "not_found_error"
    } else if status == 429 {
        "rate_limit_error"
    } else if status == 502 {
        "api_connection_error"
    } else {
        "api_error"
    };
    let mut code: Vec<char> = Vec::new();
    push_decimal(status as u64, &mut code);
    ErrorResponse {
        error: ErrorDetail {
            message: translate_error(message),
            error_type: error_type.to_string(),
            code: Some(string_of(code.as_slice())),
            param: None,
        },
    }
}

/// The view of an optional borrowed string.
pub open spec fn extra_view(s: Option<&str>) -> Option<Seq<char>> {
    match s {
        Some(x) => Some(x@),
        None => None,
    }
}

/// The line that reports an error in a context.
pub open spec fn error_line(error: Seq<char>, context: Seq<char>, extra: Option<Seq<char>>) -> Seq<
    char,
> {
    match extra {
        Some(info) => "Error in "@ + context + ": "@ + error + " | Additional info: "@ + info,
        None => "Error in "@ + context + ": "@ + error,
    }
}

/// Composes the line that reports an error in a context; the caller writes
/// it to the log.
pub fn log_error_details(error: &str, context: &str, extra_info: Option<&str>) -> (line: String)
    ensures
        line@ == error_line(error@, context@, extra_view(extra_info)),
{
    let mut out: Vec<char> = Vec::new();
    append_str(&mut out, "Error in ");
    append_str(&mut out, context);
    append_str(&mut out, ": ");
    append_str(&mut out, error);
    match extra_info {
        Some(info) => {
            append_str(&mut out, " | Additional info: ");
            append_str(&mut out, info);
        },
        None => {},
    }
    string_of(out.as_slice())
}

/// Where and for whom an operation failed.
#[derive(Debug, Clone)]
pub struct ErrorContext {
    pub operation: String,
    pub model: Option<String>,
    pub api_key_prefix: Option<String>,
    pub timestamp: u64,
    pub request_id: Option<String>,
}

impl ErrorContext {
    /// The context of an operation that began at `now`.
    pub fn new(operation: &str, now: u64) -> (c: Self)
        ensures
            c.operation@ == operation@,
            c.model is None,
            c.api_key_prefix is None,
            c.timestamp == now,
            c.request_id is None,
    {
        ErrorContext {
            operation: operation.to_string(),
            model: None,
            api_key_prefix: None,
            timestamp: now,
            request_id: None,
        }
    }

    /// The context with the model named.
    pub fn with_model(self, model: &str) -> (c: Self)
        ensures
            opt_view(c.model) == Some(model@),
            c.operation == self.operation,
            c.api_key_prefix == self.api_key_prefix,
            c.timestamp == self.timestamp,
            c.request_id == self.request_id,
    {
        let mut c = self;
        c.model = Some(model.to_string());
        c
    }

    /// The context with the credential named by its first characters.
    pub fn with_api_key(self, api_key: &str) -> (c: Self)
        ensures
            opt_view(c.api_key_prefix) == Some(
                prefix_of(api_key@, TOKEN_PREFIX_LEN as int) + "..."@,
            ),
            c.operation == self.operation,
            c.model == self.model,
            c.timestamp == self.timestamp,
            c.request_id == self.request_id,
    {
        let mut c = self;
        let mut head = prefix(api_key, TOKEN_PREFIX_LEN);
        append_str(&mut head, "...");
        c.api_key_prefix = Some(string_of(head.as_slice()));
        c
    }

    /// The context with the request named.
    pub fn with_request_id(self, request_id: &str) -> (c: Self)
        ensures
            opt_view(c.request_id) == Some(request_id@),
            c.operation == self.operation,
            c.model == self.model,
            c.api_key_prefix == self.api_key_prefix,
            c.timestamp == self.timestamp,
    {
        let mut c = self;
        c.request_id = Some(request_id.to_string());
        c
    }
}

} // verus!
