//! Chat handling of the secondary backend.

use crate::models::schemas::{ChatCompletionResponse, Usage};
use crate::services::gemini::fresh_uuid;
use crate::utils::response::{byte_count, is_text_completion, text_completion, token_sum};
use crate::utils::text::{append_str, contains, starts_with, str_contains, string_of};
use crate::vertex::model_loader::ModelConfig;
use crate::vertex::models::{MessageContent, OpenAIMessage};
use crate::vertex::routes::models_api::is_model_available;
use crate::vertex::api_helpers::{create_openai_error_response, is_error, OpenAiError};
use vstd::prelude::*;

verus! {

/// The estimated number of tokens in a text of `bytes` bytes: one for every
/// four bytes, rounded up, held at the largest value.
pub open spec fn estimated_tokens(bytes: nat) -> i32 {
    if (bytes + 3) / 4 > i32::MAX {
        i32::MAX
    } else {
        ((bytes + 3) / 4) as i32
    }
}

/// Estimates the number of tokens in `text` from its length in bytes.
pub fn estimate_tokens(text: &str) -> (n: i32)
    ensures
        n == estimated_tokens(byte_count(text@) as nat),
{
    let len = text.len();
    let quarters: usize = len / 4 + (if len % 4 == 0 {
        0
    } else {
        1
    });
    if quarters > i32::MAX as usize {
        i32::MAX
    } else {
        quarters as i32
    }
}

/// The error that a failed chat completion is answered with, by the first
/// phrase that the error text holds.
pub fn handle_chat_completion_error(error_message: &str) -> (e: OpenAiError)
    ensures
        if contains(error_message@, "rate limit"@) || contains(error_message@, "quota"@) {
            is_error(e, 429, error_message@, "rate_limit_exceeded"@)
        } else if contains(error_message@, "authentication"@) || contains(
            error_message@,
            "credential"@,
        ) {
            is_error(e, 401, "Authentication failed"@, "authentication_error"@)
        } else if contains(error_message@, "not found"@) {
            is_error(e, 404, error_message@, "model_not_found"@)
        } else if contains(error_message@, "invalid"@) || contains(error_message@, "bad request"@) {
            is_error(e, 400, error_message@, "invalid_request"@)
        } else {
            is_error(e, 500, "Internal server error"@, "internal_error"@)
        },
{
    let m = error_message;
    if str_contains(m, "rate limit") || str_contains(m, "quota") {
        create_openai_error_response(429, m, "rate_limit_exceeded")
    } else if str_contains(m, "authentication") || str_contains(m, "credential") {
        create_openai_error_response(401, "Authentication failed", "authentication_error")
    } else if str_contains(m, "not found") {
        create_openai_error_response(404, m, "model_not_found")
    } else if str_contains(m, "invalid") || str_contains(m, "bad request") {
        create_openai_error_response(400, m, "invalid_request")
    } else {
        create_openai_error_response(500, "Internal server error", "internal_error")
    }
}

/// What follows a failed attempt.
#[derive(Debug, Clone, Copy, PartialEq, Eq, Structural)]
pub enum RetryStep {
    /// The failure stands.
    GiveUp,
    /// The next attempt is made after waiting this long, in milliseconds.
    RetryAfter { delay_ms: u64 },
}

/// The wait before the attempt after attempt `attempt`, counted from zero:
/// the first wait, doubled for each attempt made, held at the largest value.
pub open spec fn backoff(initial_delay_ms: u64, attempt: nat) -> u64
    decreases attempt,
{
    if attempt == 0 {
        initial_delay_ms
    } else if backoff(initial_delay_ms, (attempt - 1) as nat) > u64::MAX / 2 {
        u64::MAX
    } else {
        (backoff(initial_delay_ms, (attempt - 1) as nat) * 2) as u64
    }
}

/// What follows the failure of attempt `attempt`, counted from zero, when at
/// most `max_retries` attempts are made: another attempt after the wait, or
/// nothing after the last attempt.
pub open spec fn retry_step(attempt: usize, max_retries: usize, initial_delay_ms: u64) -> RetryStep {
    if attempt + 1 >= max_retries {
        RetryStep::GiveUp
    } else {
        RetryStep::RetryAfter { delay_ms: backoff(initial_delay_ms, attempt as nat) }
    }
}

/// Decides what follows a failed attempt. The caller waits and tries again.
pub fn process_request_with_retry(attempt: usize, max_retries: usize, initial_delay_ms: u64) -> (r:
    RetryStep)
    ensures
        r == retry_step(attempt, max_retries, initial_delay_ms),
{
    if attempt >= max_retries || attempt + 1 >= max_retries {
        return RetryStep::GiveUp;
    }
    let mut delay: u64 = initial_delay_ms;
    let mut i: usize = 0;
    while i < attempt
        invariant
            i <= attempt,
            delay == backoff(initial_delay_ms, i as nat),
        decreases attempt - i,
    {
        delay = if delay > u64::MAX / 2 {
            u64::MAX
        } else {
            delay * 2
        };
        i += 1;
    }
    RetryStep::RetryAfter { delay_ms: delay }
}

/// The text that a mock reply answers: the text of the last message, a
/// fixed sentence where that message is made of parts, another where there
/// is no message.
pub open spec fn mock_subject(messages: Seq<OpenAIMessage>) -> Seq<char> {
    if messages.len() == 0 {
        "No message received."@
    } else {
        match messages.last().content {
            MessageContent::Text(text) => text@,
            MessageContent::Parts(_) => "I received your message with multiple parts."@,
        }
    }
}

/// The token counts of a mock reply: the estimates for what it answers and
/// for what it says, and their sum.
pub open spec fn mock_usage(subject: Seq<char>, reply: Seq<char>) -> Usage {
    let prompt = estimated_tokens(byte_count(subject) as nat) as u32;
    let completion = estimated_tokens(byte_count(reply) as nat) as u32;
    Usage {
        prompt_tokens: prompt,
        completion_tokens: completion,
        total_tokens: token_sum(prompt, completion),
    }
}

fn usage_of(subject: &str, reply: &str) -> (u: Usage)
    ensures
        u == mock_usage(subject@, reply@),
{
    let prompt = estimate_tokens(subject) as u32;
    let completion = estimate_tokens(reply) as u32;
    let total = if prompt > u32::MAX - completion {
        u32::MAX
    } else {
        prompt + completion
    };
    Usage { prompt_tokens: prompt, completion_tokens: completion, total_tokens: total }
}

/// A chat completion that is made up here and only names what it answers.
pub fn create_mock_chat_response(model: &str, messages: &[OpenAIMessage], created: u64) -> (response:
    ChatCompletionResponse)
    ensures
        is_text_completion(
            response,
            "This is a mock response to: "@ + mock_subject(messages@),
            model@,
            created,
            Some(
                mock_usage(
                    mock_subject(messages@),
                    "This is a mock response to: "@ + mock_subject(messages@),
                ),
            ),
        ),
{
    let subject = if messages.len() == 0 {
        "No message received.".to_string()
    } else {
        match &messages[messages.len() - 1].content {
            MessageContent::Text(text) => text.clone(),
            MessageContent::Parts(_) => "I received your message with multiple parts.".to_string(),
        }
    };
    let mut reply: Vec<char> = Vec::new();
    append_str(&mut reply, "This is a mock response to: ");
    append_str(&mut reply, subject.as_str());
    let reply = string_of(reply.as_slice());
    let usage = usage_of(subject.as_str(), reply.as_str());
    text_completion(reply.as_str(), model, Some(usage), created)
}

/// A completion of a prompt in the older format.
#[derive(Debug, Clone)]
pub struct TextCompletion {
    pub id: String,
    pub object: String,
    pub created: u64,
    pub model: String,
    pub text: String,
    pub index: u32,
    pub finish_reason: String,
    pub usage: Usage,
}

/// A completion that is made up here and only names the prompt.
pub fn create_mock_completion_response(model: &str, prompt: &str, created: u64) -> (response:
    TextCompletion)
    ensures
        starts_with(response.id@, "cmpl-"@),
        response.object@ == "text_completion"@,
        response.created == created,
        response.model@ == model@,
        response.text@ == "This is a mock completion for: "@ + prompt@,
        response.index == 0,
        response.finish_reason@ == "stop"@,
        response.usage == mock_usage(prompt@, "This is a mock completion for: "@ + prompt@),
{
    let mut text: Vec<char> = Vec::new();
    append_str(&mut text, "This is a mock completion for: ");
    append_str(&mut text, prompt);
    let text = string_of(text.as_slice());
    let mut id: Vec<char> = Vec::new();
    append_str(&mut id, "cmpl-");
    let unique = fresh_uuid();
    append_str(&mut id, unique.as_str());
    proof {
        assert(id@.subrange(0, "cmpl-"@.len() as int) == "cmpl-"@);
    }
    let usage = usage_of(prompt, text.as_str());
    TextCompletion {
        id: string_of(id.as_slice()),
        object: "text_completion".to_string(),
        created,
        model: model.to_string(),
        text,
        index: 0,
        finish_reason: "stop".to_string(),
        usage,
    }
}

/// Why a model cannot be served.
#[derive(Debug, Clone, Copy, PartialEq, Eq, Structural)]
pub enum ModelAccessError {
    /// The model is in neither list.
    NotAvailable,
    /// There is no client for the backend.
    NotInitialized,
    /// The client has no credentials.
    NoCredentials,
}

impl ModelAccessError {
    /// The text of the error for the model `model`.
    pub fn message(&self, model: &str) -> (r: String)
        ensures
            r@ == (match *self {
                ModelAccessError::NotAvailable => "Model '"@ + model@
                    + "' is not available or not found"@,
                ModelAccessError::NotInitialized => "Vertex AI client not initialized"@,
                ModelAccessError::NoCredentials => "No valid credentials available for model access"@,
            }),
    {
        match self {
            ModelAccessError::NotAvailable => {
                let mut text: Vec<char> = Vec::new();
                append_str(&mut text, "Model '");
                append_str(&mut text, model);
                append_str(&mut text, "' is not available or not found");
                string_of(text.as_slice())
            },
            ModelAccessError::NotInitialized => "Vertex AI client not initialized".to_string(),
            ModelAccessError::NoCredentials => "No valid credentials available for model access".to_string(),
        }
    }
}

/// Checks that `model` can be served: it is in one of the lists, and the
/// client exists and has credentials. `client_has_credentials` is nothing
/// where there is no client.
pub fn validate_model_access(config: &ModelConfig, model: &str, client_has_credentials: Option<bool>) -> (r: Result<
    (),
    ModelAccessError,
>)
    ensures
        r == (if !(crate::utils::text::views(config.vertex_models@).contains(model@)
            || crate::utils::text::views(config.vertex_express_models@).contains(model@)) {
            Err::<(), ModelAccessError>(ModelAccessError::NotAvailable)
        } else {
            match client_has_credentials {
                None => Err(ModelAccessError::NotInitialized),
                Some(false) => Err(ModelAccessError::NoCredentials),
                Some(true) => Ok(()),
            }
        }),
{
    if !is_model_available(config, model) {
        return Err(ModelAccessError::NotAvailable);
    }
    match client_has_credentials {
        None => Err(ModelAccessError::NotInitialized),
        Some(false) => Err(ModelAccessError::NoCredentials),
        Some(true) => Ok(()),
    }
}

} // verus!
