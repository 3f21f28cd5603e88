//! Small pieces of response construction: token estimates, event framing,
//! content clean-up and structured error payloads.

use crate::models::schemas::{
    opt_view, ChatChoice, ChatChoiceDelta, ChatCompletionChunk,
    ChatCompletionResponse, ChatMessage, ChatMessageDelta, ContentItem, ContentValue,
    ErrorDetail, ErrorResponse, GeminiCandidate, GeminiContent, GeminiPart, GeminiResponse,
    GeminiUsageMetadata, Model, ModelResponse, Usage,
};
use crate::services::gemini::{count_or_zero, fresh_uuid};
use crate::utils::cache::{json_string, json_string_of};
use crate::utils::text::{
    append_str, char_views, chars_of, concat_all, join, join_chars, lines, lines_of,
    starts_with, str_eq, string_of, trim, trimmed,
};
use rand::RngExt;
use vstd::prelude::*;
use vstd::string::StringSliceAdditionalSpecFns;

verus! {

/// Whether `c` is an ASCII letter or digit.
pub open spec fn is_alphanumeric(c: char) -> bool {
    ('a' <= c && c <= 'z') || ('A' <= c && c <= 'Z') || ('0' <= c && c <= '9')
}

/// Samples `length` characters from `rand::distr::Alphanumeric` with the
/// thread's generator. Which characters come out is random; each is an ASCII
/// letter or digit.
#[verifier::external_body]
pub fn generate_random_string(length: usize) -> (r: String)
    ensures
        r@.len() == length,
        forall|i: int| 0 <= i < r@.len() ==> is_alphanumeric(#[trigger] r@[i]),
{
    rand::rng().sample_iter(rand::distr::Alphanumeric).take(length).map(char::from).collect()
}

/// The test that a line passes when it is not empty.
pub open spec fn not_empty() -> spec_fn(Seq<char>) -> bool {
    |line: Seq<char>| line.len() > 0
}

/// The lines of `content`, each without whitespace at either end.
pub open spec fn trimmed_lines(content: Seq<char>) -> Seq<Seq<char>> {
    lines_of(content).map_values(|line: Seq<char>| trimmed(line))
}

/// `content` with every line trimmed and the lines that are then empty left
/// out; the lines that are left are joined by single line feeds.
pub open spec fn sanitized(content: Seq<char>) -> Seq<char> {
    trimmed(join(trimmed_lines(content).filter(not_empty()), "\n"@))
}

/// Removes blank lines, and whitespace around the other lines, from
/// `content`.
pub fn sanitize_response_content(content: &str) -> (r: String)
    ensures
        r@ == sanitized(content@),
{
    let v = chars_of(content);
    let all = lines(v.as_slice());
    let ghost keep = not_empty();
    let ghost clean = trimmed_lines(content@);
    let mut kept: Vec<Vec<char>> = Vec::new();
    let mut i: usize = 0;
    proof {
        reveal(Seq::filter);
        assert(clean.take(0) == Seq::<Seq<char>>::empty());
    }
    while i < all.len()
        invariant
            i <= all.len(),
            keep == not_empty(),
            clean == trimmed_lines(content@),
            char_views(all@) == lines_of(content@),
            char_views(kept@) == clean.take(i as int).filter(keep),
        decreases all.len() - i,
    {
        let ghost before = char_views(kept@);
        proof {
            reveal(Seq::filter);
            assert(clean.take(i as int + 1).drop_last() == clean.take(i as int));
            assert(char_views(all@)[i as int] == all@[i as int]@);
            assert(clean.take(i as int + 1).last() == trimmed(all@[i as int]@));
        }
        let line = trim(all[i].as_slice());
        if line.len() > 0 {
            kept.push(line);
            proof {
                assert(char_views(kept@) == before.push(trimmed(all@[i as int]@)));
            }
        }
        i += 1;
    }
    proof {
        assert(clean.take(all.len() as int) == clean);
    }
    let feed = chars_of("\n");
    let joined = join_chars(&kept, feed.as_slice());
    let out = trim(joined.as_slice());
    string_of(out.as_slice())
}

/// The estimated number of tokens in a text of `bytes` bytes: one for every
/// four bytes, rounded up, held at the largest 32-bit value.
pub open spec fn estimated_tokens(bytes: nat) -> u32 {
    if (bytes + 3) / 4 > u32::MAX {
        u32::MAX
    } else {
        ((bytes + 3) / 4) as u32
    }
}

/// The length in bytes of the UTF-8 encoding of `s`.
pub open spec fn byte_count(s: Seq<char>) -> usize {
    vstd::utf8::encode_utf8(s).len() as usize
}

/// Estimates the number of tokens in `text` from its length in bytes.
pub fn estimate_tokens(text: &str) -> (n: u32)
    ensures
        n == estimated_tokens(byte_count(text@) as nat),
{
    let len = text.len();
    let quarters: usize = len / 4 + (if len % 4 == 0 {
        0
    } else {
        1
    });
    if quarters > u32::MAX as usize {
        u32::MAX
    } else {
        quarters as u32
    }
}

/// Frames `data` as one server-sent event.
pub fn create_sse_data(data: &str) -> (r: String)
    ensures
        r@ == "data: "@ + data@ + "\n\n"@,
{
    let mut out: Vec<char> = Vec::new();
    append_str(&mut out, "data: ");
    append_str(&mut out, data);
    append_str(&mut out, "\n\n");
    string_of(out.as_slice())
}

/// Frames `data` as one named server-sent event.
pub fn create_sse_event(event: &str, data: &str) -> (r: String)
    ensures
        r@ == "event: "@ + event@ + "\ndata: "@ + data@ + "\n\n"@,
{
    let mut out: Vec<char> = Vec::new();
    append_str(&mut out, "event: ");
    append_str(&mut out, event);
    append_str(&mut out, "\ndata: ");
    append_str(&mut out, data);
    append_str(&mut out, "\n\n");
    string_of(out.as_slice())
}

/// The structured payload for an error: the message and the type, without
/// code or parameter.
pub fn create_error_json(message: &str, error_type: &str) -> (r: ErrorResponse)
    ensures
        r.error.message@ == message@,
        r.error.error_type@ == error_type@,
        r.error.code is None,
        r.error.param is None,
{
    ErrorResponse {
        error: ErrorDetail {
            message: message.to_string(),
            error_type: error_type.to_string(),
            code: None,
            param: None,
        },
    }
}

/// The HTTP status that goes with an error type.
pub open spec fn status_of(error_type: Seq<char>) -> u16 {
    if error_type == "authentication_error"@ {
        401
    } else if error_type == "forbidden_error"@ {
        403
    } else if error_type == "rate_limit_error"@ {
        429
    } else if error_type == "service_unavailable"@ {
        503
    } else if error_type == "api_error"@ || error_type == "stream_error"@ {
        500
    } else {
        400
    }
}

/// The HTTP status that goes with an error type. An unknown type, like an
/// invalid model, is a bad request.
pub fn error_status(error_type: &str) -> (status: u16)
    ensures
        status == status_of(error_type@),
{
    if str_eq(error_type, "authentication_error") {
        401
    } else if str_eq(error_type, "forbidden_error") {
        403
    } else if str_eq(error_type, "rate_limit_error") {
        429
    } else if str_eq(error_type, "service_unavailable") {
        503
    } else if str_eq(error_type, "api_error") || str_eq(error_type, "stream_error") {
        500
    } else {
        400
    }
}

/// The texts of the text items of a content list, in order.
pub open spec fn item_texts(items: Seq<ContentItem>) -> Seq<Seq<char>>
    decreases items.len(),
{
    if items.len() == 0 {
        Seq::<Seq<char>>::empty()
    } else {
        match items.last() {
            ContentItem::Text { text: Some(t) } => item_texts(items.drop_last()).push(t@),
            _ => item_texts(items.drop_last()),
        }
    }
}

/// The text of a content: the string itself, the texts of the text items of
/// a list laid end to end, or the JSON text of anything else.
pub open spec fn text_of_content(value: ContentValue) -> Seq<char> {
    match value {
        ContentValue::Text(s) => s@,
        ContentValue::Items(items) => concat_all(item_texts(items@)),
        ContentValue::Other(json) => json@,
    }
}

/// Reads the text of a content.
pub fn extract_text_from_value(value: &ContentValue) -> (r: String)
    ensures
        r@ == text_of_content(*value),
{
    match value {
        ContentValue::Text(s) => s.clone(),
        ContentValue::Other(json) => json.clone(),
        ContentValue::Items(items) => {
            let mut out: Vec<char> = Vec::new();
            let mut i: usize = 0;
            proof {
                assert(items@.take(0) == Seq::<ContentItem>::empty());
            }
            while i < items.len()
                invariant
                    i <= items.len(),
                    out@ == concat_all(item_texts(items@.take(i as int))),
                decreases items.len() - i,
            {
                proof {
                    assert(items@.take(i as int + 1).drop_last() == items@.take(i as int));
                    assert(items@.take(i as int + 1).last() == items@[i as int]);
                }
                match &items[i] {
                    ContentItem::Text { text: Some(t) } => {
                        append_str(&mut out, t.as_str());
                        proof {
                            let seen = item_texts(items@.take(i as int));
                            assert(seen.push(t@).drop_last() == seen);
                        }
                    },
                    _ => {},
                }
                i += 1;
            }
            proof {
                assert(items@.take(items.len() as int) == items@);
            }
            string_of(out.as_slice())
        },
    }
}

/// `a + b`, held at the largest value.
pub open spec fn token_sum(a: u32, b: u32) -> u32 {
    if a + b > u32::MAX {
        u32::MAX
    } else {
        (a + b) as u32
    }
}

fn sum_tokens(a: u32, b: u32) -> (r: u32)
    ensures
        r == token_sum(a, b),
{
    if a > u32::MAX - b {
        u32::MAX
    } else {
        a + b
    }
}

fn completion_id() -> (r: String)
    ensures
        starts_with(r@, "chatcmpl-"@),
{
    let mut id: Vec<char> = Vec::new();
    append_str(&mut id, "chatcmpl-");
    let unique = fresh_uuid();
    append_str(&mut id, unique.as_str());
    proof {
        assert(id@.subrange(0, "chatcmpl-"@.len() as int) == "chatcmpl-"@);
    }
    string_of(id.as_slice())
}

/// A text in the client's format: one chunk for a stream, a whole completion
/// otherwise.
#[derive(Debug, Clone)]
pub enum TextResponse {
    Chunk(ChatCompletionChunk),
    Full(ChatCompletionResponse),
}

/// Whether `chunk` carries `content`, if any, for `model`, created at
/// `created`, with the given stop reason, under a fresh identifier.
pub open spec fn is_plain_chunk(
    chunk: ChatCompletionChunk,
    model: Seq<char>,
    created: u64,
    content: Option<Seq<char>>,
    finish_reason: Option<Seq<char>>,
) -> bool {
    &&& starts_with(chunk.id@, "chatcmpl-"@)
    &&& chunk.object@ == "chat.completion.chunk"@
    &&& chunk.created == created
    &&& chunk.model@ == model
    &&& chunk.system_fingerprint is None
    &&& chunk.choices@.len() == 1
    &&& chunk.choices@[0].index == 0
    &&& opt_view(chunk.choices@[0].finish_reason) == finish_reason
    &&& chunk.choices@[0].logprobs is None
    &&& chunk.choices@[0].delta.role is None
    &&& opt_view(chunk.choices@[0].delta.content) == content
    &&& chunk.choices@[0].delta.tool_calls is None
}

/// Whether `response` is the completion that says `text` as the assistant
/// for `model`, created at `created`, stopped normally, with the given
/// token counts, under a fresh identifier.
pub open spec fn is_text_completion(
    response: ChatCompletionResponse,
    text: Seq<char>,
    model: Seq<char>,
    created: u64,
    usage: Option<Usage>,
) -> bool {
    &&& starts_with(response.id@, "chatcmpl-"@)
    &&& response.object@ == "chat.completion"@
    &&& response.created == created
    &&& response.model@ == model
    &&& response.system_fingerprint is None
    &&& response.usage == usage
    &&& response.choices@.len() == 1
    &&& response.choices@[0].index == 0
    &&& opt_view(response.choices@[0].finish_reason) == Some("stop"@)
    &&& response.choices@[0].logprobs is None
    &&& response.choices@[0].message.role@ == "assistant"@
    &&& opt_view(response.choices@[0].message.content) == Some(json_string_of(text))
    &&& response.choices@[0].message.name is None
    &&& response.choices@[0].message.tool_calls is None
    &&& response.choices@[0].message.tool_call_id is None
}

/// A chunk with the given content and stop reason under a fresh identifier.
pub fn plain_chunk(content: Option<String>, model: &str, finish_reason: Option<String>, created: u64) -> (chunk:
    ChatCompletionChunk)
    ensures
        is_plain_chunk(chunk, model@, created, opt_view(content), opt_view(finish_reason)),
{
    let mut choices: Vec<ChatChoiceDelta> = Vec::new();
    choices.push(
        ChatChoiceDelta {
            index: 0,
            delta: ChatMessageDelta { role: None, content, tool_calls: None },
            finish_reason,
            logprobs: None,
        },
    );
    ChatCompletionChunk {
        id: completion_id(),
        object: "chat.completion.chunk".to_string(),
        created,
        model: model.to_string(),
        choices,
        system_fingerprint: None,
    }
}

/// A completion without choices, created at `created` for the usual model
/// under a fresh identifier.
pub fn empty_completion(created: u64) -> (response: ChatCompletionResponse)
    ensures
        starts_with(response.id@, "chatcmpl-"@),
        response.object@ == "chat.completion"@,
        response.created == created,
        response.model@ == "gemini-pro"@,
        response.choices@.len() == 0,
        response.usage is None,
        response.system_fingerprint is None,
{
    ChatCompletionResponse {
        id: completion_id(),
        object: "chat.completion".to_string(),
        created,
        model: "gemini-pro".to_string(),
        choices: Vec::new(),
        usage: None,
        system_fingerprint: None,
    }
}

/// The completion that says `text` under a fresh identifier.
pub fn text_completion(text: &str, model: &str, usage: Option<Usage>, created: u64) -> (response:
    ChatCompletionResponse)
    ensures
        is_text_completion(response, text@, model@, created, usage),
{
    let mut choices: Vec<ChatChoice> = Vec::new();
    choices.push(
        ChatChoice {
            index: 0,
            message: ChatMessage {
                role: "assistant".to_string(),
                content: Some(json_string(text)),
                name: None,
                tool_calls: None,
                tool_call_id: None,
            },
            finish_reason: Some("stop".to_string()),
            logprobs: None,
        },
    );
    ChatCompletionResponse {
        id: completion_id(),
        object: "chat.completion".to_string(),
        created,
        model: model.to_string(),
        choices,
        usage,
        system_fingerprint: None,
    }
}

/// The token counts of a text: those given, or the estimate for the text in
/// place of each that is not given, and their sum.
pub open spec fn text_usage(text: Seq<char>, prompt: Option<u32>, completion: Option<u32>) -> Usage {
    let p = match prompt {
        Some(n) => n,
        None => estimated_tokens(byte_count(text) as nat),
    };
    let c = match completion {
        Some(n) => n,
        None => estimated_tokens(byte_count(text) as nat),
    };
    Usage { prompt_tokens: p, completion_tokens: c, total_tokens: token_sum(p, c) }
}

/// Puts a text into the client's format.
pub fn openai_from_text(
    text: &str,
    model: &str,
    usage_prompt_tokens: Option<u32>,
    usage_completion_tokens: Option<u32>,
    stream: bool,
    created: u64,
) -> (r: TextResponse)
    ensures
        match r {
            TextResponse::Chunk(c) => stream && is_plain_chunk(
                c,
                model@,
                created,
                Some(text@),
                None,
            ),
            TextResponse::Full(f) => !stream && is_text_completion(
                f,
                text@,
                model@,
                created,
                Some(text_usage(text@, usage_prompt_tokens, usage_completion_tokens)),
            ),
        },
{
    if stream {
        TextResponse::Chunk(plain_chunk(Some(text.to_string()), model, None, created))
    } else {
        let prompt = match usage_prompt_tokens {
            Some(n) => n,
            None => estimate_tokens(text),
        };
        let completion = match usage_completion_tokens {
            Some(n) => n,
            None => estimate_tokens(text),
        };
        let usage = Usage {
            prompt_tokens: prompt,
            completion_tokens: completion,
            total_tokens: sum_tokens(prompt, completion),
        };
        TextResponse::Full(text_completion(text, model, Some(usage), created))
    }
}

/// Whether `response` is the provider's way of saying `text`: one candidate
/// with the text as its only part, stopped normally, and the estimated
/// token counts.
pub open spec fn is_gemini_text(response: GeminiResponse, text: Seq<char>) -> bool {
    &&& response.candidates@.len() == 1
    &&& response.candidates@[0].content.role@ == "model"@
    &&& response.candidates@[0].content.parts@.len() == 1
    &&& response.candidates@[0].content.parts@[0] matches GeminiPart::Text { text: t } && t@
        == text
    &&& opt_view(response.candidates@[0].finish_reason) == Some("STOP"@)
    &&& response.candidates@[0].index == Some(0u32)
    &&& response.candidates@[0].safety_ratings is Some
    &&& response.candidates@[0].safety_ratings->0@.len() == 0
    &&& response.prompt_feedback is None
    &&& response.usage_metadata == Some(
        GeminiUsageMetadata {
            prompt_token_count: Some(estimated_tokens(byte_count(text) as nat)),
            candidates_token_count: Some(estimated_tokens(byte_count(text) as nat)),
            total_token_count: Some(
                token_sum(
                    estimated_tokens(byte_count(text) as nat),
                    estimated_tokens(byte_count(text) as nat),
                ),
            ),
        },
    )
}

/// Puts a text into the provider's format.
pub fn gemini_from_text(text: &str) -> (r: GeminiResponse)
    ensures
        is_gemini_text(r, text@),
{
    let estimate = estimate_tokens(text);
    let mut parts: Vec<GeminiPart> = Vec::new();
    parts.push(GeminiPart::Text { text: text.to_string() });
    let mut candidates: Vec<GeminiCandidate> = Vec::new();
    candidates.push(
        GeminiCandidate {
            content: GeminiContent { role: "model".to_string(), parts },
            finish_reason: Some("STOP".to_string()),
            index: Some(0),
            safety_ratings: Some(Vec::new()),
        },
    );
    GeminiResponse {
        candidates,
        usage_metadata: Some(
            GeminiUsageMetadata {
                prompt_token_count: Some(estimate),
                candidates_token_count: Some(estimate),
                total_token_count: Some(sum_tokens(estimate, estimate)),
            },
        ),
        prompt_feedback: None,
    }
}

/// The text of the first part of the first candidate, if it is text; else
/// nothing.
pub open spec fn first_text(response: GeminiResponse) -> Seq<char> {
    if response.candidates@.len() > 0 && response.candidates@[0].content.parts@.len() > 0 {
        match response.candidates@[0].content.parts@[0] {
            GeminiPart::Text { text } => text@,
            _ => Seq::<char>::empty(),
        }
    } else {
        Seq::<char>::empty()
    }
}

/// Reads the text of a provider response.
pub fn extract_gemini_content(gemini_response: &GeminiResponse) -> (r: String)
    ensures
        r@ == first_text(*gemini_response),
{
    if gemini_response.candidates.len() > 0 && gemini_response.candidates[0].content.parts.len()
        > 0 {
        match &gemini_response.candidates[0].content.parts[0] {
            GeminiPart::Text { text } => text.clone(),
            _ => String::new(),
        }
    } else {
        String::new()
    }
}

/// The token counts of a provider response: what it reports, with zero for
/// a count that it leaves out and the sum of the two counts for a total that
/// it leaves out; all zero if it reports nothing.
pub open spec fn reported_usage(response: GeminiResponse) -> Usage {
    match response.usage_metadata {
        Some(meta) => Usage {
            prompt_tokens: count_or_zero(meta.prompt_token_count),
            completion_tokens: count_or_zero(meta.candidates_token_count),
            total_tokens: match meta.total_token_count {
                Some(n) => n,
                None => token_sum(
                    count_or_zero(meta.prompt_token_count),
                    count_or_zero(meta.candidates_token_count),
                ),
            },
        },
        None => Usage { prompt_tokens: 0, completion_tokens: 0, total_tokens: 0 },
    }
}

/// Reads the token counts of a provider response.
pub fn extract_gemini_usage(gemini_response: &GeminiResponse) -> (r: Usage)
    ensures
        r == reported_usage(*gemini_response),
{
    match gemini_response.usage_metadata {
        Some(meta) => {
            let prompt = match meta.prompt_token_count {
                Some(n) => n,
                None => 0,
            };
            let completion = match meta.candidates_token_count {
                Some(n) => n,
                None => 0,
            };
            let total = match meta.total_token_count {
                Some(n) => n,
                None => sum_tokens(prompt, completion),
            };
            Usage { prompt_tokens: prompt, completion_tokens: completion, total_tokens: total }
        },
        None => Usage { prompt_tokens: 0, completion_tokens: 0, total_tokens: 0 },
    }
}

/// The view of an optional borrowed string.
pub open spec fn name_view(s: Option<&str>) -> Option<Seq<char>> {
    match s {
        Some(x) => Some(x@),
        None => None,
    }
}

/// The model that answered: the version that the provider names, or the
/// default.
pub open spec fn answering_model(model_version: Option<Seq<char>>) -> Seq<char> {
    match model_version {
        Some(m) => m,
        None => "gemini-pro"@,
    }
}

/// Puts a provider response into the client's format.
pub fn openai_from_gemini(
    gemini_response: &GeminiResponse,
    model_version: Option<&str>,
    stream: bool,
    created: u64,
) -> (r: TextResponse)
    ensures
        match r {
            TextResponse::Chunk(c) => stream && is_plain_chunk(
                c,
                answering_model(name_view(model_version)),
                created,
                Some(first_text(*gemini_response)),
                None,
            ),
            TextResponse::Full(f) => !stream && is_text_completion(
                f,
                first_text(*gemini_response),
                answering_model(name_view(model_version)),
                created,
                Some(reported_usage(*gemini_response)),
            ),
        },
{
    let content = extract_gemini_content(gemini_response);
    let model = match model_version {
        Some(m) => m,
        None => "gemini-pro",
    };
    if stream {
        TextResponse::Chunk(plain_chunk(Some(content), model, None, created))
    } else {
        let usage = extract_gemini_usage(gemini_response);
        TextResponse::Full(text_completion(content.as_str(), model, Some(usage), created))
    }
}

/// A chunk of a streamed completion: the content, unless it is empty, and
/// the stop reason, if there is one. The caller frames it as an event.
pub fn create_completion_chunk(content: &str, model: &str, finish_reason: Option<&str>, created: u64) -> (chunk:
    ChatCompletionChunk)
    ensures
        is_plain_chunk(
            chunk,
            model@,
            created,
            if content@.len() == 0 {
                None
            } else {
                Some(content@)
            },
            name_view(finish_reason),
        ),
{
    let body = if content.is_empty() {
        None
    } else {
        Some(content.to_string())
    };
    let reason = match finish_reason {
        Some(r) => Some(r.to_string()),
        None => None,
    };
    plain_chunk(body, model, reason, created)
}

/// The last chunk of a streamed completion: no content, stopped normally.
/// The caller frames it as an event and adds the end-of-stream marker.
pub fn create_final_chunk(model: &str, created: u64) -> (chunk: ChatCompletionChunk)
    ensures
        is_plain_chunk(chunk, model@, created, None, Some("stop"@)),
{
    plain_chunk(None, model, Some("stop".to_string()), created)
}

/// The end-of-stream marker of an event stream.
pub fn done_marker() -> (r: String)
    ensures
        r@ == "data: [DONE]\n\n"@,
{
    "data: [DONE]\n\n".to_string()
}

/// A model list in the client's format: one model object per name, in
/// order.
pub fn create_models_response(models: &Vec<String>, created: u64) -> (r: ModelResponse)
    ensures
        r.object@ == "list"@,
        r.data@.len() == models@.len(),
        forall|i: int|
            0 <= i < models@.len() ==> (#[trigger] r.data@[i]).id@ == models@[i]@
                && r.data@[i].object@ == "model"@ && r.data@[i].created == created
                && r.data@[i].owned_by@ == "openai"@,
{
    let mut data: Vec<Model> = Vec::new();
    let mut i: usize = 0;
    while i < models.len()
        invariant
            i <= models.len(),
            data@.len() == i,
            forall|k: int|
                0 <= k < i ==> (#[trigger] data@[k]).id@ == models@[k]@ && data@[k].object@
                    == "model"@ && data@[k].created == created && data@[k].owned_by@
                    == "openai"@,
        decreases models.len() - i,
    {
        data.push(
            Model {
                id: models[i].clone(),
                object: "model".to_string(),
                created,
                owned_by: "openai".to_string(),
            },
        );
        i += 1;
    }
    ModelResponse { object: "list".to_string(), data }
}

} // verus!
