//! Conversion of client messages into what the provider takes.

use crate::utils::pattern::{regex_replace_all, regex_replaced};
use crate::utils::response::byte_count;
use crate::models::schemas::{opt_view, ChatCompletionChunk, ChatCompletionResponse, Usage};
use crate::utils::response::{
    is_plain_chunk, is_text_completion, plain_chunk, text_completion, token_sum,
};
use crate::services::gemini::{find_char, index_of, remove_all, without};
use crate::utils::text::{
    append_str, blank, char_views, chars_of, copy_range, find, is_blank, join, join_chars,
    matches_at, occurs_at, starts_with, str_eq, string_of, trim, trimmed,
};
use base64::Engine;
use crate::vertex::models::{ContentPart, GeminiMessage, MessageContent, OpenAIMessage};
use vstd::prelude::*;

verus! {

/// The text that stands for one part of a message: its text, or a note
/// that names the image.
pub open spec fn part_text(part: ContentPart) -> Seq<char> {
    match part {
        ContentPart::Text { text } => text@,
        ContentPart::Image { image_url } => "[Image: "@ + image_url.url@ + "]"@,
    }
}

/// The texts that stand for the parts of a message.
pub open spec fn part_texts(parts: Seq<ContentPart>) -> Seq<Seq<char>> {
    parts.map_values(|p: ContentPart| part_text(p))
}

/// The text of a message with several parts: one line per part.
pub fn process_message_parts(parts: &[ContentPart]) -> (r: String)
    ensures
        r@ == join(part_texts(parts@), "\n"@),
{
    let mut texts: Vec<Vec<char>> = Vec::new();
    let mut i: usize = 0;
    while i < parts.len()
        invariant
            i <= parts.len(),
            char_views(texts@) == part_texts(parts@).take(i as int),
        decreases parts.len() - i,
    {
        let ghost before = char_views(texts@);
        let mut text: Vec<char> = Vec::new();
        match &parts[i] {
            ContentPart::Text { text: t } => {
                append_str(&mut text, t.as_str());
            },
            ContentPart::Image { image_url } => {
                append_str(&mut text, "[Image: ");
                append_str(&mut text, image_url.url.as_str());
                append_str(&mut text, "]");
            },
        }
        texts.push(text);
        proof {
            assert(char_views(texts@) == before.push(part_text(parts@[i as int])));
            assert(part_texts(parts@).take(i as int + 1) == part_texts(parts@).take(i as int).push(
                part_text(parts@[i as int]),
            ));
        }
        i += 1;
    }
    proof {
        assert(part_texts(parts@).take(parts.len() as int) == part_texts(parts@));
    }
    let feed = chars_of("\n");
    let joined = join_chars(&texts, feed.as_slice());
    string_of(joined.as_slice())
}

/// The estimated number of tokens in a text of `bytes` bytes: one for every
/// four bytes, rounded up, held at the largest value.
pub open spec fn estimated_tokens(bytes: nat) -> i32 {
    if (bytes + 3) / 4 > i32::MAX {
        i32::MAX
    } else {
        ((bytes + 3) / 4) as i32
    }
}

/// Estimates the number of tokens in `text` from its length in bytes.
pub fn estimate_tokens(text: &str) -> (n: i32)
    ensures
        n == estimated_tokens(byte_count(text@) as nat),
{
    let len = text.len();
    let quarters: usize = len / 4 + (if len % 4 == 0 {
        0
    } else {
        1
    });
    if quarters > i32::MAX as usize {
        i32::MAX
    } else {
        quarters as i32
    }
}

/// The role under which the provider takes a message: `model` for what the
/// assistant or the model said, `user` for everything else.
pub open spec fn provider_role(role: Seq<char>) -> Seq<char> {
    if role == "assistant"@ || role == "model"@ {
        "model"@
    } else {
        "user"@
    }
}

/// The text of a message, if it is passed on: plain text unless it is blank,
/// and the lines of a message with parts.
pub open spec fn passed_text(content: MessageContent) -> Option<Seq<char>> {
    match content {
        MessageContent::Text(text) => if is_blank(text@) {
            None
        } else {
            Some(text@)
        },
        MessageContent::Parts(parts) => Some(join(part_texts(parts@), "\n"@)),
    }
}

/// The role and text of what the provider is sent for `messages`, in order.
/// Messages with blank text are left out.
pub open spec fn prompt_of(messages: Seq<OpenAIMessage>) -> Seq<(Seq<char>, Seq<char>)>
    decreases messages.len(),
{
    if messages.len() == 0 {
        Seq::<(Seq<char>, Seq<char>)>::empty()
    } else {
        let init = prompt_of(messages.drop_last());
        match passed_text(messages.last().content) {
            Some(text) => init.push((provider_role(messages.last().role@), text)),
            None => init,
        }
    }
}

/// The role and text of a list of provider messages.
pub open spec fn role_texts(v: Seq<GeminiMessage>) -> Seq<(Seq<char>, Seq<char>)> {
    v.map_values(|m: GeminiMessage| (m.role@, m.content@))
}

/// Converts client messages into provider messages.
pub fn create_gemini_prompt(messages: &[OpenAIMessage]) -> (r: Vec<GeminiMessage>)
    ensures
        role_texts(r@) == prompt_of(messages@),
        forall|i: int| 0 <= i < r@.len() ==> (#[trigger] r@[i]).name is None,
{
    let mut r: Vec<GeminiMessage> = Vec::new();
    let mut i: usize = 0;
    proof {
        assert(messages@.take(0) == Seq::<OpenAIMessage>::empty());
    }
    while i < messages.len()
        invariant
            i <= messages.len(),
            role_texts(r@) == prompt_of(messages@.take(i as int)),
            forall|k: int| 0 <= k < r@.len() ==> (#[trigger] r@[k]).name is None,
        decreases messages.len() - i,
    {
        let ghost before = role_texts(r@);
        proof {
            assert(messages@.take(i as int + 1).drop_last() == messages@.take(i as int));
            assert(messages@.take(i as int + 1).last() == messages@[i as int]);
        }
        let message = &messages[i];
        let content: Option<String> = match &message.content {
            MessageContent::Text(text) => {
                let v = chars_of(text.as_str());
                if blank(v.as_slice()) {
                    None
                } else {
                    Some(text.clone())
                }
            },
            MessageContent::Parts(parts) => Some(process_message_parts(parts.as_slice())),
        };
        match content {
            Some(text) => {
                let role = if str_eq(message.role.as_str(), "assistant") || str_eq(
                    message.role.as_str(),
                    "model",
                ) {
                    "model"
                } else {
                    "user"
                };
                r.push(GeminiMessage { role: role.to_string(), content: text, name: None });
                proof {
                    assert(role_texts(r@) == before.push(
                        (provider_role(message.role@), passed_text(message.content)->0),
                    ));
                }
            },
            None => {},
        }
        i += 1;
    }
    proof {
        assert(messages@.take(messages.len() as int) == messages@);
    }
    r
}

/// Whether `c` is a character of no width.
pub open spec fn is_zero_width(c: char) -> bool {
    c == '\u{200B}' || c == '\u{200C}' || c == '\u{200D}' || c == '\u{FEFF}'
}

/// `text` with a space in place of every character of no width.
pub open spec fn spaced(text: Seq<char>) -> Seq<char> {
    text.map_values(
        |c: char|
            if is_zero_width(c) {
                ' '
            } else {
                c
            },
    )
}

/// `text` with every match of `pattern` replaced; `text` itself when the
/// pattern is not a regular expression.
pub open spec fn replaced_with(text: Seq<char>, pattern: Seq<char>, replacement: Seq<char>) -> Seq<
    char,
> {
    match regex_replaced(pattern, text, replacement) {
        Some(t) => t,
        None => text,
    }
}

/// `text` with characters of no width made spaces, every run of whitespace
/// made one space, emphasis marks and tags removed, and trimmed.
pub open spec fn deobfuscated(text: Seq<char>) -> Seq<char> {
    trimmed(
        replaced_with(
            replaced_with(
                replaced_with(spaced(text), "\\s+"@, " "@),
                "\\*{1,3}([^*]+)\\*{1,3}"@,
                "$1"@,
            ),
            "<[^>]*>"@,
            ""@,
        ),
    )
}

fn replace(text: String, pattern: &str, replacement: &str) -> (r: String)
    ensures
        r@ == replaced_with(text@, pattern@, replacement@),
{
    match regex_replace_all(pattern, text.as_str(), replacement) {
        Some(t) => t,
        None => text,
    }
}

/// Undoes common ways of hiding text from filters.
pub fn deobfuscate_text(text: &str) -> (r: String)
    ensures
        r@ == deobfuscated(text@),
{
    let v = chars_of(text);
    let mut visible: Vec<char> = Vec::new();
    let mut i: usize = 0;
    while i < v.len()
        invariant
            i <= v.len(),
            visible@ == spaced(v@).take(i as int),
        decreases v.len() - i,
    {
        let c = v[i];
        if c == '\u{200B}' || c == '\u{200C}' || c == '\u{200D}' || c == '\u{FEFF}' {
            visible.push(' ');
        } else {
            visible.push(c);
        }
        proof {
            assert(spaced(v@).take(i as int + 1) == spaced(v@).take(i as int).push(
                spaced(v@)[i as int],
            ));
        }
        i += 1;
    }
    proof {
        assert(spaced(v@).take(v.len() as int) == spaced(v@));
    }
    let a = replace(string_of(visible.as_slice()), "\\s+", " ");
    let b = replace(a, "\\*{1,3}([^*]+)\\*{1,3}", "$1");
    let c = replace(b, "<[^>]*>", "");
    let t = chars_of(c.as_str());
    let out = trim(t.as_slice());
    string_of(out.as_slice())
}

/// The scheme of `text` as `url::Url::parse` reads it; none if it is not an
/// absolute address.
pub uninterp spec fn url_scheme_of(text: Seq<char>) -> Option<Seq<char>>;

/// Calls `url::Url::parse` and asks the address for its scheme.
#[verifier::external_body]
fn url_scheme(text: &str) -> (r: Option<String>)
    ensures
        opt_view(r) == url_scheme_of(text@),
{
    url::Url::parse(text).ok().map(|u| u.scheme().to_string())
}

/// Why the address of an image is not accepted.
#[derive(Debug, Clone, Copy, PartialEq, Eq, Structural)]
pub enum ImageUrlError {
    /// It is not an address.
    InvalidFormat,
    /// It is an address of another kind than `http` or `https`.
    UnsupportedScheme,
}

/// Whether the address of an image is accepted: an inline image, or an
/// address whose scheme is `http` or `https`.
pub open spec fn image_url_verdict(url: Seq<char>) -> Result<(), ImageUrlError> {
    if starts_with(url, "data:image/"@) {
        Ok(())
    } else {
        match url_scheme_of(url) {
            None => Err(ImageUrlError::InvalidFormat),
            Some(scheme) => if scheme == "http"@ || scheme == "https"@ {
                Ok(())
            } else {
                Err(ImageUrlError::UnsupportedScheme)
            },
        }
    }
}

/// Checks the address of an image.
pub fn validate_image_url(url: &str) -> (r: Result<(), ImageUrlError>)
    ensures
        r == image_url_verdict(url@),
{
    if crate::utils::text::str_starts_with(url, "data:image/") {
        return Ok(());
    }
    match url_scheme(url) {
        None => Err(ImageUrlError::InvalidFormat),
        Some(scheme) => {
            if str_eq(scheme.as_str(), "http") || str_eq(scheme.as_str(), "https") {
                Ok(())
            } else {
                Err(ImageUrlError::UnsupportedScheme)
            }
        },
    }
}

/// The bytes that `text` encodes in standard base64 with padding, as the
/// `base64` crate decodes it; none if it does not decode.
pub uninterp spec fn base64_decoded(text: Seq<char>) -> Option<Seq<u8>>;

/// The view of optional bytes.
pub open spec fn bytes_view(b: Option<Vec<u8>>) -> Option<Seq<u8>> {
    match b {
        Some(v) => Some(v@),
        None => None,
    }
}

/// Calls `Engine::decode` of `base64::engine::general_purpose::STANDARD`.
#[verifier::external_body]
fn base64_decode(text: &str) -> (r: Option<Vec<u8>>)
    ensures
        bytes_view(r) == base64_decoded(text@),
{
    base64::engine::general_purpose::STANDARD.decode(text).ok()
}

/// Why no image could be read from an address.
#[derive(Debug, Clone, Copy, PartialEq, Eq, Structural)]
pub enum ImageDataError {
    /// The address is not that of an inline image.
    NotImageData,
    /// The address has no comma between its header and its data.
    InvalidFormat,
    /// The data are not base64.
    DecodeFailed,
}

/// The media type and the bytes of an inline image: the type runs from the
/// scheme to the first semicolon of the header, the bytes are what follows
/// the first comma, decoded.
pub open spec fn image_data_of(url: Seq<char>) -> Result<(Seq<char>, Seq<u8>), ImageDataError> {
    if !starts_with(url, "data:image/"@) {
        Err(ImageDataError::NotImageData)
    } else if index_of(url, ',') >= url.len() {
        Err(ImageDataError::InvalidFormat)
    } else {
        let header = url.take(index_of(url, ','));
        let named = header.take(index_of(header, ';'));
        match base64_decoded(url.skip(index_of(url, ',') + 1)) {
            None => Err(ImageDataError::DecodeFailed),
            Some(bytes) => Ok(
                (
                    if starts_with(named, "data:"@) {
                        named.skip("data:"@.len() as int)
                    } else {
                        Seq::<char>::empty()
                    },
                    bytes,
                ),
            ),
        }
    }
}

/// The view of what was read from an inline image.
pub open spec fn image_view(r: Result<(String, Vec<u8>), ImageDataError>) -> Result<
    (Seq<char>, Seq<u8>),
    ImageDataError,
> {
    match r {
        Ok((mime, bytes)) => Ok((mime@, bytes@)),
        Err(e) => Err(e),
    }
}

/// Reads the media type and the bytes of an inline image.
pub fn extract_base64_image_data(data_url: &str) -> (r: Result<(String, Vec<u8>), ImageDataError>)
    ensures
        image_view(r) == image_data_of(data_url@),
{
    let v = chars_of(data_url);
    let marker = chars_of("data:image/");
    if !matches_at(v.as_slice(), marker.as_slice(), 0) {
        return Err(ImageDataError::NotImageData);
    }
    proof {
        assert(v@.skip(0) == v@);
    }
    let comma = find_char(v.as_slice(), 0, ',');
    if comma >= v.len() {
        return Err(ImageDataError::InvalidFormat);
    }
    let header = copy_range(v.as_slice(), 0, comma);
    proof {
        assert(header@ == v@.take(comma as int));
        assert(header@.skip(0) == header@);
    }
    let semi = find_char(header.as_slice(), 0, ';');
    let named = copy_range(header.as_slice(), 0, semi);
    let scheme = chars_of("data:");
    let mime = if matches_at(named.as_slice(), scheme.as_slice(), 0) {
        copy_range(named.as_slice(), scheme.len(), named.len())
    } else {
        Vec::new()
    };
    let data = copy_range(v.as_slice(), comma + 1, v.len());
    proof {
        assert(named@ == header@.take(semi as int));
        assert(data@ == v@.skip(comma as int + 1));
        assert(named@.subrange(scheme.len() as int, named.len() as int) == named@.skip(
            scheme.len() as int,
        ));
    }
    let text = string_of(data.as_slice());
    match base64_decode(text.as_str()) {
        None => Err(ImageDataError::DecodeFailed),
        Some(bytes) => Ok((string_of(mime.as_slice()), bytes)),
    }
}

/// The reasoning and the answer in the text of a response. With a closing
/// thinking tag, the reasoning is what stands before the first one, without
/// opening tags and trimmed, and the answer is what follows it, trimmed.
/// Without one, there is no reasoning and the answer is the whole text.
pub open spec fn reasoning_and_content(content: Seq<char>, reasoning: Seq<char>, answer: Seq<char>) -> bool {
    if exists|i: int| first_close(content, i) {
        exists|i: int|
            first_close(content, i) && reasoning == trimmed(
                without(content.take(i), "<thinking>"@),
            ) && answer == trimmed(content.skip(i + "</thinking>"@.len()))
    } else {
        reasoning.len() == 0 && answer == content
    }
}

/// Whether `i` is the first position of a closing thinking tag in `content`.
pub open spec fn first_close(content: Seq<char>, i: int) -> bool {
    occurs_at(content, "</thinking>"@, i) && forall|j: int|
        0 <= j < i ==> !occurs_at(content, "</thinking>"@, j)
}

/// Separates the reasoning from the answer in the text of a response.
pub fn parse_gemini_response_for_reasoning_and_content(content: &str) -> (r: (String, String))
    ensures
        reasoning_and_content(content@, r.0@, r.1@),
{
    let v = chars_of(content);
    let close = chars_of("</thinking>");
    let open = chars_of("<thinking>");
    match find(v.as_slice(), close.as_slice()) {
        Some(end) => {
            proof {
                assert(occurs_at(v@, close@, end as int));
                assert(close@.len() == close.len());
                assert(end + close.len() <= v.len());
                assert(first_close(v@, end as int));
            }
            let head = copy_range(v.as_slice(), 0, end);
            let cleaned = remove_all(head.as_slice(), open.as_slice());
            let reasoning = trim(cleaned.as_slice());
            let tail = copy_range(v.as_slice(), end + close.len(), v.len());
            let answer = trim(tail.as_slice());
            proof {
                assert(head@ == v@.take(end as int));
                assert(tail@ == v@.skip(end + close.len()));
            }
            (string_of(reasoning.as_slice()), string_of(answer.as_slice()))
        },
        None => {
            proof {
                assert forall|i: int| !first_close(v@, i) by {
                    if first_close(v@, i) {
                        assert(crate::utils::text::contains(v@, close@));
                    }
                }
            }
            (String::new(), content.to_string())
        },
    }
}

/// The token counts that stand in for those the provider did not give: the
/// estimate for the text as it came, the estimate for the text as it is
/// handed on, and their sum.
pub open spec fn estimated_usage(content: Seq<char>) -> Usage {
    let prompt = estimated_tokens(byte_count(content) as nat) as u32;
    let completion = estimated_tokens(byte_count(deobfuscated(content)) as nat) as u32;
    Usage {
        prompt_tokens: prompt,
        completion_tokens: completion,
        total_tokens: token_sum(prompt, completion),
    }
}

/// Puts the text of a reply into the client's format: the text without
/// its obfuscation, under the token counts given or else estimated.
pub fn convert_to_openai_format(content: &str, model: &str, usage_info: Option<Usage>, created: u64) -> (response:
    ChatCompletionResponse)
    ensures
        is_text_completion(
            response,
            deobfuscated(content@),
            model@,
            created,
            Some(
                match usage_info {
                    Some(usage) => usage,
                    None => estimated_usage(content@),
                },
            ),
        ),
{
    let clear = deobfuscate_text(content);
    let usage = match usage_info {
        Some(usage) => usage,
        None => {
            let prompt = estimate_tokens(content) as u32;
            let completion = estimate_tokens(clear.as_str()) as u32;
            let total = if prompt > u32::MAX - completion {
                u32::MAX
            } else {
                prompt + completion
            };
            Usage { prompt_tokens: prompt, completion_tokens: completion, total_tokens: total }
        },
    };
    text_completion(clear.as_str(), model, Some(usage), created)
}

/// Puts a piece of a streamed reply into the client's format: the piece
/// without its obfuscation, unless nothing is left of it, and the stop
/// reason on the last piece. The caller frames the chunk as an event.
pub fn convert_chunk_to_openai(chunk: &str, model: &str, is_final: bool, created: u64) -> (r:
    ChatCompletionChunk)
    ensures
        is_plain_chunk(
            r,
            model@,
            created,
            if deobfuscated(chunk@).len() == 0 {
                None
            } else {
                Some(deobfuscated(chunk@))
            },
            if is_final {
                Some("stop"@)
            } else {
                None
            },
        ),
{
    let clear = deobfuscate_text(chunk);
    let content = if clear.as_str().is_empty() {
        None
    } else {
        Some(clear)
    };
    let reason = if is_final {
        Some("stop".to_string())
    } else {
        None
    };
    plain_chunk(content, model, reason, created)
}

} // verus!
