//! Message shapes of the secondary backend.

use vstd::prelude::*;

verus! {

/// The address of an image.
#[derive(Debug, Clone)]
pub struct ImageUrl {
    pub url: String,
}

/// One part of a message with several parts.
#[derive(Debug, Clone)]
pub enum ContentPart {
    Image { image_url: ImageUrl },
    Text { text: String },
}

/// The content of a message: plain text, or parts.
#[derive(Debug, Clone)]
pub enum MessageContent {
    Text(String),
    Parts(Vec<ContentPart>),
}

/// A message as clients send it.
#[derive(Debug, Clone)]
pub struct OpenAIMessage {
    pub role: String,
    pub content: MessageContent,
}

/// Token counts of one completion.
#[derive(Debug, Clone, Copy, PartialEq, Eq, Structural)]
pub struct TokenUsage {
    pub completion_tokens: i32,
    pub prompt_tokens: i32,
    pub total_tokens: i32,
}

/// A message as the provider takes it. The role is `user` or `model`.
#[derive(Debug, Clone)]
pub struct GeminiMessage {
    pub role: String,
    pub content: String,
    pub name: Option<String>,
}

/// The default for the number of candidates considered per token.
pub fn default_gemini_top_k() -> (r: Option<i32>)
    ensures
        r == Some(40i32),
{
    Some(40)
}

/// The default ceiling of output tokens.
pub fn default_max_output_tokens() -> (r: Option<i32>)
    ensures
        r == Some(2048i32),
{
    Some(2048)
}

} // verus!
