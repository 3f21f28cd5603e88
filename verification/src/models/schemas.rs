//! Request and response shapes of the client-facing protocol.
//!
//! Free-form JSON (message content, log probabilities) is carried as JSON
//! text, so that every shape here is made of plain values.

use vstd::prelude::*;

verus! {

/// Token counts of one completion.
#[derive(Debug, Clone, Copy, PartialEq, Eq, Structural)]
pub struct Usage {
    pub prompt_tokens: u32,
    pub completion_tokens: u32,
    pub total_tokens: u32,
}

/// A function invocation requested by the model.
#[derive(Debug, Clone)]
pub struct FunctionCall {
    pub name: String,
    pub arguments: String,
}

pub struct FunctionCallView {
    pub name: Seq<char>,
    pub arguments: Seq<char>,
}

impl View for FunctionCall {
    type V = FunctionCallView;

    open spec fn view(&self) -> FunctionCallView {
        FunctionCallView { name: self.name@, arguments: self.arguments@ }
    }
}

impl FunctionCall {
    /// A copy with the same contents.
    pub fn duplicate(&self) -> (r: Self)
        ensures
            r@ == self@,
    {
        FunctionCall { name: self.name.clone(), arguments: self.arguments.clone() }
    }
}

/// A tool call attached to an assistant message.
#[derive(Debug, Clone)]
pub struct ToolCall {
    pub id: String,
    pub tool_type: String,
    pub function: FunctionCall,
}

pub struct ToolCallView {
    pub id: Seq<char>,
    pub tool_type: Seq<char>,
    pub function: FunctionCallView,
}

impl View for ToolCall {
    type V = ToolCallView;

    open spec fn view(&self) -> ToolCallView {
        ToolCallView { id: self.id@, tool_type: self.tool_type@, function: self.function@ }
    }
}

impl ToolCall {
    /// A copy with the same contents.
    pub fn duplicate(&self) -> (r: Self)
        ensures
            r@ == self@,
    {
        ToolCall {
            id: self.id.clone(),
            tool_type: self.tool_type.clone(),
            function: self.function.duplicate(),
        }
    }
}

/// The views of a list of tool calls.
pub open spec fn tool_call_views(v: Seq<ToolCall>) -> Seq<ToolCallView> {
    v.map_values(|t: ToolCall| t@)
}

/// The view of an optional string.
pub open spec fn opt_view(s: Option<String>) -> Option<Seq<char>> {
    match s {
        Some(x) => Some(x@),
        None => None,
    }
}

/// A copy of an optional string.
pub fn duplicate_opt(s: &Option<String>) -> (r: Option<String>)
    ensures
        opt_view(r) == opt_view(*s),
{
    match s {
        Some(x) => Some(x.clone()),
        None => None,
    }
}

/// One message of a conversation. `content` is JSON text: a string or an
/// array of content parts.
#[derive(Debug, Clone)]
pub struct ChatMessage {
    pub role: String,
    pub content: Option<String>,
    pub name: Option<String>,
    pub tool_calls: Option<Vec<ToolCall>>,
    pub tool_call_id: Option<String>,
}

pub struct ChatMessageView {
    pub role: Seq<char>,
    pub content: Option<Seq<char>>,
    pub name: Option<Seq<char>>,
    pub tool_calls: Option<Seq<ToolCallView>>,
    pub tool_call_id: Option<Seq<char>>,
}

impl View for ChatMessage {
    type V = ChatMessageView;

    open spec fn view(&self) -> ChatMessageView {
        ChatMessageView {
            role: self.role@,
            content: opt_view(self.content),
            name: opt_view(self.name),
            tool_calls: match self.tool_calls {
                Some(v) => Some(tool_call_views(v@)),
                None => None,
            },
            tool_call_id: opt_view(self.tool_call_id),
        }
    }
}

impl ChatMessage {
    /// A copy with the same contents.
    pub fn duplicate(&self) -> (r: Self)
        ensures
            r@ == self@,
    {
        let tool_calls = match &self.tool_calls {
            Some(v) => {
                let mut out: Vec<ToolCall> = Vec::new();
                let mut i: usize = 0;
                while i < v.len()
                    invariant
                        i <= v.len(),
                        tool_call_views(out@) == tool_call_views(v@).take(i as int),
                    decreases v.len() - i,
                {
                    out.push(v[i].duplicate());
                    i += 1;
                    proof {
                        assert(tool_call_views(v@).take(i as int) == tool_call_views(v@).take(
                            i as int - 1,
                        ).push(v@[i as int - 1]@));
                    }
                }
                proof {
                    assert(tool_call_views(v@).take(v.len() as int) == tool_call_views(v@));
                }
                Some(out)
            },
            None => None,
        };
        ChatMessage {
            role: self.role.clone(),
            content: duplicate_opt(&self.content),
            name: duplicate_opt(&self.name),
            tool_calls,
            tool_call_id: duplicate_opt(&self.tool_call_id),
        }
    }
}

/// One alternative of a completion. `logprobs` is JSON text.
#[derive(Debug, Clone)]
pub struct ChatChoice {
    pub index: u32,
    pub message: ChatMessage,
    pub finish_reason: Option<String>,
    pub logprobs: Option<String>,
}

pub struct ChatChoiceView {
    pub index: u32,
    pub message: ChatMessageView,
    pub finish_reason: Option<Seq<char>>,
    pub logprobs: Option<Seq<char>>,
}

impl View for ChatChoice {
    type V = ChatChoiceView;

    open spec fn view(&self) -> ChatChoiceView {
        ChatChoiceView {
            index: self.index,
            message: self.message@,
            finish_reason: opt_view(self.finish_reason),
            logprobs: opt_view(self.logprobs),
        }
    }
}

impl ChatChoice {
    /// A copy with the same contents.
    pub fn duplicate(&self) -> (r: Self)
        ensures
            r@ == self@,
    {
        ChatChoice {
            index: self.index,
            message: self.message.duplicate(),
            finish_reason: duplicate_opt(&self.finish_reason),
            logprobs: duplicate_opt(&self.logprobs),
        }
    }
}

/// The views of a list of choices.
pub open spec fn choice_views(v: Seq<ChatChoice>) -> Seq<ChatChoiceView> {
    v.map_values(|c: ChatChoice| c@)
}

/// A completed, non-streaming chat response.
#[derive(Debug, Clone)]
pub struct ChatCompletionResponse {
    pub id: String,
    pub object: String,
    pub created: u64,
    pub model: String,
    pub choices: Vec<ChatChoice>,
    pub usage: Option<Usage>,
    pub system_fingerprint: Option<String>,
}

pub struct ChatCompletionResponseView {
    pub id: Seq<char>,
    pub object: Seq<char>,
    pub created: u64,
    pub model: Seq<char>,
    pub choices: Seq<ChatChoiceView>,
    pub usage: Option<Usage>,
    pub system_fingerprint: Option<Seq<char>>,
}

impl View for ChatCompletionResponse {
    type V = ChatCompletionResponseView;

    open spec fn view(&self) -> ChatCompletionResponseView {
        ChatCompletionResponseView {
            id: self.id@,
            object: self.object@,
            created: self.created,
            model: self.model@,
            choices: choice_views(self.choices@),
            usage: self.usage,
            system_fingerprint: opt_view(self.system_fingerprint),
        }
    }
}

impl ChatCompletionResponse {
    /// A copy with the same contents.
    pub fn duplicate(&self) -> (r: Self)
        ensures
            r@ == self@,
    {
        let mut choices: Vec<ChatChoice> = Vec::new();
        let mut i: usize = 0;
        while i < self.choices.len()
            invariant
                i <= self.choices.len(),
                choice_views(choices@) == choice_views(self.choices@).take(i as int),
            decreases self.choices.len() - i,
        {
            choices.push(self.choices[i].duplicate());
            i += 1;
            proof {
                assert(choice_views(self.choices@).take(i as int) == choice_views(
                    self.choices@,
                ).take(i as int - 1).push(self.choices@[i as int - 1]@));
            }
        }
        proof {
            assert(choice_views(self.choices@).take(self.choices.len() as int) == choice_views(
                self.choices@,
            ));
        }
        ChatCompletionResponse {
            id: self.id.clone(),
            object: self.object.clone(),
            created: self.created,
            model: self.model.clone(),
            choices,
            usage: self.usage,
            system_fingerprint: duplicate_opt(&self.system_fingerprint),
        }
    }

    /// The total token count that the response reports, or zero.
    pub fn total_tokens(&self) -> (n: u32)
        ensures
            n == total_tokens_of(self@),
    {
        match self.usage {
            Some(u) => u.total_tokens,
            None => 0,
        }
    }
}

/// The total token count that a response reports, or zero.
pub open spec fn total_tokens_of(r: ChatCompletionResponseView) -> u32 {
    match r.usage {
        Some(u) => u.total_tokens,
        None => 0,
    }
}

/// What the engine reads of a chat request. Each message is carried as its
/// JSON text; sampling parameters pass by the engine untouched.
#[derive(Debug, Clone)]
pub struct ChatCompletionRequest {
    pub model: String,
    pub messages: Vec<String>,
    pub stream: bool,
    pub max_tokens: Option<u32>,
}

/// The name and arguments of a function call, as far as a chunk carries them.
#[derive(Debug, Clone)]
pub struct FunctionCallDelta {
    pub name: Option<String>,
    pub arguments: Option<String>,
}

/// A tool call, as far as a chunk carries it.
#[derive(Debug, Clone)]
pub struct ToolCallDelta {
    pub index: u32,
    pub id: Option<String>,
    pub tool_type: Option<String>,
    pub function: Option<FunctionCallDelta>,
}

/// The part of a message that one chunk carries.
#[derive(Debug, Clone)]
pub struct ChatMessageDelta {
    pub role: Option<String>,
    pub content: Option<String>,
    pub tool_calls: Option<Vec<ToolCallDelta>>,
}

/// One alternative of a streamed completion. `logprobs` is JSON text.
#[derive(Debug, Clone)]
pub struct ChatChoiceDelta {
    pub index: u32,
    pub delta: ChatMessageDelta,
    pub finish_reason: Option<String>,
    pub logprobs: Option<String>,
}

/// One chunk of a streamed completion.
#[derive(Debug, Clone)]
pub struct ChatCompletionChunk {
    pub id: String,
    pub object: String,
    pub created: u64,
    pub model: String,
    pub choices: Vec<ChatChoiceDelta>,
    pub system_fingerprint: Option<String>,
}

/// Whether `chunk` is the chunk that carries `content` as assistant text for
/// `model`, with the given id and creation time and nothing else.
pub open spec fn is_content_chunk(
    chunk: ChatCompletionChunk,
    id: Seq<char>,
    created: u64,
    model: Seq<char>,
    content: Seq<char>,
) -> bool {
    &&& chunk.id@ == id
    &&& chunk.object@ == "chat.completion.chunk"@
    &&& chunk.created == created
    &&& chunk.model@ == model
    &&& chunk.system_fingerprint is None
    &&& chunk.choices@.len() == 1
    &&& chunk.choices@[0].index == 0
    &&& chunk.choices@[0].finish_reason is None
    &&& chunk.choices@[0].logprobs is None
    &&& opt_view(chunk.choices@[0].delta.role) == Some("assistant"@)
    &&& opt_view(chunk.choices@[0].delta.content) == Some(content)
    &&& chunk.choices@[0].delta.tool_calls is None
}

impl ChatCompletionChunk {
    /// The chunk that carries `content` as assistant text.
    pub fn with_content(id: String, created: u64, model: String, content: String) -> (chunk: Self)
        ensures
            is_content_chunk(chunk, id@, created, model@, content@),
    {
        let mut choices: Vec<ChatChoiceDelta> = Vec::new();
        choices.push(
            ChatChoiceDelta {
                index: 0,
                delta: ChatMessageDelta {
                    role: Some("assistant".to_string()),
                    content: Some(content),
                    tool_calls: None,
                },
                finish_reason: None,
                logprobs: None,
            },
        );
        ChatCompletionChunk {
            id,
            object: "chat.completion.chunk".to_string(),
            created,
            model,
            choices,
            system_fingerprint: None,
        }
    }
}

/// One model of a model list.
#[derive(Debug, Clone)]
pub struct Model {
    pub id: String,
    pub object: String,
    pub created: u64,
    pub owned_by: String,
}

/// A model list.
#[derive(Debug, Clone)]
pub struct ModelResponse {
    pub object: String,
    pub data: Vec<Model>,
}

/// The error object of a structured error payload.
#[derive(Debug, Clone)]
pub struct ErrorDetail {
    pub message: String,
    pub error_type: String,
    pub code: Option<String>,
    pub param: Option<String>,
}

/// A structured error payload.
#[derive(Debug, Clone)]
pub struct ErrorResponse {
    pub error: ErrorDetail,
}

/// How a client constrains the use of tools.
#[derive(Debug, Clone)]
pub enum ToolChoice {
    Disabled,
    Auto,
    Required,
    Function { function: FunctionChoice },
}

/// The function that a client asks for.
#[derive(Debug, Clone)]
pub struct FunctionChoice {
    pub name: String,
}

/// What is to be embedded.
#[derive(Debug, Clone)]
pub enum EmbeddingInput {
    String(String),
    ArrayOfStrings(Vec<String>),
    ArrayOfTokens(Vec<u32>),
    ArrayOfTokenArrays(Vec<Vec<u32>>),
}

/// A request for embeddings.
#[derive(Debug, Clone)]
pub struct EmbeddingRequest {
    pub model: String,
    pub input: EmbeddingInput,
    pub encoding_format: Option<String>,
    pub dimensions: Option<u32>,
    pub user: Option<String>,
}

/// Token counts of an embedding.
#[derive(Debug, Clone, Copy, PartialEq, Eq, Structural)]
pub struct EmbeddingUsage {
    pub prompt_tokens: u32,
    pub total_tokens: u32,
}

/// Data carried inline, base64-encoded.
#[derive(Debug, Clone)]
pub struct GeminiInlineData {
    pub mime_type: String,
    pub data: String,
}

/// A function call as the provider reports it. `args` is JSON text.
#[derive(Debug, Clone)]
pub struct GeminiFunctionCall {
    pub name: String,
    pub args: String,
}

/// A function result as the provider takes it. `response` is JSON text.
#[derive(Debug, Clone)]
pub struct GeminiFunctionResponse {
    pub name: String,
    pub response: String,
}

/// One part of what the provider sends or takes.
#[derive(Debug, Clone)]
pub enum GeminiPart {
    Text { text: String },
    InlineData { inline_data: GeminiInlineData },
    FunctionCall { function_call: GeminiFunctionCall },
    FunctionResponse { function_response: GeminiFunctionResponse },
}

/// A turn of a conversation as the provider sends or takes it.
#[derive(Debug, Clone)]
pub struct GeminiContent {
    pub role: String,
    pub parts: Vec<GeminiPart>,
}

/// One harm category with the threshold applied to it.
#[derive(Debug, Clone)]
pub struct GeminiSafetySetting {
    pub category: String,
    pub threshold: String,
}

/// How the provider may call functions.
#[derive(Debug, Clone)]
pub struct GeminiFunctionCallingConfig {
    pub mode: String,
    pub allowed_function_names: Option<Vec<String>>,
}

/// The tool configuration of a provider request.
#[derive(Debug, Clone)]
pub struct GeminiToolConfig {
    pub function_calling_config: GeminiFunctionCallingConfig,
}

/// The provider's rating of one harm category.
#[derive(Debug, Clone)]
pub struct GeminiSafetyRating {
    pub category: String,
    pub probability: String,
}

/// Token counts as the provider reports them.
#[derive(Debug, Clone, Copy, PartialEq, Eq, Structural)]
pub struct GeminiUsageMetadata {
    pub prompt_token_count: Option<u32>,
    pub candidates_token_count: Option<u32>,
    pub total_token_count: Option<u32>,
}

/// What the provider says about a prompt that it did not answer.
#[derive(Debug, Clone)]
pub struct GeminiPromptFeedback {
    pub block_reason: Option<String>,
    pub safety_ratings: Option<Vec<GeminiSafetyRating>>,
}

/// One alternative of a provider response.
#[derive(Debug, Clone)]
pub struct GeminiCandidate {
    pub content: GeminiContent,
    pub finish_reason: Option<String>,
    pub index: Option<u32>,
    pub safety_ratings: Option<Vec<GeminiSafetyRating>>,
}

/// A provider response.
#[derive(Debug, Clone)]
pub struct GeminiResponse {
    pub candidates: Vec<GeminiCandidate>,
    pub usage_metadata: Option<GeminiUsageMetadata>,
    pub prompt_feedback: Option<GeminiPromptFeedback>,
}

/// Whether the service runs, and with what.
#[derive(Debug, Clone, Copy, PartialEq, Eq, Structural)]
pub struct ServiceStatus {
    pub running: bool,
    pub uptime: u64,
    pub api_keys_available: usize,
    pub cache_entries: usize,
}

/// Traffic counters as the dashboard shows them.
#[derive(Debug, Clone, Copy, PartialEq, Eq, Structural)]
pub struct ApiStats {
    pub total_requests: u64,
    pub successful_requests: u64,
    pub failed_requests: u64,
    pub tokens_used: u64,
    pub requests_per_minute: u32,
    pub requests_per_hour: u32,
    pub requests_per_day: u32,
}

/// The switches that the dashboard shows.
#[derive(Debug, Clone, Copy, PartialEq, Eq, Structural)]
pub struct ConfigInfo {
    pub fake_streaming: bool,
    pub concurrent_requests: usize,
    pub cache_enabled: bool,
    pub vertex_enabled: bool,
    pub search_mode: bool,
}

/// The version as the dashboard shows it.
#[derive(Debug, Clone)]
pub struct VersionInfo {
    pub current: String,
    pub latest: Option<String>,
    pub update_available: bool,
}

/// Everything that the dashboard shows.
#[derive(Debug, Clone)]
pub struct DashboardData {
    pub status: ServiceStatus,
    pub stats: ApiStats,
    pub config: ConfigInfo,
    pub version: VersionInfo,
}

/// A function that the model may call. `parameters` is JSON text.
#[derive(Debug, Clone)]
pub struct FunctionDefinition {
    pub name: String,
    pub description: Option<String>,
    pub parameters: Option<String>,
}

/// A tool that the model may use.
#[derive(Debug, Clone)]
pub struct Tool {
    pub tool_type: String,
    pub function: FunctionDefinition,
}

/// One item of a message whose content is a list.
#[derive(Debug, Clone)]
pub enum ContentItem {
    /// An item of type `text`, with its text if it has one.
    Text { text: Option<String> },
    /// An item of type `image_url`, with the address if it has one.
    ImageUrl { url: Option<String> },
    /// An item of another type.
    Other { item_type: String },
    /// An item without a type.
    Untyped,
}

/// The content of a message, as far as its shape matters.
#[derive(Debug, Clone)]
pub enum ContentValue {
    /// A JSON string.
    Text(String),
    /// A JSON array.
    Items(Vec<ContentItem>),
    /// Any other JSON value, as JSON text.
    Other(String),
}

/// A message with its content told apart by shape.
#[derive(Debug, Clone)]
pub struct ShapedMessage {
    pub role: String,
    pub content: Option<ContentValue>,
}

/// Generation parameters that the engine sets; sampling parameters are added
/// on the way out.
#[derive(Debug, Clone)]
pub struct GeminiGenerationConfig {
    pub top_k: Option<u32>,
    pub candidate_count: Option<u32>,
    pub max_output_tokens: Option<u32>,
    pub stop_sequences: Option<Vec<String>>,
}

impl Default for GeminiGenerationConfig {
    /// One candidate, and nothing else set.
    fn default() -> (c: Self)
        ensures
            c.top_k is None,
            c.candidate_count == Some(1u32),
            c.max_output_tokens is None,
            c.stop_sequences is None,
    {
        GeminiGenerationConfig {
            top_k: None,
            candidate_count: Some(1),
            max_output_tokens: None,
            stop_sequences: None,
        }
    }
}

/// A function as the provider takes it. `parameters` is JSON text.
#[derive(Debug, Clone)]
pub struct GeminiFunctionDeclaration {
    pub name: String,
    pub description: String,
    pub parameters: String,
}

/// A set of functions as the provider takes it.
#[derive(Debug, Clone)]
pub struct GeminiTool {
    pub function_declarations: Vec<GeminiFunctionDeclaration>,
}

/// A provider request.
#[derive(Debug, Clone)]
pub struct GeminiRequest {
    pub contents: Vec<GeminiContent>,
    pub generation_config: Option<GeminiGenerationConfig>,
    pub safety_settings: Option<Vec<GeminiSafetySetting>>,
    pub tools: Option<Vec<GeminiTool>>,
    pub tool_config: Option<GeminiToolConfig>,
}

} // verus!
