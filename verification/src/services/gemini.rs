//! Translation of chat requests and responses for the provider's native
//! endpoint.
//!
//! The content of a client message arrives told apart by shape; free-form
//! JSON stays JSON text. Sampling parameters are not read here.

use crate::models::schemas::{
    opt_view, ChatChoice, ChatCompletionResponse, ChatMessage, ContentItem, ContentValue,
    FunctionCall, GeminiContent, GeminiFunctionDeclaration, GeminiGenerationConfig,
    GeminiInlineData, GeminiPart, GeminiRequest, GeminiResponse, GeminiSafetySetting, GeminiTool,
    ShapedMessage, Tool, ToolCall, Usage,
};
use crate::utils::cache::{json_string, json_string_of};
use crate::utils::text::{
    append_chars, append_str, chars_of, concat_all, copy_range, matches_at,
    occurs_at, starts_with, str_eq, string_of, views,
};
use vstd::prelude::*;

verus! {

/// Where the provider's native endpoint lives.
pub const GEMINI_BASE_URL: &'static str = "https://generativelanguage.googleapis.com/v1beta";

/// The suffix that marks a model as served with search.
pub const SEARCH_SUFFIX: &'static str = "-search";

/// The models that are offered when the provider's list cannot be had.
pub open spec fn default_models() -> Seq<Seq<char>> {
    seq![
        "gemini-1.5-pro"@,
        "gemini-1.5-pro-exp-0827"@,
        "gemini-1.5-flash"@,
        "gemini-1.5-flash-8b"@,
        "gemini-2.0-flash-exp"@,
        "text-embedding-004"@,
    ]
}

/// The models that are offered when the provider's list cannot be had.
pub fn get_default_models() -> (r: Vec<String>)
    ensures
        views(r@) == default_models(),
{
    let mut r: Vec<String> = Vec::new();
    r.push("gemini-1.5-pro".to_string());
    r.push("gemini-1.5-pro-exp-0827".to_string());
    r.push("gemini-1.5-flash".to_string());
    r.push("gemini-1.5-flash-8b".to_string());
    r.push("gemini-2.0-flash-exp".to_string());
    r.push("text-embedding-004".to_string());
    proof {
        assert(views(r@) =~= default_models());
    }
    r
}

/// The harm categories for which blocking is switched off.
pub open spec fn unblocked_categories() -> Seq<Seq<char>> {
    seq![
        "HARM_CATEGORY_HARASSMENT"@,
        "HARM_CATEGORY_HATE_SPEECH"@,
        "HARM_CATEGORY_SEXUALLY_EXPLICIT"@,
        "HARM_CATEGORY_DANGEROUS_CONTENT"@,
    ]
}

/// Whether `settings` switches blocking off for each of the categories, in
/// order.
pub open spec fn blocks_nothing(settings: Seq<GeminiSafetySetting>) -> bool {
    &&& settings.len() == unblocked_categories().len()
    &&& forall|i: int|
        0 <= i < settings.len() ==> (#[trigger] settings[i]).category@ == unblocked_categories()[i]
            && settings[i].threshold@ == "BLOCK_NONE"@
}

/// The safety settings sent with every request.
pub fn get_safety_settings() -> (r: Vec<GeminiSafetySetting>)
    ensures
        blocks_nothing(r@),
{
    let mut r: Vec<GeminiSafetySetting> = Vec::new();
    r.push(
        GeminiSafetySetting {
            category: "HARM_CATEGORY_HARASSMENT".to_string(),
            threshold: "BLOCK_NONE".to_string(),
        },
    );
    r.push(
        GeminiSafetySetting {
            category: "HARM_CATEGORY_HATE_SPEECH".to_string(),
            threshold: "BLOCK_NONE".to_string(),
        },
    );
    r.push(
        GeminiSafetySetting {
            category: "HARM_CATEGORY_SEXUALLY_EXPLICIT".to_string(),
            threshold: "BLOCK_NONE".to_string(),
        },
    );
    r.push(
        GeminiSafetySetting {
            category: "HARM_CATEGORY_DANGEROUS_CONTENT".to_string(),
            threshold: "BLOCK_NONE".to_string(),
        },
    );
    r
}

/// `s` without the occurrences of `pat`, found from left to right. An empty
/// `pat` takes nothing out.
pub open spec fn without(s: Seq<char>, pat: Seq<char>) -> Seq<char>
    decreases s.len(),
{
    if pat.len() == 0 || s.len() == 0 {
        s
    } else if occurs_at(s, pat, 0) {
        without(s.skip(pat.len() as int), pat)
    } else {
        seq![s[0]] + without(s.skip(1), pat)
    }
}

/// Takes every occurrence of `pat` out of `s`.
pub fn remove_all(s: &[char], pat: &[char]) -> (r: Vec<char>)
    ensures
        r@ == without(s@, pat@),
{
    let mut r: Vec<char> = Vec::new();
    if pat.len() == 0 {
        append_chars(&mut r, s);
        return r;
    }
    let mut i: usize = 0;
    proof {
        assert(s@.skip(0) == s@);
    }
    while i < s.len()
        invariant
            i <= s.len(),
            pat.len() > 0,
            r@ + without(s@.skip(i as int), pat@) == without(s@, pat@),
        decreases s.len() - i,
    {
        let ghost rest = s@.skip(i as int);
        if matches_at(s, pat, i) {
            proof {
                assert(s@.subrange(i as int, i + pat.len()) == rest.subrange(0, pat.len() as int));
                assert(occurs_at(rest, pat@, 0));
                assert(rest.skip(pat.len() as int) == s@.skip(i + pat.len()));
            }
            i += pat.len();
        } else {
            proof {
                if i + pat.len() <= s.len() {
                    assert(s@.subrange(i as int, i + pat.len()) == rest.subrange(
                        0,
                        pat.len() as int,
                    ));
                }
                assert(!occurs_at(rest, pat@, 0));
                assert(rest.skip(1) == s@.skip(i as int + 1));
                assert(r@.push(s@[i as int]) + without(rest.skip(1), pat@) == r@ + (seq![rest[0]]
                    + without(rest.skip(1), pat@)));
            }
            r.push(s[i]);
            i += 1;
        }
    }
    proof {
        assert(r@ + Seq::<char>::empty() == r@);
    }
    r
}

/// The name under which the provider knows a model: the name without the
/// search suffix.
pub open spec fn upstream_name(model: Seq<char>) -> Seq<char> {
    without(model, SEARCH_SUFFIX@)
}

/// The name under which the provider knows a model.
pub fn upstream_model_name(model: &str) -> (r: String)
    ensures
        r@ == upstream_name(model@),
{
    let m = chars_of(model);
    let p = chars_of(SEARCH_SUFFIX);
    let out = remove_all(m.as_slice(), p.as_slice());
    string_of(out.as_slice())
}

/// The address of the completion endpoint for a model.
pub open spec fn completion_url_of(model: Seq<char>, streaming: bool) -> Seq<char> {
    GEMINI_BASE_URL@ + "/models/"@ + upstream_name(model) + (if streaming {
        ":streamGenerateContent"@
    } else {
        ":generateContent"@
    })
}

/// The address of the completion endpoint for a model.
pub fn completion_url(model: &str, streaming: bool) -> (r: String)
    ensures
        r@ == completion_url_of(model@, streaming),
{
    let mut out: Vec<char> = Vec::new();
    append_str(&mut out, GEMINI_BASE_URL);
    append_str(&mut out, "/models/");
    let name = upstream_model_name(model);
    append_str(&mut out, name.as_str());
    if streaming {
        append_str(&mut out, ":streamGenerateContent");
    } else {
        append_str(&mut out, ":generateContent");
    }
    string_of(out.as_slice())
}

/// The address of the model list.
pub fn models_url() -> (r: String)
    ensures
        r@ == GEMINI_BASE_URL@ + "/models"@,
{
    let mut out: Vec<char> = Vec::new();
    append_str(&mut out, GEMINI_BASE_URL);
    append_str(&mut out, "/models");
    string_of(out.as_slice())
}

/// The address of the embedding endpoint for a model.
pub fn embedding_url(model: &str) -> (r: String)
    ensures
        r@ == GEMINI_BASE_URL@ + "/models/"@ + model@ + ":embedContent"@,
{
    let mut out: Vec<char> = Vec::new();
    append_str(&mut out, GEMINI_BASE_URL);
    append_str(&mut out, "/models/");
    append_str(&mut out, model);
    append_str(&mut out, ":embedContent");
    string_of(out.as_slice())
}

/// The first position of `c` in `s`; the length of `s` if there is none.
pub open spec fn index_of(s: Seq<char>, c: char) -> int
    decreases s.len(),
{
    if s.len() == 0 {
        0
    } else if s[0] == c {
        0
    } else {
        1 + index_of(s.skip(1), c)
    }
}

/// Finds the first position of `c` in `s` at or after `from`.
pub fn find_char(s: &[char], from: usize, c: char) -> (i: usize)
    requires
        from <= s.len(),
    ensures
        from <= i <= s.len(),
        i - from == index_of(s@.skip(from as int), c),
        i < s.len() ==> s@[i as int] == c,
        forall|k: int| from <= k < i ==> s@[k] != c,
{
    let mut i: usize = from;
    while i < s.len() && s[i] != c
        invariant
            from <= i <= s.len(),
            index_of(s@.skip(from as int), c) == (i - from) + index_of(s@.skip(i as int), c),
            forall|k: int| from <= k < i ==> s@[k] != c,
        decreases s.len() - i,
    {
        proof {
            assert(s@.skip(i as int).skip(1) == s@.skip(i as int + 1));
        }
        i += 1;
    }
    i
}

/// The media type and the data of an image carried inline in a `data:`
/// address: the type runs from the scheme to the first semicolon before the
/// first comma, the data follows the first comma.
pub open spec fn inline_image(url: Seq<char>) -> Option<(Seq<char>, Seq<char>)> {
    if starts_with(url, "data:"@) && index_of(url, ',') < url.len() {
        let header = url.take(index_of(url, ',')).skip("data:"@.len() as int);
        Some((header.take(index_of(header, ';')), url.skip(index_of(url, ',') + 1)))
    } else {
        None
    }
}

/// The view of an optional pair of strings.
pub open spec fn pair_view(p: Option<(String, String)>) -> Option<(Seq<char>, Seq<char>)> {
    match p {
        Some((a, b)) => Some((a@, b@)),
        None => None,
    }
}

/// Reads the media type and the data of an inline image.
pub fn parse_base64_image(image_url: &str) -> (r: Option<(String, String)>)
    ensures
        pair_view(r) == inline_image(image_url@),
{
    let v = chars_of(image_url);
    let scheme = chars_of("data:");
    if !matches_at(v.as_slice(), scheme.as_slice(), 0) {
        return None;
    }
    proof {
        assert(v@.skip(0) == v@);
    }
    let comma = find_char(v.as_slice(), 0, ',');
    if comma >= v.len() {
        return None;
    }
    proof {
        reveal_strlit("data:");
        if comma < scheme.len() {
            assert(v@.subrange(0, scheme.len() as int)[comma as int] == scheme@[comma as int]);
        }
    }
    let header = copy_range(v.as_slice(), scheme.len(), comma);
    proof {
        assert(header@ == v@.take(comma as int).skip(scheme.len() as int));
        assert(header@.skip(0) == header@);
    }
    let semi = find_char(header.as_slice(), 0, ';');
    let mime = copy_range(header.as_slice(), 0, semi);
    let data = copy_range(v.as_slice(), comma + 1, v.len());
    proof {
        assert(mime@ == header@.take(semi as int));
        assert(data@ == v@.skip(comma as int + 1));
    }
    Some((string_of(mime.as_slice()), string_of(data.as_slice())))
}

/// The role under which the provider takes a message: `model` for what the
/// assistant said, `user` for everything else.
pub open spec fn provider_role(role: Seq<char>) -> Seq<char> {
    if role == "assistant"@ {
        "model"@
    } else {
        "user"@
    }
}

/// The role under which a provider message is shown to the client:
/// `assistant` for what the model said, `user` for everything else.
pub open spec fn client_role(role: Seq<char>) -> Seq<char> {
    if role == "model"@ {
        "assistant"@
    } else {
        "user"@
    }
}

/// What a part holds.
pub enum PartView {
    Text(Seq<char>),
    InlineData(Seq<char>, Seq<char>),
    FunctionCall(Seq<char>, Seq<char>),
    FunctionResponse(Seq<char>, Seq<char>),
}

/// What a part holds.
pub open spec fn part_view(p: GeminiPart) -> PartView {
    match p {
        GeminiPart::Text { text } => PartView::Text(text@),
        GeminiPart::InlineData { inline_data } => PartView::InlineData(
            inline_data.mime_type@,
            inline_data.data@,
        ),
        GeminiPart::FunctionCall { function_call } => PartView::FunctionCall(
            function_call.name@,
            function_call.args@,
        ),
        GeminiPart::FunctionResponse { function_response } => PartView::FunctionResponse(
            function_response.name@,
            function_response.response@,
        ),
    }
}

/// What a list of parts holds.
pub open spec fn part_views(v: Seq<GeminiPart>) -> Seq<PartView> {
    v.map_values(|p: GeminiPart| part_view(p))
}

/// The parts that one item of a content list becomes: a text item with text
/// becomes a text part, an image item with an inline image becomes inline
/// data, and everything else is left out.
pub open spec fn item_parts(item: ContentItem) -> Seq<PartView> {
    match item {
        ContentItem::Text { text: Some(t) } => seq![PartView::Text(t@)],
        ContentItem::ImageUrl { url: Some(u) } => match inline_image(u@) {
            Some((mime, data)) => seq![PartView::InlineData(mime, data)],
            None => Seq::<PartView>::empty(),
        },
        _ => Seq::<PartView>::empty(),
    }
}

/// The parts that a content list becomes.
pub open spec fn items_parts(items: Seq<ContentItem>) -> Seq<PartView>
    decreases items.len(),
{
    if items.len() == 0 {
        Seq::<PartView>::empty()
    } else {
        items_parts(items.drop_last()) + item_parts(items.last())
    }
}

/// The parts that the content of a message becomes: one text part for a
/// string, the parts of its items for a list, and one text part with the
/// JSON text for anything else.
pub open spec fn content_parts(content: Option<ContentValue>) -> Seq<PartView> {
    match content {
        None => Seq::<PartView>::empty(),
        Some(ContentValue::Text(t)) => seq![PartView::Text(t@)],
        Some(ContentValue::Items(items)) => items_parts(items@),
        Some(ContentValue::Other(json)) => seq![PartView::Text(json@)],
    }
}

/// Converts the content of a message into provider parts.
pub fn convert_message_content(content: &Option<ContentValue>) -> (r: Vec<GeminiPart>)
    ensures
        part_views(r@) == content_parts(*content),
{
    let mut parts: Vec<GeminiPart> = Vec::new();
    match content {
        None => {},
        Some(ContentValue::Text(t)) => {
            parts.push(GeminiPart::Text { text: t.clone() });
            proof {
                assert(part_views(parts@) =~= seq![PartView::Text(t@)]);
            }
        },
        Some(ContentValue::Other(json)) => {
            parts.push(GeminiPart::Text { text: json.clone() });
            proof {
                assert(part_views(parts@) =~= seq![PartView::Text(json@)]);
            }
        },
        Some(ContentValue::Items(items)) => {
            let mut i: usize = 0;
            proof {
                assert(items@.take(0) == Seq::<ContentItem>::empty());
                assert(part_views(parts@) =~= Seq::<PartView>::empty());
            }
            while i < items.len()
                invariant
                    i <= items.len(),
                    part_views(parts@) == items_parts(items@.take(i as int)),
                decreases items.len() - i,
            {
                let ghost before = part_views(parts@);
                proof {
                    assert(items@.take(i as int + 1).drop_last() == items@.take(i as int));
                    assert(items@.take(i as int + 1).last() == items@[i as int]);
                }
                match &items[i] {
                    ContentItem::Text { text: Some(t) } => {
                        parts.push(GeminiPart::Text { text: t.clone() });
                        proof {
                            assert(part_views(parts@) == before.push(PartView::Text(t@)));
                            assert(before.push(PartView::Text(t@)) == before + seq![
                                PartView::Text(t@),
                            ]);
                        }
                    },
                    ContentItem::ImageUrl { url: Some(u) } => {
                        match parse_base64_image(u.as_str()) {
                            Some((mime_type, data)) => {
                                let ghost view = PartView::InlineData(mime_type@, data@);
                                parts.push(
                                    GeminiPart::InlineData {
                                        inline_data: GeminiInlineData { mime_type, data },
                                    },
                                );
                                proof {
                                    assert(part_views(parts@) == before.push(view));
                                    assert(before.push(view) == before + seq![view]);
                                }
                            },
                            None => {
                                proof {
                                    assert(before + Seq::<PartView>::empty() == before);
                                }
                            },
                        }
                    },
                    _ => {
                        proof {
                            assert(before + Seq::<PartView>::empty() == before);
                        }
                    },
                }
                i += 1;
            }
            proof {
                assert(items@.take(items.len() as int) == items@);
            }
        },
    }
    parts
}

/// Whether `declaration` is what the function of `tool` becomes: the same
/// name, the description or an empty one, the parameters or an empty object.
pub open spec fn declares(declaration: GeminiFunctionDeclaration, tool: Tool) -> bool {
    &&& declaration.name@ == tool.function.name@
    &&& declaration.description@ == (match tool.function.description {
        Some(d) => d@,
        None => ""@,
    })
    &&& declaration.parameters@ == (match tool.function.parameters {
        Some(p) => p@,
        None => "{}"@,
    })
}

/// Whether `converted` is what the tools of a request become: nothing
/// without tools, else one set with a declaration for each tool, in order.
pub open spec fn tools_converted(converted: Option<Vec<GeminiTool>>, tools: Option<Vec<Tool>>) -> bool {
    match tools {
        None => converted is None,
        Some(list) => converted is Some && converted->0@.len() == 1
            && converted->0@[0].function_declarations@.len() == list@.len() && forall|i: int|
            0 <= i < list@.len() ==> declares(
                #[trigger] converted->0@[0].function_declarations@[i],
                list@[i],
            ),
    }
}

fn convert_tools(tools: &Option<Vec<Tool>>) -> (r: Option<Vec<GeminiTool>>)
    ensures
        tools_converted(r, *tools),
{
    match tools {
        None => None,
        Some(list) => {
            let mut declarations: Vec<GeminiFunctionDeclaration> = Vec::new();
            let mut i: usize = 0;
            while i < list.len()
                invariant
                    i <= list.len(),
                    declarations@.len() == i,
                    forall|k: int| 0 <= k < i ==> declares(#[trigger] declarations@[k], list@[k]),
                decreases list.len() - i,
            {
                let tool = &list[i];
                let description = match &tool.function.description {
                    Some(d) => d.clone(),
                    None => "".to_string(),
                };
                let parameters = match &tool.function.parameters {
                    Some(p) => p.clone(),
                    None => "{}".to_string(),
                };
                declarations.push(
                    GeminiFunctionDeclaration {
                        name: tool.function.name.clone(),
                        description,
                        parameters,
                    },
                );
                i += 1;
            }
            let mut sets: Vec<GeminiTool> = Vec::new();
            sets.push(GeminiTool { function_declarations: declarations });
            Some(sets)
        },
    }
}

/// The parts of the message at position `i` of a request: those of its
/// content, and, for the first message when a suffix is given and its first
/// part is text, with a space and the suffix added to that text.
pub open spec fn request_parts(
    messages: Seq<ShapedMessage>,
    suffix: Option<Seq<char>>,
    i: int,
) -> Seq<PartView> {
    let parts = content_parts(messages[i].content);
    if i == 0 && suffix is Some && parts.len() > 0 && parts[0] is Text {
        parts.update(0, PartView::Text(parts[0]->Text_0 + " "@ + suffix->0))
    } else {
        parts
    }
}

/// Whether `request` is what a chat request becomes for the provider: one
/// turn per message with the provider's role and the converted parts, one
/// candidate, the ceiling of output tokens, blocking switched off, and the
/// converted tools.
pub open spec fn request_converted(
    request: GeminiRequest,
    messages: Seq<ShapedMessage>,
    max_tokens: Option<u32>,
    tools: Option<Vec<Tool>>,
    suffix: Option<Seq<char>>,
) -> bool {
    &&& request.contents@.len() == messages.len()
    &&& forall|i: int|
        0 <= i < messages.len() ==> (#[trigger] request.contents@[i]).role@ == provider_role(
            messages[i].role@,
        ) && part_views(request.contents@[i].parts@) == request_parts(messages, suffix, i)
    &&& request.generation_config is Some
    &&& request.generation_config->0.max_output_tokens == max_tokens
    &&& request.generation_config->0.candidate_count == Some(1u32)
    &&& request.generation_config->0.top_k is None
    &&& request.generation_config->0.stop_sequences is None
    &&& request.safety_settings is Some
    &&& blocks_nothing(request.safety_settings->0@)
    &&& tools_converted(request.tools, tools)
    &&& request.tool_config is None
}

/// Converts a chat request into a provider request. `random_suffix`, if
/// given, is added to the first text of the conversation.
pub fn convert_to_gemini_request(
    messages: &[ShapedMessage],
    max_tokens: Option<u32>,
    tools: &Option<Vec<Tool>>,
    random_suffix: Option<&str>,
) -> (request: GeminiRequest)
    ensures
        request_converted(
            request,
            messages@,
            max_tokens,
            *tools,
            crate::utils::auth::str_view(random_suffix),
        ),
{
    let ghost suffix = crate::utils::auth::str_view(random_suffix);
    let mut contents: Vec<GeminiContent> = Vec::new();
    let mut i: usize = 0;
    while i < messages.len()
        invariant
            i <= messages.len(),
            suffix == crate::utils::auth::str_view(random_suffix),
            contents@.len() == i,
            forall|k: int|
                0 <= k < i ==> (#[trigger] contents@[k]).role@ == provider_role(messages@[k].role@)
                    && part_views(contents@[k].parts@) == request_parts(messages@, suffix, k),
        decreases messages.len() - i,
    {
        let message = &messages[i];
        let role = if str_eq(message.role.as_str(), "assistant") {
            "model"
        } else {
            "user"
        };
        let mut parts = convert_message_content(&message.content);
        if i == 0 && parts.len() > 0 {
            match random_suffix {
                Some(s) => {
                    let ghost before = part_views(parts@);
                    let first = parts.remove(0);
                    match first {
                        GeminiPart::Text { text } => {
                            let mut t = chars_of(text.as_str());
                            append_str(&mut t, " ");
                            append_str(&mut t, s);
                            parts.insert(0, GeminiPart::Text { text: string_of(t.as_slice()) });
                            proof {
                                assert(part_views(parts@) =~= before.update(
                                    0,
                                    PartView::Text(text@ + " "@ + s@),
                                ));
                            }
                        },
                        other => {
                            parts.insert(0, other);
                            proof {
                                assert(part_views(parts@) =~= before);
                            }
                        },
                    }
                },
                None => {},
            }
        }
        contents.push(GeminiContent { role: role.to_string(), parts });
        i += 1;
    }
    GeminiRequest {
        contents,
        generation_config: Some(
            GeminiGenerationConfig {
                top_k: None,
                candidate_count: Some(1),
                max_output_tokens: max_tokens,
                stop_sequences: None,
            },
        ),
        safety_settings: Some(get_safety_settings()),
        tools: convert_tools(tools),
        tool_config: None,
    }
}

/// Calls `Uuid::new_v4` and writes the identifier in its hyphenated form,
/// which has 36 characters. The identifier is random.
#[verifier::external_body]
pub(crate) fn fresh_uuid() -> (r: String)
    ensures
        r@.len() == 36,
{
    uuid::Uuid::new_v4().to_string()
}

/// The texts of the text parts, in order.
pub open spec fn text_parts(parts: Seq<GeminiPart>) -> Seq<Seq<char>>
    decreases parts.len(),
{
    if parts.len() == 0 {
        Seq::<Seq<char>>::empty()
    } else {
        match parts.last() {
            GeminiPart::Text { text } => text_parts(parts.drop_last()).push(text@),
            _ => text_parts(parts.drop_last()),
        }
    }
}

/// The name and arguments of the function-call parts, in order.
pub open spec fn call_parts(parts: Seq<GeminiPart>) -> Seq<(Seq<char>, Seq<char>)>
    decreases parts.len(),
{
    if parts.len() == 0 {
        Seq::<(Seq<char>, Seq<char>)>::empty()
    } else {
        match parts.last() {
            GeminiPart::FunctionCall { function_call } => call_parts(parts.drop_last()).push(
                (function_call.name@, function_call.args@),
            ),
            _ => call_parts(parts.drop_last()),
        }
    }
}

/// Whether `calls` are fresh tool calls for the given functions: each a
/// function call with the name and arguments, under an identifier that
/// begins with `call_`.
pub open spec fn calls_for(calls: Seq<ToolCall>, functions: Seq<(Seq<char>, Seq<char>)>) -> bool {
    &&& calls.len() == functions.len()
    &&& forall|i: int|
        0 <= i < calls.len() ==> (#[trigger] calls[i]).function.name@ == functions[i].0
            && calls[i].function.arguments@ == functions[i].1 && calls[i].tool_type@
            == "function"@ && starts_with(calls[i].id@, "call_"@)
}

/// Whether `message` is what a provider turn becomes for the client: the
/// client's role, the texts of the turn joined into one JSON string if there
/// are any, and a tool call for each function call if there are any.
pub open spec fn message_converted(message: ChatMessage, content: GeminiContent) -> bool {
    &&& message.role@ == client_role(content.role@)
    &&& opt_view(message.content) == (if text_parts(content.parts@).len() == 0 {
        None
    } else {
        Some(json_string_of(concat_all(text_parts(content.parts@))))
    })
    &&& message.name is None
    &&& message.tool_call_id is None
    &&& if call_parts(content.parts@).len() == 0 {
        message.tool_calls is None
    } else {
        message.tool_calls is Some && calls_for(message.tool_calls->0@, call_parts(content.parts@))
    }
}

/// Converts a provider turn into a client message.
pub fn convert_gemini_content_to_message(content: &GeminiContent) -> (message: ChatMessage)
    ensures
        message_converted(message, *content),
{
    let mut text: Vec<char> = Vec::new();
    let mut any_text = false;
    let mut calls: Vec<ToolCall> = Vec::new();
    let mut i: usize = 0;
    proof {
        assert(content.parts@.take(0) == Seq::<GeminiPart>::empty());
    }
    while i < content.parts.len()
        invariant
            i <= content.parts.len(),
            text@ == concat_all(text_parts(content.parts@.take(i as int))),
            any_text == (text_parts(content.parts@.take(i as int)).len() > 0),
            calls_for(calls@, call_parts(content.parts@.take(i as int))),
        decreases content.parts.len() - i,
    {
        proof {
            assert(content.parts@.take(i as int + 1).drop_last() == content.parts@.take(i as int));
            assert(content.parts@.take(i as int + 1).last() == content.parts@[i as int]);
        }
        match &content.parts[i] {
            GeminiPart::Text { text: t } => {
                append_str(&mut text, t.as_str());
                proof {
                    let seen = text_parts(content.parts@.take(i as int));
                    assert(text_parts(content.parts@.take(i as int + 1)) == seen.push(t@));
                    assert(seen.push(t@).drop_last() == seen);
                }
                any_text = true;
            },
            GeminiPart::FunctionCall { function_call } => {
                let mut id: Vec<char> = Vec::new();
                append_str(&mut id, "call_");
                let unique = fresh_uuid();
                append_str(&mut id, unique.as_str());
                proof {
                    assert(id@.subrange(0, "call_"@.len() as int) == "call_"@);
                }
                calls.push(
                    ToolCall {
                        id: string_of(id.as_slice()),
                        tool_type: "function".to_string(),
                        function: FunctionCall {
                            name: function_call.name.clone(),
                            arguments: function_call.args.clone(),
                        },
                    },
                );
            },
            _ => {},
        }
        i += 1;
    }
    proof {
        assert(content.parts@.take(content.parts.len() as int) == content.parts@);
    }
    let role = if str_eq(content.role.as_str(), "model") {
        "assistant"
    } else {
        "user"
    };
    let body = if any_text {
        let joined = string_of(text.as_slice());
        Some(json_string(joined.as_str()))
    } else {
        None
    };
    let tool_calls = if calls.len() == 0 {
        None
    } else {
        Some(calls)
    };
    ChatMessage {
        role: role.to_string(),
        content: body,
        name: None,
        tool_calls,
        tool_call_id: None,
    }
}

/// The token counts that a provider response reports, with zero for what it
/// leaves out.
pub open spec fn usage_of(response: GeminiResponse) -> Option<Usage> {
    match response.usage_metadata {
        Some(meta) => Some(
            Usage {
                prompt_tokens: count_or_zero(meta.prompt_token_count),
                completion_tokens: count_or_zero(meta.candidates_token_count),
                total_tokens: count_or_zero(meta.total_token_count),
            },
        ),
        None => None,
    }
}

/// A count, or zero.
pub open spec fn count_or_zero(n: Option<u32>) -> u32 {
    match n {
        Some(x) => x,
        None => 0,
    }
}

/// Whether `response` is what a provider response becomes for the client: a
/// completion for `model` created at `created`, under an identifier that
/// begins with `chatcmpl-`, with one choice per candidate, numbered in
/// order, and the token counts.
pub open spec fn response_converted(
    response: ChatCompletionResponse,
    from: GeminiResponse,
    model: Seq<char>,
    created: u64,
) -> bool {
    &&& starts_with(response.id@, "chatcmpl-"@)
    &&& response.object@ == "chat.completion"@
    &&& response.created == created
    &&& response.model@ == model
    &&& response.system_fingerprint is None
    &&& response.usage == usage_of(from)
    &&& response.choices@.len() == from.candidates@.len()
    &&& forall|i: int|
        0 <= i < response.choices@.len() ==> (#[trigger] response.choices@[i]).index == i
            && message_converted(response.choices@[i].message, from.candidates@[i].content)
            && opt_view(response.choices@[i].finish_reason) == opt_view(
            from.candidates@[i].finish_reason,
        ) && response.choices@[i].logprobs is None
}

/// Converts a provider response into a completion for the client. A response
/// with more candidates than a 32-bit number counts is not converted.
pub fn convert_gemini_response(gemini_response: &GeminiResponse, model: &str, created: u64) -> (r:
    Option<ChatCompletionResponse>)
    ensures
        r is Some <==> gemini_response.candidates@.len() <= u32::MAX,
        r is Some ==> response_converted(r->0, *gemini_response, model@, created),
{
    if gemini_response.candidates.len() > u32::MAX as usize {
        return None;
    }
    let mut choices: Vec<ChatChoice> = Vec::new();
    let mut i: usize = 0;
    while i < gemini_response.candidates.len()
        invariant
            i <= gemini_response.candidates.len(),
            gemini_response.candidates.len() <= u32::MAX,
            choices@.len() == i,
            forall|k: int|
                0 <= k < i ==> (#[trigger] choices@[k]).index == k && message_converted(
                    choices@[k].message,
                    gemini_response.candidates@[k].content,
                ) && opt_view(choices@[k].finish_reason) == opt_view(
                    gemini_response.candidates@[k].finish_reason,
                ) && choices@[k].logprobs is None,
        decreases gemini_response.candidates.len() - i,
    {
        let candidate = &gemini_response.candidates[i];
        let message = convert_gemini_content_to_message(&candidate.content);
        let finish_reason = match &candidate.finish_reason {
            Some(reason) => Some(reason.clone()),
            None => None,
        };
        choices.push(ChatChoice { index: i as u32, message, finish_reason, logprobs: None });
        i += 1;
    }
    let usage = match gemini_response.usage_metadata {
        Some(meta) => Some(
            Usage {
                prompt_tokens: match meta.prompt_token_count {
                    Some(n) => n,
                    None => 0,
                },
                completion_tokens: match meta.candidates_token_count {
                    Some(n) => n,
                    None => 0,
                },
                total_tokens: match meta.total_token_count {
                    Some(n) => n,
                    None => 0,
                },
            },
        ),
        None => None,
    };
    let mut id: Vec<char> = Vec::new();
    append_str(&mut id, "chatcmpl-");
    let unique = fresh_uuid();
    append_str(&mut id, unique.as_str());
    proof {
        assert(id@.subrange(0, "chatcmpl-"@.len() as int) == "chatcmpl-"@);
    }
    Some(
        ChatCompletionResponse {
            id: string_of(id.as_slice()),
            object: "chat.completion".to_string(),
            created,
            model: model.to_string(),
            choices,
            usage,
            system_fingerprint: None,
        },
    )
}

/// The model names of a provider list, without the `models/` prefix in any
/// place.
pub fn model_names(ids: &Vec<String>) -> (r: Vec<String>)
    ensures
        r@.len() == ids@.len(),
        forall|i: int| 0 <= i < r@.len() ==> (#[trigger] r@[i])@ == without(ids@[i]@, "models/"@),
{
    let prefix = chars_of("models/");
    let mut r: Vec<String> = Vec::new();
    let mut i: usize = 0;
    while i < ids.len()
        invariant
            i <= ids.len(),
            prefix@ == "models/"@,
            r@.len() == i,
            forall|k: int| 0 <= k < i ==> (#[trigger] r@[k])@ == without(ids@[k]@, "models/"@),
        decreases ids.len() - i,
    {
        let v = chars_of(ids[i].as_str());
        let out = remove_all(v.as_slice(), prefix.as_slice());
        r.push(string_of(out.as_slice()));
        i += 1;
    }
    r
}

} // verus!
