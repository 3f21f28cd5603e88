use rujimi::models::schemas::{
    ContentItem, ContentValue, EmbeddingInput, FunctionDefinition, GeminiCandidate,
    GeminiContent, GeminiFunctionCall, GeminiPart, GeminiResponse, GeminiUsageMetadata,
    ShapedMessage, Tool,
};
use rujimi::services::embedding::{embedding_content, embedding_usage, get_input_count};
use rujimi::services::gemini::{
    completion_url, convert_gemini_content_to_message, convert_gemini_response,
    convert_message_content, convert_to_gemini_request, embedding_url, get_default_models,
    model_names, models_url, parse_base64_image, upstream_model_name,
};
use rujimi::services::openai::{
    get_default_whitelist, is_search_mode_enabled, parse_sse_line, OpenAIClient, SseLineBuffer,
};
use rujimi::services::response_wrapper::{
    extract_final_answer, extract_thinking_content, GeminiResponseWrapper,
};
use rujimi::utils::response::{
    create_completion_chunk, create_final_chunk, create_models_response, done_marker,
    extract_gemini_content, extract_gemini_usage, extract_text_from_value,
    generate_random_string, gemini_from_text, openai_from_gemini, openai_from_text, TextResponse,
};

fn create_test_response(text: &str, is_thinking: bool) -> GeminiResponse {
    let text_content = if is_thinking {
        format!("<thinking>This is my thought process.</thinking>\n{}", text)
    } else {
        text.to_string()
    };
    GeminiResponse {
        candidates: vec![GeminiCandidate {
            content: GeminiContent {
                role: "model".to_string(),
                parts: vec![GeminiPart::Text { text: text_content }],
            },
            finish_reason: Some("STOP".to_string()),
            index: Some(0),
            safety_ratings: None,
        }],
        usage_metadata: Some(GeminiUsageMetadata {
            prompt_token_count: Some(10),
            candidates_token_count: Some(20),
            total_token_count: Some(30),
        }),
        prompt_feedback: None,
    }
}

#[test]
fn test_standard_model_response() {
    let response = create_test_response("Hello, world!", false);
    let wrapper = GeminiResponseWrapper::new(response);
    assert!(!wrapper.is_thinking_model);
    assert_eq!(wrapper.get_text(), Some("Hello, world!".to_string()));
    assert_eq!(wrapper.get_thoughts(), None);
}

#[test]
fn test_thinking_model_response() {
    let response = create_test_response("Hello, world!", true);
    let wrapper = GeminiResponseWrapper::new(response);
    assert!(wrapper.is_thinking_model);
    assert_eq!(wrapper.get_text(), Some("Hello, world!".to_string()));
    assert_eq!(wrapper.get_thoughts(), Some("This is my thought process.".to_string()));
}

#[test]
fn test_token_count() {
    let response = create_test_response("Test", false);
    let wrapper = GeminiResponseWrapper::new(response);
    let usage = wrapper.get_token_count().unwrap();
    assert_eq!(usage.prompt_tokens, 10);
    assert_eq!(usage.completion_tokens, 20);
    assert_eq!(usage.total_tokens, 30);
}

#[test]
fn test_finish_reason() {
    let response = create_test_response("Test", false);
    let wrapper = GeminiResponseWrapper::new(response);
    assert_eq!(wrapper.get_finish_reason(), Some("STOP".to_string()));
}

#[test]
fn test_has_content() {
    let response = create_test_response("Test", false);
    let wrapper = GeminiResponseWrapper::new(response);
    assert!(wrapper.has_content());
}

#[test]
fn test_extract_text() {
    let response = create_test_response("Test response", false);
    let wrapper = GeminiResponseWrapper::new(response);
    let generated_text = wrapper.extract_text();
    assert_eq!(generated_text.text, "Test response");
    assert_eq!(generated_text.token_count, Some(30));
    assert_eq!(generated_text.finish_reason, Some("STOP".to_string()));
}

#[test]
fn wrapper_edges() {
    let empty = GeminiResponseWrapper::new(GeminiResponse {
        candidates: vec![],
        usage_metadata: None,
        prompt_feedback: None,
    });
    assert!(!empty.has_content());
    assert!(!empty.is_blocked());
    assert_eq!(empty.get_text(), None);
    assert_eq!(empty.get_finish_reason(), None);
    assert_eq!(empty.get_token_count(), None);
    assert_eq!(empty.get_all_text_parts().len(), 0);
    assert_eq!(empty.get_function_calls().len(), 0);
    let mut blocked = create_test_response("x", false);
    blocked.candidates[0].finish_reason = Some("SAFETY".to_string());
    blocked.candidates[0].content.parts.push(GeminiPart::FunctionCall {
        function_call: GeminiFunctionCall { name: "f".to_string(), args: "{\"a\":1}".to_string() },
    });
    blocked.candidates[0].content.parts.push(GeminiPart::Text { text: "y".to_string() });
    let w = GeminiResponseWrapper::new(blocked);
    assert!(w.is_blocked());
    assert_eq!(w.get_text(), Some("xy".to_string()));
    assert_eq!(w.get_all_text_parts(), vec!["x".to_string(), "y".to_string()]);
    let calls = w.get_function_calls();
    assert_eq!(calls.len(), 1);
    assert_eq!(calls[0].function.name, "f");
    assert_eq!(calls[0].function.arguments, "{\"a\":1}");
    assert_eq!(calls[0].tool_type, "function");
    assert!(calls[0].id.starts_with("call_"));
    assert_eq!(calls[0].id.len(), 5 + 36);
}

#[test]
fn thinking_tags() {
    assert_eq!(extract_final_answer("plain"), Some("plain".to_string()));
    assert_eq!(extract_final_answer("<thinking>a</thinking> b "), Some("b".to_string()));
    assert_eq!(extract_final_answer("<thinking>a</thinking>x</thinking>  y"), Some("y".to_string()));
    assert_eq!(extract_final_answer("<thinking>only"), None);
    assert_eq!(extract_final_answer("a</thinking>   "), None);
    assert_eq!(extract_thinking_content("<thinking> t </thinking>rest"), Some("t".to_string()));
    assert_eq!(extract_thinking_content("</thinking><thinking>"), None);
    assert_eq!(extract_thinking_content("none"), None);
    assert_eq!(extract_thinking_content("<thinking></thinking>"), Some(String::new()));
}

#[test]
fn test_openai_client_creation() {
    let client = OpenAIClient::new();
    assert!(!client.get_whitelist().is_empty());
    assert!(client.get_whitelist().contains(&"model".to_string()));
    assert_eq!(get_default_whitelist().len(), 17);
}

#[test]
fn openai_test_model_validation() {
    assert!(rujimi::services::openai::is_model_supported("gemini-1.5-flash"));
    assert!(!rujimi::services::openai::is_model_supported("invalid-model"));
}

#[test]
fn embedding_test_model_validation() {
    assert!(rujimi::services::embedding::is_model_supported("text-embedding-004"));
    assert!(!rujimi::services::embedding::is_model_supported("invalid-model"));
}

#[test]
fn test_search_mode_detection() {
    let mut contents = vec![Some("Please search for information about AI".to_string())];
    assert!(is_search_mode_enabled(&contents));
    contents[0] = Some("Just a normal question".to_string());
    assert!(!is_search_mode_enabled(&contents));
    assert!(is_search_mode_enabled(&vec![None, Some("请搜索一下".to_string())]));
    assert!(is_search_mode_enabled(&vec![Some("SEARCH".to_string())]));
    assert!(!is_search_mode_enabled(&vec![None]));
}

#[test]
fn test_whitelist_management() {
    let mut client = OpenAIClient::new();
    let custom_whitelist = vec!["model".to_string(), "messages".to_string()];
    client.set_whitelist(custom_whitelist.clone());
    assert_eq!(client.get_whitelist(), custom_whitelist.as_slice());
    let fields = vec!["messages".to_string(), "extra".to_string(), "model".to_string()];
    assert_eq!(
        client.filter_request_data(&fields),
        vec!["messages".to_string(), "model".to_string()]
    );
}

#[test]
fn test_sse_line_parsing() {
    let json_data = r#"{"id":"123","object":"chat.completion.chunk","choices":[{"delta":{"content":"hello"}}]}"#;
    let line = format!("data: {}", json_data);
    let parsed = parse_sse_line(&line);
    assert!(parsed.is_some());
    assert_eq!(parsed, Some(json_data.to_string()));
    let done_line = "data: [DONE]";
    let parsed_done = parse_sse_line(done_line);
    assert!(parsed_done.is_none());
    let empty_line = "";
    let parsed_empty = parse_sse_line(empty_line);
    assert!(parsed_empty.is_none());
    let comment_line = ": this is a comment";
    let parsed_comment = parse_sse_line(comment_line);
    assert!(parsed_comment.is_none());
    assert!(parse_sse_line("event: ping").is_none());
    assert!(parse_sse_line("  data:  [DONE]  ").is_none());
    assert_eq!(parse_sse_line("  data: x \r"), Some("x".to_string()));
}

#[test]
fn sse_buffer_joins_split_lines() {
    let mut buffer = SseLineBuffer::new();
    assert_eq!(buffer.push("data: {\"a\""), Vec::<String>::new());
    assert_eq!(buffer.push(":1}\n: note\ndata: two\r\nda"), vec!["{\"a\":1}", "two"]);
    assert_eq!(buffer.push("ta: three"), Vec::<String>::new());
    assert_eq!(buffer.push("\n\n"), vec!["three"]);
    assert_eq!(buffer.push("data: four"), Vec::<String>::new());
    assert_eq!(buffer.finish(), vec!["four"]);
    assert_eq!(buffer.finish(), Vec::<String>::new());
    assert_eq!(buffer.push("data: [DONE]\n"), Vec::<String>::new());
}

#[test]
fn test_input_count() {
    let string_input = EmbeddingInput::String("test text".to_string());
    assert_eq!(get_input_count(&string_input), 1);
    let array_input = EmbeddingInput::ArrayOfStrings(vec![
        "text1".to_string(),
        "text2".to_string(),
        "text3".to_string(),
    ]);
    assert_eq!(get_input_count(&array_input), 3);
    let token_input = EmbeddingInput::ArrayOfTokens(vec![1, 2, 3, 4, 5]);
    assert_eq!(get_input_count(&token_input), 5);
    let nested_token_input =
        EmbeddingInput::ArrayOfTokenArrays(vec![vec![1, 2], vec![3, 4, 5], vec![6]]);
    assert_eq!(get_input_count(&nested_token_input), 3);
}

#[test]
fn test_generate_random_string() {
    let s1 = generate_random_string(10);
    let s2 = generate_random_string(10);
    assert_eq!(s1.len(), 10);
    assert_eq!(s2.len(), 10);
    assert_ne!(s1, s2);
    assert!(s1.chars().all(|c| c.is_ascii_alphanumeric()));
    assert_eq!(generate_random_string(0), "");
}

#[test]
fn test_openai_from_text() {
    let response = openai_from_text("Hello world", "gpt-4", Some(10), Some(5), false, 77);
    match response {
        TextResponse::Full(r) => {
            assert_eq!(r.model, "gpt-4");
            assert_eq!(r.object, "chat.completion");
            assert_eq!(r.created, 77);
            assert_eq!(r.choices[0].message.content, Some("\"Hello world\"".to_string()));
            assert_eq!(r.choices[0].message.role, "assistant");
            assert_eq!(r.choices[0].finish_reason, Some("stop".to_string()));
            let usage = r.usage.unwrap();
            assert_eq!(usage.prompt_tokens, 10);
            assert_eq!(usage.completion_tokens, 5);
            assert_eq!(usage.total_tokens, 15);
            assert!(r.id.starts_with("chatcmpl-"));
        }
        other => panic!("expected a completion, got {:?}", other),
    }
    match openai_from_text("Hello world", "gpt-4", None, None, false, 0) {
        TextResponse::Full(r) => assert_eq!(r.usage.unwrap().total_tokens, 6),
        other => panic!("expected a completion, got {:?}", other),
    }
    match openai_from_text("Hi", "gpt-4", None, None, true, 5) {
        TextResponse::Chunk(c) => {
            assert_eq!(c.object, "chat.completion.chunk");
            assert_eq!(c.choices[0].delta.content, Some("Hi".to_string()));
            assert_eq!(c.choices[0].finish_reason, None);
        }
        other => panic!("expected a chunk, got {:?}", other),
    }
}

#[test]
fn test_gemini_from_text() {
    let response = gemini_from_text("Hello world");
    assert_eq!(response.candidates.len(), 1);
    match &response.candidates[0].content.parts[0] {
        GeminiPart::Text { text } => assert_eq!(text, "Hello world"),
        other => panic!("expected text, got {:?}", other),
    }
    assert_eq!(response.candidates[0].finish_reason, Some("STOP".to_string()));
    let usage = response.usage_metadata.unwrap();
    assert_eq!(usage.prompt_token_count, Some(3));
    assert_eq!(usage.total_token_count, Some(6));
}

#[test]
fn test_extract_gemini_content() {
    let gemini_response = create_test_response("Hello from Gemini", false);
    let content = extract_gemini_content(&gemini_response);
    assert_eq!(content, "Hello from Gemini");
    let nothing = GeminiResponse { candidates: vec![], usage_metadata: None, prompt_feedback: None };
    assert_eq!(extract_gemini_content(&nothing), "");
    assert_eq!(extract_gemini_usage(&nothing).total_tokens, 0);
}

#[test]
fn test_openai_from_gemini() {
    let mut gemini_response = create_test_response("Response from Gemini", false);
    gemini_response.usage_metadata = Some(GeminiUsageMetadata {
        prompt_token_count: Some(10),
        candidates_token_count: Some(15),
        total_token_count: Some(25),
    });
    match openai_from_gemini(&gemini_response, Some("gemini-pro"), false, 1) {
        TextResponse::Full(r) => {
            assert_eq!(r.model, "gemini-pro");
            assert_eq!(r.choices[0].message.content, Some("\"Response from Gemini\"".to_string()));
            let usage = r.usage.unwrap();
            assert_eq!(usage.prompt_tokens, 10);
            assert_eq!(usage.completion_tokens, 15);
            assert_eq!(usage.total_tokens, 25);
        }
        other => panic!("expected a completion, got {:?}", other),
    }
    gemini_response.usage_metadata = Some(GeminiUsageMetadata {
        prompt_token_count: Some(4),
        candidates_token_count: None,
        total_token_count: None,
    });
    assert_eq!(extract_gemini_usage(&gemini_response).total_tokens, 4);
    match openai_from_gemini(&gemini_response, None, true, 1) {
        TextResponse::Chunk(c) => assert_eq!(c.model, "gemini-pro"),
        other => panic!("expected a chunk, got {:?}", other),
    }
}

#[test]
fn test_create_completion_chunk() {
    let chunk = create_completion_chunk("Hello", "gpt-4", None, 3);
    assert_eq!(chunk.choices[0].delta.content, Some("Hello".to_string()));
    assert_eq!(chunk.model, "gpt-4");
    assert_eq!(chunk.object, "chat.completion.chunk");
    let empty = create_completion_chunk("", "gpt-4", Some("length"), 3);
    assert_eq!(empty.choices[0].delta.content, None);
    assert_eq!(empty.choices[0].finish_reason, Some("length".to_string()));
}

#[test]
fn test_create_final_chunk() {
    let chunk = create_final_chunk("gpt-4", 3);
    assert_eq!(chunk.choices[0].finish_reason, Some("stop".to_string()));
    assert_eq!(chunk.choices[0].delta.content, None);
    assert_eq!(done_marker(), "data: [DONE]\n\n");
}

#[test]
fn models_response_lists_every_model() {
    let r = create_models_response(&vec!["a".to_string(), "b".to_string()], 9);
    assert_eq!(r.object, "list");
    assert_eq!(r.data.len(), 2);
    assert_eq!(r.data[1].id, "b");
    assert_eq!(r.data[1].owned_by, "openai");
    assert_eq!(r.data[1].created, 9);
}

#[test]
fn text_of_content_values() {
    assert_eq!(extract_text_from_value(&ContentValue::Text("a".to_string())), "a");
    assert_eq!(extract_text_from_value(&ContentValue::Other("{\"k\":1}".to_string())), "{\"k\":1}");
    let items = ContentValue::Items(vec![
        ContentItem::Text { text: Some("x".to_string()) },
        ContentItem::ImageUrl { url: Some("u".to_string()) },
        ContentItem::Text { text: None },
        ContentItem::Text { text: Some("y".to_string()) },
    ]);
    assert_eq!(extract_text_from_value(&items), "xy");
}

#[test]
fn upstream_names_and_urls() {
    assert_eq!(upstream_model_name("gemini-pro-search"), "gemini-pro");
    assert_eq!(upstream_model_name("gemini-pro"), "gemini-pro");
    assert_eq!(upstream_model_name("a-search-b-search"), "a-b");
    assert_eq!(
        completion_url("gemini-pro-search", false),
        "https://generativelanguage.googleapis.com/v1beta/models/gemini-pro:generateContent"
    );
    assert_eq!(
        completion_url("m", true),
        "https://generativelanguage.googleapis.com/v1beta/models/m:streamGenerateContent"
    );
    assert_eq!(models_url(), "https://generativelanguage.googleapis.com/v1beta/models");
    assert_eq!(
        embedding_url("e"),
        "https://generativelanguage.googleapis.com/v1beta/models/e:embedContent"
    );
    assert_eq!(get_default_models().len(), 6);
    assert_eq!(
        model_names(&vec!["models/gemini-pro".to_string(), "x".to_string()]),
        vec!["gemini-pro".to_string(), "x".to_string()]
    );
}

#[test]
fn inline_images() {
    assert_eq!(
        parse_base64_image("data:image/png;base64,AAAA"),
        Some(("image/png".to_string(), "AAAA".to_string()))
    );
    assert_eq!(
        parse_base64_image("data:text/plain,hello,world"),
        Some(("text/plain".to_string(), "hello,world".to_string()))
    );
    assert_eq!(parse_base64_image("data:image/png;base64"), None);
    assert_eq!(parse_base64_image("http://x/y.png"), None);
}

#[test]
fn message_content_conversion() {
    assert_eq!(convert_message_content(&None).len(), 0);
    let text = convert_message_content(&Some(ContentValue::Text("hi".to_string())));
    assert!(matches!(&text[..], [GeminiPart::Text { text }] if text == "hi"));
    let other = convert_message_content(&Some(ContentValue::Other("42".to_string())));
    assert!(matches!(&other[..], [GeminiPart::Text { text }] if text == "42"));
    let items = convert_message_content(&Some(ContentValue::Items(vec![
        ContentItem::Text { text: Some("look".to_string()) },
        ContentItem::ImageUrl { url: Some("data:image/png;base64,QUJD".to_string()) },
        ContentItem::ImageUrl { url: Some("https://x/y.png".to_string()) },
        ContentItem::Other { item_type: "audio".to_string() },
        ContentItem::Untyped,
    ])));
    assert_eq!(items.len(), 2);
    assert!(matches!(&items[1], GeminiPart::InlineData { inline_data }
        if inline_data.mime_type == "image/png" && inline_data.data == "QUJD"));
}

#[test]
fn request_conversion() {
    let messages = vec![
        ShapedMessage { role: "system".to_string(), content: Some(ContentValue::Text("be brief".to_string())) },
        ShapedMessage { role: "assistant".to_string(), content: Some(ContentValue::Text("ok".to_string())) },
        ShapedMessage { role: "user".to_string(), content: None },
    ];
    let tools = Some(vec![Tool {
        tool_type: "function".to_string(),
        function: FunctionDefinition { name: "f".to_string(), description: None, parameters: None },
    }]);
    let r = convert_to_gemini_request(&messages, Some(64), &tools, Some("xYz12"));
    assert_eq!(r.contents.len(), 3);
    assert_eq!(r.contents[0].role, "user");
    assert_eq!(r.contents[1].role, "model");
    assert!(matches!(&r.contents[0].parts[..], [GeminiPart::Text { text }] if text == "be brief xYz12"));
    assert!(matches!(&r.contents[1].parts[..], [GeminiPart::Text { text }] if text == "ok"));
    assert_eq!(r.contents[2].parts.len(), 0);
    let config = r.generation_config.unwrap();
    assert_eq!(config.max_output_tokens, Some(64));
    assert_eq!(config.candidate_count, Some(1));
    let safety = r.safety_settings.unwrap();
    assert_eq!(safety.len(), 4);
    assert!(safety.iter().all(|s| s.threshold == "BLOCK_NONE"));
    let tools = r.tools.unwrap();
    assert_eq!(tools.len(), 1);
    assert_eq!(tools[0].function_declarations[0].name, "f");
    assert_eq!(tools[0].function_declarations[0].description, "");
    assert_eq!(tools[0].function_declarations[0].parameters, "{}");
    let plain = convert_to_gemini_request(&messages, None, &None, None);
    assert!(matches!(&plain.contents[0].parts[..], [GeminiPart::Text { text }] if text == "be brief"));
    assert!(plain.tools.is_none());
}

#[test]
fn response_conversion() {
    let mut from = create_test_response("Hello", false);
    from.candidates[0].content.parts.push(GeminiPart::Text { text: " there".to_string() });
    let r = convert_gemini_response(&from, "gemini-pro", 123).unwrap();
    assert!(r.id.starts_with("chatcmpl-"));
    assert_eq!(r.object, "chat.completion");
    assert_eq!(r.created, 123);
    assert_eq!(r.model, "gemini-pro");
    assert_eq!(r.choices.len(), 1);
    assert_eq!(r.choices[0].index, 0);
    assert_eq!(r.choices[0].message.role, "assistant");
    assert_eq!(r.choices[0].message.content, Some("\"Hello there\"".to_string()));
    assert_eq!(r.choices[0].finish_reason, Some("STOP".to_string()));
    assert_eq!(r.usage.unwrap().total_tokens, 30);
    let user_turn = GeminiContent { role: "user".to_string(), parts: vec![] };
    let m = convert_gemini_content_to_message(&user_turn);
    assert_eq!(m.role, "user");
    assert_eq!(m.content, None);
    assert!(m.tool_calls.is_none());
}

#[test]
fn embedding_models_are_listed() {
    assert_eq!(
        rujimi::services::embedding::get_supported_models(),
        vec!["text-embedding-004", "text-multilingual-embedding-002", "embedding-001"]
    );
}

#[test]
fn embedding_content_and_usage() {
    let one = EmbeddingInput::String("hello world".to_string());
    assert_eq!(embedding_content(&one).as_deref(), Some("hello world"));
    let many = EmbeddingInput::ArrayOfStrings(vec!["a".to_string(), "b c".to_string(), "".to_string()]);
    assert_eq!(embedding_content(&many).as_deref(), Some("a b c "));
    let none = EmbeddingInput::ArrayOfStrings(Vec::new());
    assert_eq!(embedding_content(&none).as_deref(), Some(""));
    let tokens = EmbeddingInput::ArrayOfTokens(vec![1, 2]);
    assert_eq!(embedding_content(&tokens), None);
    let arrays = EmbeddingInput::ArrayOfTokenArrays(vec![vec![1]]);
    assert_eq!(embedding_content(&arrays), None);
    let usage = embedding_usage("12345678901");
    assert_eq!((usage.prompt_tokens, usage.total_tokens), (2, 2));
    let usage = embedding_usage("");
    assert_eq!((usage.prompt_tokens, usage.total_tokens), (0, 0));
}
