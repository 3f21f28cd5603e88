use rujimi::api::auth::{login, verify_auth, LoginRequest};
use rujimi::api::dashboard::key_stat_info;
use rujimi::config::safety::{get_safety_settings, get_safety_settings_g2};
use rujimi::config::settings::Settings;
use rujimi::utils::api_key::ApiKeyStats;
use rujimi::utils::auth::{
    authenticate_request, extract_auth_token, validate_auth_token, validate_user_agent,
    AuthHeaders, AuthQuery, AuthScope,
};
use rujimi::utils::error_handling::{
    create_error_mappings, create_gemini_error_response, extract_error_code, is_retryable_error,
    log_error_details, sanitize_error_message, translate_error, ErrorContext,
};
use rujimi::utils::response::{
    create_error_json, create_sse_data, create_sse_event, error_status, sanitize_response_content,
};
use rujimi::utils::text::{parse_u32, split, trim};
use rujimi::utils::version::{
    clean_version_string, evaluate_release, format_version_for_display, get_current_version,
    is_newer_version, parse_semantic_version, VersionInfo,
};
use rujimi::vertex::api_helpers::{
    classify_and_handle_error, create_openai_error_response, handle_model_not_found_error,
};
use rujimi::vertex::auth::{extract_api_key, validate_api_key, ApiKeyError};
use rujimi::vertex::credentials_manager::CredentialManager;
use rujimi::vertex::message_processing::{
    create_gemini_prompt, deobfuscate_text, process_message_parts,
};
use rujimi::vertex::model_loader::ModelConfig;
use rujimi::vertex::models::{ContentPart, ImageUrl, MessageContent, OpenAIMessage};
use rujimi::vertex::routes::chat_api::handle_chat_completion_error;

fn no_headers() -> AuthHeaders {
    AuthHeaders { authorization: None, x_goog_api_key: None, x_api_key: None }
}

fn no_query() -> AuthQuery {
    AuthQuery { key: None, password: None }
}

#[test]
fn test_translate_error() {
    assert_eq!(translate_error("Invalid API key provided"), "API key is invalid or expired");
    assert_eq!(translate_error("Rate limit exceeded"), "Rate limit exceeded, please try again later");
    assert_eq!(translate_error("Some unknown error"), "Some unknown error");
}

#[test]
fn test_sanitize_error_message() {
    let message = "Error with API_KEY_abc123def456 token";
    let sanitized = sanitize_error_message(message);
    assert!(sanitized.contains("[REDACTED]"));
    assert!(!sanitized.contains("API_KEY_abc123def456"));
}

#[test]
fn sanitize_cuts_long_messages() {
    let long = "word ".repeat(60);
    let cut = sanitize_error_message(&long);
    assert_eq!(cut.chars().count(), 200);
    assert!(cut.ends_with("..."));
    assert_eq!(&cut[..197], &long[..197]);
    let exact = "ab ".repeat(66) + "ab";
    assert_eq!(exact.len(), 200);
    assert_eq!(sanitize_error_message(&exact), exact);
}

#[test]
fn test_is_retryable_error() {
    assert!(is_retryable_error("Connection timeout occurred"));
    assert!(is_retryable_error("Rate limit exceeded"));
    assert!(is_retryable_error("HTTP 503 Service Unavailable"));
    assert!(!is_retryable_error("Invalid API key"));
    assert!(!is_retryable_error("Content blocked"));
}

#[test]
fn test_extract_error_code() {
    assert_eq!(extract_error_code("HTTP 404 Not Found"), Some("404".to_string()));
    assert_eq!(extract_error_code("Status: 429"), Some("429".to_string()));
    assert_eq!(extract_error_code("status: 429"), Some("429".to_string()));
    assert_eq!(extract_error_code("Error code 500"), Some("500".to_string()));
    assert_eq!(extract_error_code("No code here"), None);
}

#[test]
fn error_mappings_are_complete() {
    let mappings = create_error_mappings();
    assert_eq!(mappings.len(), 14);
    assert_eq!(mappings[0], ("invalid api key".to_string(), "API key is invalid or expired".to_string()));
    assert_eq!(mappings[13], ("bad gateway".to_string(), "Gateway error, please try again".to_string()));
}

#[test]
fn gemini_error_response_has_type_and_code() {
    let r = create_gemini_error_response(429, "quota exceeded for project");
    assert_eq!(r.error.message, "API quota has been exceeded");
    assert_eq!(r.error.error_type, "rate_limit_error");
    assert_eq!(r.error.code, Some("429".to_string()));
    assert_eq!(create_gemini_error_response(502, "x").error.error_type, "api_connection_error");
    assert_eq!(create_gemini_error_response(418, "x").error.error_type, "api_error");
}

#[test]
fn error_line_with_and_without_extra() {
    assert_eq!(log_error_details("boom", "dispatch", None), "Error in dispatch: boom");
    assert_eq!(
        log_error_details("boom", "dispatch", Some("key k1")),
        "Error in dispatch: boom | Additional info: key k1"
    );
}

#[test]
fn error_context_names_the_key_by_prefix() {
    let c = ErrorContext::new("chat", 7).with_model("m").with_api_key("AIzaSy-long-key").with_request_id("r1");
    assert_eq!(c.operation, "chat");
    assert_eq!(c.model, Some("m".to_string()));
    assert_eq!(c.api_key_prefix, Some("AIzaSy-l...".to_string()));
    assert_eq!(c.request_id, Some("r1".to_string()));
    assert_eq!(c.timestamp, 7);
    let short = ErrorContext::new("chat", 7).with_api_key("abc");
    assert_eq!(short.api_key_prefix, Some("abc...".to_string()));
}

#[test]
fn response_test_estimate_tokens() {
    assert_eq!(rujimi::utils::response::estimate_tokens("hello"), 2);
    assert_eq!(rujimi::utils::response::estimate_tokens("hello world"), 3);
    assert_eq!(rujimi::utils::response::estimate_tokens(""), 0);
    assert_eq!(rujimi::utils::response::estimate_tokens("abcd"), 1);
}

#[test]
fn test_sanitize_response_content() {
    let input = "  hello  \n\n  world  \n\n  ";
    let expected = "hello\nworld";
    assert_eq!(sanitize_response_content(input), expected);
}

#[test]
fn sanitize_response_handles_carriage_returns() {
    assert_eq!(sanitize_response_content("a\r\n\r\nb\r\n"), "a\nb");
    assert_eq!(sanitize_response_content(" x  y \n z"), "x  y\nz");
    assert_eq!(sanitize_response_content(""), "");
    assert_eq!(sanitize_response_content(" \n\t\n"), "");
    assert_eq!(sanitize_response_content("one"), "one");
}

#[test]
fn sse_framing() {
    assert_eq!(create_sse_data("{}"), "data: {}\n\n");
    assert_eq!(create_sse_event("ping", "1"), "event: ping\ndata: 1\n\n");
}

#[test]
fn error_payload_and_status() {
    let p = create_error_json("Unauthorized", "authentication_error");
    assert_eq!(p.error.message, "Unauthorized");
    assert_eq!(p.error.error_type, "authentication_error");
    assert_eq!(p.error.code, None);
    assert_eq!(p.error.param, None);
    assert_eq!(error_status("authentication_error"), 401);
    assert_eq!(error_status("forbidden_error"), 403);
    assert_eq!(error_status("invalid_model"), 400);
    assert_eq!(error_status("service_unavailable"), 503);
    assert_eq!(error_status("api_error"), 500);
    assert_eq!(error_status("stream_error"), 500);
    assert_eq!(error_status("rate_limit_error"), 429);
    assert_eq!(error_status("whatever"), 400);
}

#[test]
fn test_clean_version_string() {
    assert_eq!(clean_version_string("v1.2.3"), "1.2.3");
    assert_eq!(clean_version_string("V1.2.3"), "1.2.3");
    assert_eq!(clean_version_string("1.2.3"), "1.2.3");
}

#[test]
fn clean_version_strips_runs() {
    assert_eq!(clean_version_string("vvVV1"), "1");
    assert_eq!(clean_version_string("Vv1"), "v1");
    assert_eq!(clean_version_string(""), "");
}

#[test]
fn test_parse_semantic_version() {
    assert_eq!(parse_semantic_version("1.2.3"), Some(vec![1, 2, 3]));
    assert_eq!(parse_semantic_version("10.0.1"), Some(vec![10, 0, 1]));
    assert_eq!(parse_semantic_version("1.2"), Some(vec![1, 2]));
    assert_eq!(parse_semantic_version("invalid"), None);
}

#[test]
fn parse_semantic_version_edges() {
    assert_eq!(parse_semantic_version("1.2.3.beta"), Some(vec![1, 2, 3]));
    assert_eq!(parse_semantic_version(""), None);
    assert_eq!(parse_semantic_version("1..3"), None);
    assert_eq!(parse_semantic_version("+1.2"), Some(vec![1, 2]));
    assert_eq!(parse_semantic_version("4294967295"), Some(vec![4294967295]));
    assert_eq!(parse_semantic_version("4294967296"), None);
    assert_eq!(parse_semantic_version("-1"), None);
}

#[test]
fn test_is_newer_version() {
    assert!(is_newer_version("1.2.3", "1.2.2"));
    assert!(is_newer_version("1.3.0", "1.2.9"));
    assert!(is_newer_version("2.0.0", "1.9.9"));
    assert!(!is_newer_version("1.2.2", "1.2.3"));
    assert!(!is_newer_version("1.2.3", "1.2.3"));
}

#[test]
fn newer_version_falls_back_to_text_order() {
    assert!(is_newer_version("beta", "alpha"));
    assert!(!is_newer_version("alpha", "beta"));
    assert!(is_newer_version("1.2", "1.1.9"));
    assert!(is_newer_version("1.x.1", "1.x"));
    assert!(!is_newer_version("1.x", "1.x"));
}

#[test]
fn test_format_version_for_display() {
    let mut version_info = VersionInfo::current();
    assert_eq!(format_version_for_display(&version_info), "v1.0.2 (latest)");
    version_info.has_update_available = true;
    version_info.latest_version = Some("1.0.3".to_string());
    assert_eq!(format_version_for_display(&version_info), "v1.0.2 (update available: v1.0.3)");
}

#[test]
fn current_version_and_release_evaluation() {
    assert_eq!(get_current_version(), "1.0.2");
    assert_eq!(VersionInfo::default().current_version, "1.0.2");
    let newer = evaluate_release("v1.1.0", "notes".to_string(), "2024-01-01".to_string(), false, false);
    assert!(newer.has_update_available);
    assert_eq!(newer.latest_version, Some("1.1.0".to_string()));
    assert_eq!(newer.release_notes, Some("notes".to_string()));
    let same = evaluate_release("v1.0.2", String::new(), String::new(), false, false);
    assert!(!same.has_update_available);
    let draft = evaluate_release("v9.0.0", String::new(), String::new(), true, false);
    assert!(!draft.has_update_available);
    assert_eq!(draft.latest_version, None);
    let mut shown = VersionInfo::current();
    shown.has_update_available = true;
    assert_eq!(format_version_for_display(&shown), "v1.0.2");
}

#[test]
fn test_validate_api_key() {
    assert!(validate_api_key("test_key"));
    assert!(validate_api_key(""));
}

#[test]
fn test_extract_api_key() {
    let result = extract_api_key(Some("Bearer test_key"));
    assert!(result.is_ok());
    assert_eq!(result.unwrap(), "test_key");
}

#[test]
fn test_extract_api_key_missing_header() {
    let result = extract_api_key(None);
    assert!(result.is_err());
    assert_eq!(result, Err(ApiKeyError::Missing));
}

#[test]
fn test_extract_api_key_invalid_format() {
    let result = extract_api_key(Some("test_key"));
    assert!(result.is_err());
    assert_eq!(result, Err(ApiKeyError::InvalidFormat));
    assert_eq!(
        ApiKeyError::InvalidFormat.message(),
        "Invalid API key format. Use 'Authorization: Bearer YOUR_API_KEY'"
    );
}

#[test]
fn test_model_config_new() {
    let config = ModelConfig::new();
    assert!(config.vertex_models.is_empty());
    assert!(config.vertex_express_models.is_empty());
}

#[test]
fn test_model_config_with_models() {
    let vertex_models = vec!["model1".to_string(), "model2".to_string()];
    let vertex_express_models = vec!["express1".to_string()];
    let config = ModelConfig::with_models(vertex_models.clone(), vertex_express_models.clone());
    assert_eq!(config.vertex_models, vertex_models);
    assert_eq!(config.vertex_express_models, vertex_express_models);
    assert!(config.is_vertex_model("model2"));
    assert!(!config.is_vertex_model("express1"));
    assert!(config.is_vertex_express_model("express1"));
    assert_eq!(config.get_models_summary(), (2, 1, 3));
}

#[test]
fn test_credential_manager_new() {
    let manager = CredentialManager::new("/tmp/credentials".to_string());
    assert_eq!(manager.credentials_dir, "/tmp/credentials");
}

#[test]
fn message_processing_test_estimate_tokens() {
    assert_eq!(rujimi::vertex::message_processing::estimate_tokens("hello world"), 3);
    assert_eq!(rujimi::vertex::message_processing::estimate_tokens("a"), 1);
    assert_eq!(rujimi::vertex::message_processing::estimate_tokens(""), 0);
}

#[test]
fn chat_api_test_estimate_tokens() {
    assert_eq!(rujimi::vertex::routes::chat_api::estimate_tokens("hello"), 2);
    assert_eq!(rujimi::vertex::routes::chat_api::estimate_tokens("hello world"), 3);
    assert_eq!(rujimi::vertex::routes::chat_api::estimate_tokens(""), 0);
}

#[test]
fn test_deobfuscate_text() {
    let obfuscated = "This\u{200B}is\u{200C}test\u{FEFF}text";
    let result = deobfuscate_text(obfuscated);
    assert_eq!(result, "This is test text");
}

#[test]
fn deobfuscate_collapses_space_and_strips_marks() {
    assert_eq!(deobfuscate_text("  a   b\n\tc  "), "a b c");
    assert_eq!(deobfuscate_text("**bold** and <b>tag</b>"), "bold and tag");
}

#[test]
fn message_parts_are_joined_by_lines() {
    let parts = vec![
        ContentPart::Text { text: "look".to_string() },
        ContentPart::Image { image_url: ImageUrl { url: "http://x/y.png".to_string() } },
    ];
    assert_eq!(process_message_parts(&parts), "look\n[Image: http://x/y.png]");
    assert_eq!(process_message_parts(&[]), "");
}

#[test]
fn gemini_prompt_maps_roles_and_skips_blank_text() {
    let messages = vec![
        OpenAIMessage { role: "system".to_string(), content: MessageContent::Text("be kind".to_string()) },
        OpenAIMessage { role: "user".to_string(), content: MessageContent::Text("   ".to_string()) },
        OpenAIMessage { role: "assistant".to_string(), content: MessageContent::Text("ok".to_string()) },
        OpenAIMessage { role: "tool".to_string(), content: MessageContent::Parts(vec![]) },
    ];
    let prompt = create_gemini_prompt(&messages);
    let got: Vec<(&str, &str)> = prompt.iter().map(|m| (m.role.as_str(), m.content.as_str())).collect();
    assert_eq!(got, vec![("user", "be kind"), ("model", "ok"), ("user", "")]);
}

#[test]
fn test_create_openai_error_response() {
    let response = create_openai_error_response(400, "Test error", "test_error");
    assert_eq!(response.message, "Test error");
    assert_eq!(response.status_code, 400);
    assert_eq!(response.error_type, "test_error");
}

#[test]
fn test_classify_and_handle_error() {
    let rate_limit_response = classify_and_handle_error("Rate limit exceeded");
    assert_eq!(rate_limit_response.status_code, 429);
    let auth_response = classify_and_handle_error("Authentication failed");
    assert_eq!(auth_response.status_code, 401);
}

#[test]
fn classify_covers_every_class() {
    assert_eq!(classify_and_handle_error("Billing issue").error_type, "quota_exceeded");
    assert_eq!(classify_and_handle_error("FORBIDDEN").status_code, 403);
    assert_eq!(classify_and_handle_error("model x not found").status_code, 404);
    assert_eq!(
        classify_and_handle_error("invalid thing").message,
        "Invalid request: invalid thing"
    );
    assert_eq!(classify_and_handle_error("timeout").status_code, 503);
    assert_eq!(classify_and_handle_error("???").status_code, 500);
    assert_eq!(
        handle_model_not_found_error("m1").message,
        "Model 'm1' not found. Please check the model name."
    );
    assert_eq!(handle_chat_completion_error("quota").status_code, 429);
    assert_eq!(handle_chat_completion_error("bad credential").message, "Authentication failed");
    assert_eq!(handle_chat_completion_error("other").error_type, "internal_error");
}

#[test]
fn test_extract_auth_token() {
    let headers = AuthHeaders {
        authorization: Some("Bearer test_token".to_string()),
        x_goog_api_key: None,
        x_api_key: None,
    };
    let token = extract_auth_token(&headers, &no_query());
    assert_eq!(token, Some("test_token".to_string()));
}

#[test]
fn auth_token_sources_in_order() {
    let headers = AuthHeaders {
        authorization: Some("Basic abc".to_string()),
        x_goog_api_key: Some("goog".to_string()),
        x_api_key: Some("custom".to_string()),
    };
    let query = AuthQuery { key: Some("qk".to_string()), password: Some("qp".to_string()) };
    assert_eq!(extract_auth_token(&headers, &query), Some("goog".to_string()));
    let mut h = no_headers();
    h.x_api_key = Some("custom".to_string());
    assert_eq!(extract_auth_token(&h, &query), Some("custom".to_string()));
    assert_eq!(extract_auth_token(&no_headers(), &query), Some("qk".to_string()));
    let only_password = AuthQuery { key: None, password: Some("qp".to_string()) };
    assert_eq!(extract_auth_token(&no_headers(), &only_password), Some("qp".to_string()));
    assert_eq!(extract_auth_token(&no_headers(), &no_query()), None);
}

#[test]
fn test_validate_user_agent() {
    let settings = Settings {
        whitelist_user_agent: vec!["mozilla".to_string(), "curl".to_string()],
        ..Default::default()
    };
    assert!(validate_user_agent(Some("Mozilla/5.0"), &settings));
    assert!(validate_user_agent(Some("curl/7.68.0"), &settings));
    assert!(!validate_user_agent(Some("BadBot/1.0"), &settings));
    assert!(!validate_user_agent(None, &settings));
    assert!(validate_user_agent(None, &Settings::default()));
}

#[test]
fn authentication_scopes() {
    let mut settings = Settings::default();
    settings.password = "api-pass".to_string();
    settings.web_password = "web-pass".to_string();
    settings.gemini_api_keys = vec!["upstream-key-123".to_string(), "denied".to_string()];
    settings.invalid_api_keys = vec!["denied".to_string()];
    let with = |t: &str| AuthHeaders {
        authorization: Some(format!("Bearer {}", t)),
        x_goog_api_key: None,
        x_api_key: None,
    };
    let admin = authenticate_request(&with("web-pass"), &no_query(), &settings);
    assert!(admin.authenticated);
    assert_eq!(admin.scope, AuthScope::Admin);
    assert_eq!(admin.user_id, Some("user_web-pass".to_string()));
    let user = authenticate_request(&with("upstream-key-123"), &no_query(), &settings);
    assert!(user.authenticated);
    assert_eq!(user.scope, AuthScope::Authenticated);
    assert_eq!(user.user_id, Some("user_upstream".to_string()));
    let denied = authenticate_request(&with("denied"), &no_query(), &settings);
    assert!(!denied.authenticated);
    assert_eq!(denied.user_id, None);
    assert!(validate_auth_token("api-pass", &settings));
    assert!(!validate_auth_token("denied", &settings));
    settings.public_mode = true;
    let public = authenticate_request(&no_headers(), &no_query(), &settings);
    assert!(public.authenticated);
    assert_eq!(public.scope, AuthScope::Public);
    assert_eq!(public.user_id, Some("public".to_string()));
}

#[test]
fn login_and_verify() {
    let settings = Settings::default();
    let ok = login(LoginRequest { password: "123".to_string() }, &settings);
    assert!(ok.success);
    assert_eq!(ok.message, "Login successful");
    assert_eq!(ok.token, Some("123".to_string()));
    let bad = login(LoginRequest { password: "nope".to_string() }, &settings);
    assert!(!bad.success);
    assert_eq!(bad.message, "Invalid password");
    assert_eq!(bad.token, None);
    let headers = AuthHeaders {
        authorization: Some("Bearer 123".to_string()),
        x_goog_api_key: None,
        x_api_key: None,
    };
    let v = verify_auth(&headers, &no_query(), &settings);
    assert!(v.valid);
    assert_eq!(v.scope, "admin");
    let w = verify_auth(&no_headers(), &no_query(), &settings);
    assert!(!w.valid);
    assert_eq!(w.scope, "public");
}

#[test]
fn key_stat_info_hides_the_key() {
    let info = key_stat_info(
        "AIzaSy-secret-key",
        ApiKeyStats { daily_usage: 3, last_used: 1700000000000, consecutive_failures: 1 },
    );
    assert_eq!(info.key_prefix, "AIzaSy-s...");
    assert_eq!(info.daily_usage, 3);
    assert_eq!(info.last_used, "2023-11-14 22:13:20 UTC");
    assert_eq!(info.consecutive_failures, 1);
}

#[test]
fn safety_settings_cover_five_categories() {
    let s = get_safety_settings();
    assert_eq!(s.len(), 5);
    assert_eq!(s[0].category, "HARM_CATEGORY_HARASSMENT");
    assert_eq!(s[4].category, "HARM_CATEGORY_CIVIC_INTEGRITY");
    assert!(s.iter().all(|x| x.threshold == "BLOCK_NONE"));
    let g2 = get_safety_settings_g2();
    assert_eq!(g2.len(), 5);
    assert!(g2.iter().all(|x| x.threshold == "OFF"));
}

#[test]
fn default_settings() {
    let s = Settings::default();
    assert_eq!(s.password, "123");
    assert_eq!(s.port, Some(7860));
    assert_eq!(s.cache_expiry_time, 21600);
    assert_eq!(s.max_cache_entries, 500);
    assert_eq!(s.calculate_cache_entries, 6);
    assert_eq!(s.max_requests_per_minute, 30);
    assert_eq!(s.max_requests_per_day_per_ip, 600);
    assert_eq!(s.api_key_daily_limit, 100);
    assert!(s.fake_streaming);
}

#[test]
fn text_helpers() {
    let chars: Vec<char> = " a, b ,,c ".chars().collect();
    let pieces: Vec<String> = split(&chars, ',').iter().map(|p| trim(p).iter().collect()).collect();
    assert_eq!(pieces, vec!["a", "b", "", "c"]);
    let digits: Vec<char> = "00042".chars().collect();
    assert_eq!(parse_u32(&digits), Some(42));
    let plus: Vec<char> = "+".chars().collect();
    assert_eq!(parse_u32(&plus), None);
}
