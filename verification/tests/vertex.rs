use rujimi::config::settings::Settings;
use rujimi::utils::cache::ResponseCacheManager;
use rujimi::utils::maintenance::{emergency_cleanup, perform_health_check, HealthReadings};
use rujimi::utils::stats::ApiStatsManager;
use rujimi::vertex::api_helpers::{
    create_final_streaming_chunk, create_streaming_chunk, validate_request_parameters,
    ParameterError,
};
use rujimi::vertex::auth::{validate_vertex_settings, VertexSettingsError};
use rujimi::vertex::config::{VertexConfig, VertexConfigError};
use rujimi::vertex::message_processing::{convert_chunk_to_openai, convert_to_openai_format};
use rujimi::vertex::model_loader::{
    extract_model_list, fetch_and_parse_models_config, is_json_text, parse_models_config,
    FetchStep, ModelConfig, ModelConfigError,
};
use rujimi::vertex::models::{
    default_gemini_top_k, default_max_output_tokens, ContentPart, ImageUrl, MessageContent,
    OpenAIMessage,
};
use rujimi::vertex::routes::chat_api::{
    create_mock_chat_response, create_mock_completion_response, validate_model_access,
    ModelAccessError,
};
use rujimi::vertex::vertex_ai_init::{
    credentials_to_store, get_vertex_ai_status, init_vertex_ai, is_vertex_ai_available,
    VertexAIClient,
};
use rujimi::vertex::routes::models_api::{
    get_model_capabilities, get_model_info, is_model_available, list_models,
    list_models_by_type, ModelType,
};

fn vars(pairs: &[(&str, &str)]) -> Vec<(String, String)> {
    pairs.iter().map(|(n, v)| (n.to_string(), v.to_string())).collect()
}

fn two_lists() -> ModelConfig {
    ModelConfig::with_models(
        vec!["gemini-1.5-pro".to_string()],
        vec!["gemini-2.0-flash".to_string()],
    )
}

#[test]
fn test_list_models() {
    let models = list_models(&ModelConfig::new());
    assert!(models.is_empty());
    assert_eq!(list_models(&two_lists()).len(), 2);
}

#[test]
fn test_is_model_available() {
    assert!(!is_model_available(&ModelConfig::new(), "gemini-1.5-pro"));
    assert!(is_model_available(&two_lists(), "gemini-1.5-pro"));
}

#[test]
fn test_list_models_by_type() {
    let config = two_lists();

    let vertex_result = ModelType::from_name("vertex").map(|t| list_models_by_type(&config, t));
    assert!(vertex_result.is_some());
    assert_eq!(vertex_result.unwrap(), &vec!["gemini-1.5-pro".to_string()]);

    let express_result =
        ModelType::from_name("vertex_express").map(|t| list_models_by_type(&config, t));
    assert!(express_result.is_some());
    assert_eq!(express_result.unwrap(), &vec!["gemini-2.0-flash".to_string()]);

    let invalid_result = ModelType::from_name("invalid_type");
    assert!(invalid_result.is_none());
}

#[test]
fn maintenance_test_health_check() {
    let readings = HealthReadings { memory: None, log_count: 0, disk_available: None };
    assert!(perform_health_check(&readings).is_empty());
}

#[test]
fn test_emergency_cleanup() {
    let settings = Settings::default();
    let mut cache = ResponseCacheManager::new(&settings);
    let mut stats = ApiStatsManager::new(0);
    assert_eq!(emergency_cleanup(&mut cache, &mut stats, 0), 0);
    assert_eq!(cache.size(), 0);
}

#[test]
fn test_extract_model_list() {
    let json_data = r#"{
        "vertex_models": ["model1", "model2"],
        "vertex_express_models": ["express1"]
    }"#;

    let config = parse_models_config(json_data).unwrap();
    assert_eq!(config.vertex_models, vec!["model1".to_string(), "model2".to_string()]);
    assert_eq!(config.vertex_express_models, vec!["express1".to_string()]);

    let vertex_models =
        extract_model_list(&Some(vec![Some("model1".to_string()), Some("model2".to_string())]))
            .unwrap();
    assert_eq!(vertex_models, vec!["model1".to_string(), "model2".to_string()]);

    let missing = extract_model_list(&None).unwrap();
    assert!(missing.is_empty());
}

#[test]
fn model_list_with_an_item_that_is_no_string_is_refused() {
    assert_eq!(
        extract_model_list(&Some(vec![Some("a".to_string()), None])),
        Err(ModelConfigError::NotAString)
    );
    assert_eq!(
        parse_models_config(r#"{"vertex_models": ["a", 3]}"#).err(),
        Some(ModelConfigError::NotAString)
    );
    assert_eq!(
        parse_models_config(r#"{"vertex_express_models": [null]}"#).err(),
        Some(ModelConfigError::NotAString)
    );
}

#[test]
fn models_config_reads_what_is_there() {
    let only_one = parse_models_config(r#"{"vertex_models": ["a"]}"#).unwrap();
    assert_eq!(only_one.vertex_models, vec!["a"]);
    assert!(only_one.vertex_express_models.is_empty());
    let no_array = parse_models_config(r#"{"vertex_models": "a"}"#).unwrap();
    assert!(no_array.vertex_models.is_empty());
    let no_object = parse_models_config("[1, 2]").unwrap();
    assert!(no_object.vertex_models.is_empty());
    assert_eq!(parse_models_config("{oops").err(), Some(ModelConfigError::NotJson));
    assert_eq!(parse_models_config("").err(), Some(ModelConfigError::NotJson));
    assert_eq!(ModelConfigError::NotJson.message(), "Failed to parse JSON response");
    assert_eq!(ModelConfigError::NotAString.message(), "Model name is not a string");
}

#[test]
fn json_texts_are_told_from_other_texts() {
    assert!(is_json_text("{}"));
    assert!(is_json_text("[1, 2]"));
    assert!(is_json_text("\"text\""));
    assert!(is_json_text(" 5 "));
    assert!(!is_json_text(""));
    assert!(!is_json_text("{"));
    assert!(!is_json_text("{} {}"));
}

#[test]
fn fetch_steps_back_off_and_end_without_models() {
    match fetch_and_parse_models_config(0, Some(r#"{"vertex_models": ["a"]}"#)) {
        FetchStep::Done(config) => assert_eq!(config.vertex_models, vec!["a"]),
        other => panic!("unexpected step {other:?}"),
    }
    match fetch_and_parse_models_config(0, None) {
        FetchStep::RetryAfter { delay_ms } => assert_eq!(delay_ms, 1000),
        other => panic!("unexpected step {other:?}"),
    }
    match fetch_and_parse_models_config(1, Some("not json")) {
        FetchStep::RetryAfter { delay_ms } => assert_eq!(delay_ms, 2000),
        other => panic!("unexpected step {other:?}"),
    }
    match fetch_and_parse_models_config(2, None) {
        FetchStep::Done(config) => {
            assert!(config.vertex_models.is_empty());
            assert!(config.vertex_express_models.is_empty());
        }
        other => panic!("unexpected step {other:?}"),
    }
    match fetch_and_parse_models_config(2, Some(r#"{"vertex_express_models": ["x"]}"#)) {
        FetchStep::Done(config) => assert_eq!(config.vertex_express_models, vec!["x"]),
        other => panic!("unexpected step {other:?}"),
    }
}

#[test]
fn test_create_mock_chat_response() {
    let messages = vec![OpenAIMessage {
        role: "user".to_string(),
        content: MessageContent::Text("Hello, world!".to_string()),
    }];

    let response = create_mock_chat_response("test-model", &messages, 7);
    assert_eq!(response.object, "chat.completion");
    assert_eq!(response.model, "test-model");
    assert_eq!(response.choices.len(), 1);
    assert_eq!(response.created, 7);
    assert!(response.id.starts_with("chatcmpl-"));
    assert_eq!(
        response.choices[0].message.content.as_deref(),
        Some("\"This is a mock response to: Hello, world!\"")
    );
    let usage = response.usage.unwrap();
    assert_eq!(usage.prompt_tokens, 4);
    assert_eq!(usage.completion_tokens, 11);
    assert_eq!(usage.total_tokens, 15);
}

#[test]
fn mock_chat_response_without_text() {
    let none = create_mock_chat_response("m", &[], 0);
    assert_eq!(
        none.choices[0].message.content.as_deref(),
        Some("\"This is a mock response to: No message received.\"")
    );
    let parts = vec![OpenAIMessage {
        role: "user".to_string(),
        content: MessageContent::Parts(vec![ContentPart::Image {
            image_url: ImageUrl { url: "data:image/png;base64,AA==".to_string() },
        }]),
    }];
    let some = create_mock_chat_response("m", &parts, 0);
    assert_eq!(
        some.choices[0].message.content.as_deref(),
        Some("\"This is a mock response to: I received your message with multiple parts.\"")
    );
}

#[test]
fn test_create_mock_completion_response() {
    let response = create_mock_completion_response("test-model", "Hello", 9);
    assert_eq!(response.object, "text_completion");
    assert_eq!(response.model, "test-model");
    assert_eq!(response.text, "This is a mock completion for: Hello");
    assert_eq!(response.finish_reason, "stop");
    assert_eq!(response.created, 9);
    assert!(response.id.starts_with("cmpl-"));
    assert_eq!(response.id.len(), 5 + 36);
    assert_eq!(response.usage.prompt_tokens, 2);
    assert_eq!(response.usage.completion_tokens, 9);
    assert_eq!(response.usage.total_tokens, 11);
}

#[test]
fn model_access_needs_a_listed_model_and_credentials() {
    let config = two_lists();
    assert_eq!(validate_model_access(&config, "gemini-1.5-pro", Some(true)), Ok(()));
    assert_eq!(
        validate_model_access(&config, "other", Some(true)),
        Err(ModelAccessError::NotAvailable)
    );
    assert_eq!(
        validate_model_access(&config, "gemini-2.0-flash", None),
        Err(ModelAccessError::NotInitialized)
    );
    assert_eq!(
        validate_model_access(&config, "gemini-2.0-flash", Some(false)),
        Err(ModelAccessError::NoCredentials)
    );
    assert_eq!(
        ModelAccessError::NotAvailable.message("x"),
        "Model 'x' is not available or not found"
    );
}

#[test]
fn streaming_chunks_of_the_secondary_backend() {
    let chunk = create_streaming_chunk("", "m", None, 3);
    assert_eq!(chunk.object, "chat.completion.chunk");
    assert_eq!(chunk.choices[0].delta.content.as_deref(), Some(""));
    assert_eq!(chunk.choices[0].finish_reason, None);
    let last = create_streaming_chunk("bye", "m", Some("length"), 3);
    assert_eq!(last.choices[0].delta.content.as_deref(), Some("bye"));
    assert_eq!(last.choices[0].finish_reason.as_deref(), Some("length"));
    let end = create_final_streaming_chunk("m", 4);
    assert_eq!(end.choices[0].delta.content, None);
    assert_eq!(end.choices[0].finish_reason.as_deref(), Some("stop"));
    assert_eq!(end.created, 4);
}

#[test]
fn converted_chunks_drop_the_obfuscation() {
    let plain = convert_chunk_to_openai("Hello", "m", false, 1);
    assert_eq!(plain.choices[0].delta.content.as_deref(), Some("Hello"));
    assert_eq!(plain.choices[0].finish_reason, None);
    let empty = convert_chunk_to_openai("", "m", true, 1);
    assert_eq!(empty.choices[0].delta.content, None);
    assert_eq!(empty.choices[0].finish_reason.as_deref(), Some("stop"));
}

#[test]
fn converted_reply_estimates_missing_token_counts() {
    let response = convert_to_openai_format("12345678", "m", None, 5);
    assert_eq!(response.choices[0].message.content.as_deref(), Some("\"12345678\""));
    let usage = response.usage.unwrap();
    assert_eq!((usage.prompt_tokens, usage.completion_tokens, usage.total_tokens), (2, 2, 4));
    let given = rujimi::models::schemas::Usage {
        prompt_tokens: 10,
        completion_tokens: 20,
        total_tokens: 30,
    };
    let response = convert_to_openai_format("x", "m", Some(given), 5);
    assert_eq!(response.usage.unwrap().total_tokens, 30);
}

#[test]
fn vertex_settings_are_checked() {
    let mut settings = Settings::default();
    assert_eq!(validate_vertex_settings(&settings), Ok(()));
    settings.google_credentials_json = "{\"type\": \"service_account\"}".to_string();
    assert_eq!(validate_vertex_settings(&settings), Ok(()));
    settings.google_credentials_json = "{broken".to_string();
    assert_eq!(validate_vertex_settings(&settings), Err(VertexSettingsError::CredentialsNotJson));
    settings.password = String::new();
    assert_eq!(validate_vertex_settings(&settings), Err(VertexSettingsError::ApiKeyNotSet));
    assert_eq!(
        VertexSettingsError::ApiKeyNotSet.message(),
        "API key is not set. Some functionality may be limited."
    );
}

#[test]
fn vertex_config_comes_from_settings_and_variables() {
    let mut settings = Settings::default();
    settings.vertex_express_api_key = "k1, k2,".to_string();
    let config = VertexConfig::from_settings(&settings, &Vec::new());
    assert_eq!(config.credentials_dir, "/rujimi/settings/credentials");
    assert_eq!(config.api_key, "123");
    assert_eq!(config.google_credentials_json, None);
    assert_eq!(config.project_id, None);
    assert_eq!(config.location, "us-central1");
    assert!(config.models_config_url.ends_with("vertexModels.json"));
    assert_eq!(config.vertex_express_api_keys, vec!["k1", "k2"]);
    assert!(config.fake_streaming_enabled);
    assert_eq!(config.fake_streaming_interval_ms, 1000);
    assert_eq!(config.fake_streaming_chunk_size, 10);
    assert_eq!(config.fake_streaming_delay_per_chunk_ms, 100);

    settings.storage_dir = "/data".to_string();
    settings.google_credentials_json = "{}".to_string();
    let config = VertexConfig::from_settings(
        &settings,
        &vars(&[
            ("VERTEX_PROJECT_ID", "proj"),
            ("VERTEX_LOCATION", "europe-west4"),
            ("VERTEX_MODELS_CONFIG_URL", "http://localhost/models.json"),
        ]),
    );
    assert_eq!(config.credentials_dir, "/data/credentials");
    assert_eq!(config.google_credentials_json.as_deref(), Some("{}"));
    assert_eq!(config.project_id.as_deref(), Some("proj"));
    assert_eq!(config.location, "europe-west4");
    assert_eq!(config.models_config_url, "http://localhost/models.json");

    settings.storage_dir = String::new();
    assert_eq!(VertexConfig::from_settings(&settings, &Vec::new()).credentials_dir, "credentials");
}

#[test]
fn vertex_config_updates_follow_the_variable() {
    let mut settings = Settings::default();
    let mut config = VertexConfig::from_settings(&settings, &Vec::new());
    assert_eq!(config.update_config(&mut settings, "VERTEX_API_KEY", "pw".to_string()), Ok(true));
    assert_eq!((config.api_key.as_str(), settings.password.as_str()), ("pw", "pw"));
    assert_eq!(
        config.update_config(&mut settings, "VERTEX_EXPRESS_API_KEY", "a, b".to_string()),
        Ok(true)
    );
    assert_eq!(config.vertex_express_api_keys, vec!["a", "b"]);
    assert_eq!(settings.vertex_express_api_key, "a, b");
    assert_eq!(config.update_config(&mut settings, "VERTEX_LOCATION", "asia".to_string()), Ok(true));
    assert_eq!(config.location, "asia");
    assert_eq!(config.update_config(&mut settings, "FAKE_STREAMING", "false".to_string()), Ok(true));
    assert!(!config.fake_streaming_enabled && !settings.fake_streaming);
    assert_eq!(
        config.update_config(&mut settings, "FAKE_STREAMING", "yes".to_string()),
        Err(VertexConfigError::NotASwitch)
    );
    assert_eq!(
        config.update_config(&mut settings, "FAKE_STREAMING_INTERVAL", "0.25".to_string()),
        Ok(true)
    );
    assert_eq!((config.fake_streaming_interval_ms, settings.fake_streaming_interval_ms), (250, 250));
    assert_eq!(
        config.update_config(&mut settings, "FAKE_STREAMING_CHUNK_SIZE", "-1".to_string()),
        Err(VertexConfigError::NotANumber)
    );
    assert_eq!(config.fake_streaming_chunk_size, 10);
    assert_eq!(
        config.update_config(&mut settings, "FAKE_STREAMING_CHUNK_SIZE", "32".to_string()),
        Ok(true)
    );
    assert_eq!((config.fake_streaming_chunk_size, settings.fake_streaming_chunk_size), (32, 32));
    assert_eq!(
        config.update_config(&mut settings, "FAKE_STREAMING_DELAY_PER_CHUNK", "x".to_string()),
        Err(VertexConfigError::NotANumber)
    );
    assert_eq!(config.update_config(&mut settings, "SOMETHING_ELSE", "1".to_string()), Ok(false));
}

#[test]
fn vertex_config_reload_takes_keys_and_credentials_over() {
    let mut settings = Settings::default();
    let mut config = VertexConfig::from_settings(&settings, &vars(&[("VERTEX_LOCATION", "here")]));
    settings.password = "new".to_string();
    settings.google_credentials_json = "{}".to_string();
    settings.vertex_express_api_key = "z".to_string();
    settings.storage_dir = "/elsewhere".to_string();
    config.reload_config(&settings);
    assert_eq!(config.api_key, "new");
    assert_eq!(config.google_credentials_json.as_deref(), Some("{}"));
    assert_eq!(config.vertex_express_api_keys, vec!["z"]);
    assert_eq!(config.location, "here");
    assert_eq!(config.credentials_dir, "/rujimi/settings/credentials");
}

#[test]
fn test_vertex_ai_client_new() {
    let settings = Settings::default();
    let config = VertexConfig::from_settings(&settings, &Vec::new());

    let client = VertexAIClient::new(config);
    assert!(!client.is_initialized);
}

#[test]
fn test_is_vertex_ai_available() {
    assert!(!is_vertex_ai_available(None, 0));
}

#[test]
fn test_get_vertex_ai_status() {
    let status = get_vertex_ai_status(None, 0);
    assert_eq!(status.initialized, false);
    assert_eq!(status.error.as_deref(), Some("No Vertex AI client available"));
}

#[test]
fn vertex_client_is_initialized_when_it_has_credentials() {
    let mut settings = Settings::default();
    let client = init_vertex_ai(&settings, &Vec::new(), 0);
    assert!(client.is_initialized);
    assert!(is_vertex_ai_available(Some(&client), 0));
    let status = get_vertex_ai_status(Some(&client), 0);
    assert!(status.initialized && status.has_credentials);
    assert_eq!(status.api_key_set, Some(true));
    assert_eq!(status.google_credentials_set, Some(false));
    assert_eq!(status.location.as_deref(), Some("us-central1"));
    assert_eq!(status.vertex_express_keys_count, Some(0));
    assert_eq!(status.error, None);

    settings.password = String::new();
    let bare = init_vertex_ai(&settings, &Vec::new(), 0);
    assert!(!bare.is_initialized);
    assert!(!bare.has_credentials(0));
    assert!(bare.has_credentials(1));
    assert!(!is_vertex_ai_available(Some(&bare), 1));
    let with_file = init_vertex_ai(&settings, &Vec::new(), 2);
    assert!(with_file.is_initialized);
    let mut late = bare.clone();
    late.initialize(1);
    assert!(late.is_initialized);
    late.initialize(0);
    assert!(late.is_initialized);
}

#[test]
fn credentials_of_the_settings_are_stored_one_by_one() {
    let mut settings = Settings::default();
    assert!(credentials_to_store(&settings).is_empty());
    settings.google_credentials_json = "   ".to_string();
    assert!(credentials_to_store(&settings).is_empty());
    let account = r#"{"type":"service_account","project_id":"p","private_key_id":"i","private_key":"k","client_email":"e"}"#;
    settings.google_credentials_json = format!("{account}, {{\"type\": \"other\"}} {account}");
    assert_eq!(credentials_to_store(&settings), vec![account.to_string(), account.to_string()]);
}

#[test]
fn request_parameters_are_checked_in_order() {
    assert_eq!(validate_request_parameters("m", 1, None, None), None);
    assert_eq!(validate_request_parameters("m", 1, Some(1), Some(1)), None);
    assert_eq!(validate_request_parameters("  ", 0, Some(0), Some(0)), Some(ParameterError::EmptyModel));
    assert_eq!(validate_request_parameters("m", 0, Some(0), Some(0)), Some(ParameterError::NoMessages));
    assert_eq!(
        validate_request_parameters("m", 2, Some(0), Some(0)),
        Some(ParameterError::MaxTokensNotPositive)
    );
    assert_eq!(
        validate_request_parameters("m", 2, Some(5), Some(-1)),
        Some(ParameterError::TopKNotPositive)
    );
    assert_eq!(ParameterError::NoMessages.message(), "Messages array cannot be empty");
}

#[test]
fn defaults_of_the_provider_request() {
    assert_eq!(default_gemini_top_k(), Some(40));
    assert_eq!(default_max_output_tokens(), Some(2048));
}

#[test]
fn model_info_and_capabilities_follow_the_lists() {
    let config = two_lists();
    let info = get_model_info(&config, "gemini-1.5-pro").unwrap();
    assert_eq!(info.id, "gemini-1.5-pro");
    assert_eq!(info.model_type, ModelType::Vertex);
    assert!(get_model_info(&config, "absent").is_none());

    let full = get_model_capabilities(&config, "gemini-1.5-pro").unwrap();
    assert!(full.supports_functions && full.supports_vision && full.supports_json_mode);
    assert_eq!((full.max_tokens, full.context_window), (32768, 1_000_000));
    assert_eq!((full.requests_per_minute, full.tokens_per_minute), (60, 60_000));
    let express = get_model_capabilities(&config, "gemini-2.0-flash").unwrap();
    assert!(!express.supports_functions && !express.supports_vision);
    assert_eq!((express.max_tokens, express.context_window), (8192, 8192));
    assert_eq!((express.requests_per_minute, express.tokens_per_minute), (600, 100_000));
    assert_eq!(get_model_capabilities(&config, "absent"), None);

    let other = ModelConfig::with_models(vec!["text-bison".to_string()], Vec::new());
    let plain = get_model_capabilities(&other, "text-bison").unwrap();
    assert!(!plain.supports_vision);
    assert_eq!(plain.context_window, 32768);
}
