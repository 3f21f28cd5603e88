use rujimi::models::schemas::{
    GeminiCandidate, GeminiContent, GeminiFunctionCall, GeminiGenerationConfig, GeminiPart,
    GeminiResponse, GeminiSafetyRating, GeminiUsageMetadata,
};
use rujimi::utils::api_key::ApiKeyStats;
use rujimi::utils::response::empty_completion;
use rujimi::utils::stats::ApiStats;
use rujimi::api::dashboard::ConfigUpdateStatus;
use rujimi::config::manager::{ConfigError, ConfigManager, ConfigValue};
use rujimi::vertex::credentials_manager::{has_all_fields, CredentialManager};
use rujimi::config::settings::Settings;
use rujimi::services::response_wrapper::GeminiResponseWrapper;
use rujimi::utils::auth::is_public_mode;
use rujimi::utils::logging::{
    log, vertex_log, ExtraValue, LogEntry, LogManager, VertexLogManager,
};
use rujimi::utils::maintenance::handle_exception_with_context;
use rujimi::utils::request::{ActiveRequest, ActiveRequestsManager};

fn text(s: &str) -> ExtraValue {
    ExtraValue { as_str: Some(s.to_string()), as_u64: None }
}

#[test]
fn test_exception_handling() {
    let mut manager = LogManager::new(100);
    let error = std::io::Error::new(std::io::ErrorKind::NotFound, "Test error");
    let context = "test_context";

    handle_exception_with_context(&mut manager, &error.to_string(), context, None, 0);

    assert!(manager.count() > 0);
}

#[test]
fn exception_entry_carries_the_translated_error() {
    let mut manager = LogManager::new(10);
    let line = handle_exception_with_context(
        &mut manager,
        "Test error",
        "sweep",
        Some(vec![("key".to_string(), text("AIzaSyAB")), ("model".to_string(), text("m1"))]),
        1_000,
    );
    let logs = manager.get_logs();
    assert_eq!(logs.len(), 1);
    assert_eq!(logs[0].level, "error");
    assert_eq!(logs[0].message, "异常在 sweep: Test error");
    assert_eq!(logs[0].status_code, Some(500));
    assert_eq!(logs[0].error_message.as_deref(), Some("Test error"));
    assert_eq!(logs[0].key.as_deref(), Some("AIzaSyAB"));
    assert_eq!(logs[0].model.as_deref(), Some("m1"));
    assert_eq!(logs[0].timestamp, 1_000);
    assert_eq!(line, "[1970-01-01 00:00:01.000] [error] [AIzaSyAB]---[m1]-500: 异常在 sweep: Test error");
}

#[test]
fn log_calls_fill_the_memory() {
    let mut manager = LogManager::new(2);
    let line = log(
        &mut manager,
        "info",
        "first",
        Some(vec![("request_type".to_string(), text("chat"))]),
        0,
    );
    assert_eq!(line, "[1970-01-01 00:00:00.000] [info] [-]-chat-[-]--: first");
    log(&mut manager, "info", "second", None, 1);
    log(&mut manager, "info", "third", None, 2);
    let messages: Vec<String> = manager.get_logs().into_iter().map(|e| e.message).collect();
    assert_eq!(messages, vec!["second", "third"]);

    let mut vertex = VertexLogManager::new(1);
    let line = vertex_log(
        &mut vertex,
        "warn",
        "slow",
        Some(vec![("operation".to_string(), text("chat"))]),
        0,
    );
    assert_eq!(line, "[1970-01-01 00:00:00.000] [warn] [-]-chat-[-]: slow");
    assert_eq!(vertex.get_logs().len(), 1);
}

#[test]
fn request_details_follow_the_register() {
    let mut manager = ActiveRequestsManager::new();
    manager.add(
        "a".to_string(),
        ActiveRequest::new(1_000)
            .with_id("id-a".to_string())
            .with_metadata(vec![("model".to_string(), "\"m\"".to_string())]),
    );
    manager.add("b".to_string(), ActiveRequest::new(9_000).with_task_handle());
    manager.mark_finished("b");
    let info = manager.get_detailed_info(6_500);
    assert_eq!(info.len(), 2);
    assert_eq!(info[0].key, "a");
    assert_eq!(info[0].id, "id-a");
    assert_eq!(info[0].creation_time, 1_000);
    assert_eq!(info[0].age_seconds, 5);
    assert!(!info[0].is_finished && !info[0].has_task_handle);
    assert_eq!(info[0].metadata, Some(vec![("model".to_string(), "\"m\"".to_string())]));
    assert_eq!(info[1].key, "b");
    assert_eq!(info[1].age_seconds, 0);
    assert!(info[1].is_finished && info[1].has_task_handle);
    assert_eq!(info[1].metadata, None);
}

#[test]
fn periodic_cleanup_drops_finished_then_old_requests() {
    let mut manager = ActiveRequestsManager::new();
    manager.add("done".to_string(), ActiveRequest::new(0).with_task_handle());
    manager.mark_finished("done");
    manager.add("old".to_string(), ActiveRequest::new(0).with_task_handle());
    manager.add("older".to_string(), ActiveRequest::new(1_000));
    manager.add("young".to_string(), ActiveRequest::new(290_000));
    let (cleaned, aborted) = manager.run_periodic_cleanup(300, 301_500);
    assert_eq!(cleaned, 1);
    assert_eq!(aborted, vec!["old", "older"]);
    assert_eq!(manager.count(), 1);
    assert!(manager.contains("young"));
    let (cleaned, aborted) = manager.run_periodic_cleanup(300, 301_500);
    assert_eq!((cleaned, aborted.len()), (0, 0));
}

fn response_with(parts: Vec<GeminiPart>, finish: &str, rated: bool) -> GeminiResponse {
    GeminiResponse {
        candidates: vec![GeminiCandidate {
            content: GeminiContent { role: "model".to_string(), parts },
            finish_reason: Some(finish.to_string()),
            index: Some(0),
            safety_ratings: if rated {
                Some(vec![
                    GeminiSafetyRating {
                        category: "HARM_CATEGORY_HARASSMENT".to_string(),
                        probability: "LOW".to_string(),
                    },
                    GeminiSafetyRating {
                        category: "HARM_CATEGORY_HATE_SPEECH".to_string(),
                        probability: "NEGLIGIBLE".to_string(),
                    },
                ])
            } else {
                None
            },
        }],
        usage_metadata: Some(GeminiUsageMetadata {
            prompt_token_count: Some(3),
            candidates_token_count: None,
            total_token_count: Some(8),
        }),
        prompt_feedback: None,
    }
}

#[test]
fn metadata_of_a_response() {
    let plain = GeminiResponseWrapper::new(response_with(
        vec![GeminiPart::Text { text: "hi".to_string() }],
        "STOP",
        true,
    ));
    let m = plain.get_metadata();
    assert_eq!(m.model_type, "standard");
    assert_eq!(m.candidate_count, 1);
    assert!(!m.has_function_calls);
    assert!(!m.is_blocked);
    let tokens = m.tokens.unwrap();
    assert_eq!((tokens.prompt_tokens, tokens.completion_tokens, tokens.total_tokens), (3, 0, 8));
    let ratings = plain.get_safety_ratings();
    assert_eq!(ratings.len(), 2);
    assert_eq!(ratings[0].category, "HARM_CATEGORY_HARASSMENT");
    assert_eq!(ratings[1].probability, "NEGLIGIBLE");

    let calling = GeminiResponseWrapper::new(response_with(
        vec![GeminiPart::FunctionCall {
            function_call: GeminiFunctionCall { name: "f".to_string(), args: "{}".to_string() },
        }],
        "SAFETY",
        false,
    ));
    let m = calling.get_metadata();
    assert!(m.has_function_calls);
    assert!(m.is_blocked);
    assert!(calling.get_safety_ratings().is_empty());

    let empty = GeminiResponseWrapper::new(GeminiResponse {
        candidates: Vec::new(),
        usage_metadata: None,
        prompt_feedback: None,
    });
    let m = empty.get_metadata();
    assert_eq!(m.candidate_count, 0);
    assert!(!m.has_function_calls && !m.is_blocked);
    assert!(m.tokens.is_none());
    assert!(empty.get_safety_ratings().is_empty());
}

#[test]
fn register_made_from_a_pool_of_requests() {
    let manager = ActiveRequestsManager::with_requests_pool(vec![
        ("x".to_string(), ActiveRequest::new(0)),
        ("y".to_string(), ActiveRequest::new(5)),
    ]);
    assert_eq!(manager.count(), 2);
    assert!(manager.contains("x") && manager.contains("y"));
    assert!(!manager.contains("z"));
}

#[test]
fn settings_can_be_replaced_and_keys_marked_invalid() {
    let mut manager = ConfigManager::initialize(Settings::default());
    let mut next = Settings::default();
    next.gemini_api_keys = vec!["a".to_string(), "b".to_string()];
    next.update_invalid_keys(vec!["a".to_string()]);
    next.public_mode = true;
    manager.replace_settings(next);
    assert_eq!(manager.get_settings().get_valid_api_keys(), vec!["b"]);
    assert_eq!(manager.get_settings().invalid_api_keys, vec!["a"]);
    assert!(is_public_mode(manager.get_settings()));
    assert!(!is_public_mode(&Settings::default()));
}

#[test]
fn log_entry_keeps_its_extras() {
    let extras = vec![("status_code".to_string(), ExtraValue { as_str: None, as_u64: Some(404) })];
    let entry = LogEntry::new("info", "m", 0).with_extra(extras);
    assert_eq!(entry.status_code, None);
    assert_eq!(entry.extra.as_ref().map(|x| x.len()), Some(1));
    assert_eq!(entry.extra.unwrap()[0].1.as_u64, Some(404));
}

#[test]
fn usual_values_of_small_types() {
    let stats = ApiStats::default();
    assert_eq!(stats.total_requests, 0);
    assert_eq!(stats.requests_last_day, 0);
    assert_eq!(stats.total_response_time_ms, 0);
    let config = GeminiGenerationConfig::default();
    assert_eq!(config.candidate_count, Some(1));
    assert!(config.top_k.is_none() && config.max_output_tokens.is_none());
    assert!(config.stop_sequences.is_none());
    let key = ApiKeyStats::fresh(42);
    assert_eq!((key.daily_usage, key.last_used, key.consecutive_failures), (0, 42, 0));
    let empty = empty_completion(9);
    assert!(empty.id.starts_with("chatcmpl-"));
    assert_eq!(empty.id.len(), 9 + 36);
    assert_eq!(empty.object, "chat.completion");
    assert_eq!(empty.model, "gemini-pro");
    assert_eq!(empty.created, 9);
    assert!(empty.choices.is_empty() && empty.usage.is_none());
}

#[test]
fn unknown_setting_is_refused_with_its_name() {
    let mut manager = ConfigManager::initialize(Settings::default());
    let value = ConfigValue {
        as_bool: None,
        as_u64: Some(1),
        as_i64: Some(1),
        as_millis: Some(1000),
        as_str: None,
    };
    let refused = manager.update_config("no_such_key", &value);
    assert_eq!(refused, Err(ConfigError::UnsupportedKey));
    assert_eq!(
        refused.unwrap_err().message("no_such_key"),
        "Unsupported configuration key: no_such_key"
    );
    let after = manager.get_settings();
    let usual = Settings::default();
    assert_eq!(after.max_requests_per_minute, usual.max_requests_per_minute);
    assert_eq!(after.concurrent_requests, usual.concurrent_requests);
    assert_eq!(after.fake_streaming, usual.fake_streaming);
    assert_eq!(after.gemini_api_keys, usual.gemini_api_keys);
}

#[test]
fn dashboard_reports_the_outcome_of_an_update() {
    assert_eq!(ConfigUpdateStatus::Accepted.status(), "success");
    assert_eq!(ConfigUpdateStatus::Unsupported.status(), "error");
    assert_eq!(
        ConfigUpdateStatus::Accepted.message("search_mode"),
        "Configuration item search_mode updated"
    );
    assert_eq!(
        ConfigUpdateStatus::Unsupported.message("port"),
        "Unsupported configuration key: port"
    );
}

#[test]
fn required_fields_are_looked_for_among_the_keys() {
    let keys = |names: &[&str]| names.iter().map(|n| n.to_string()).collect::<Vec<String>>();
    assert!(has_all_fields(&keys(&["b", "a", "c"]), &keys(&["a", "b"])));
    assert!(has_all_fields(&keys(&["a"]), &keys(&[])));
    assert!(has_all_fields(&keys(&[]), &keys(&[])));
    assert!(!has_all_fields(&keys(&["a", "c"]), &keys(&["a", "b"])));
    assert!(!has_all_fields(&keys(&[]), &keys(&["a"])));
    let account = r#"{"type":"service_account","project_id":"p","private_key_id":"i","private_key":"k","client_email":"e"}"#;
    assert!(CredentialManager::validate_credential_text(account));
    assert!(!CredentialManager::validate_credential_text(r#"{"type":"service_account"}"#));
    assert!(!CredentialManager::validate_credential_text(r#"["type","project_id","private_key_id","private_key","client_email"]"#));
    assert!(!CredentialManager::validate_credential_text("{"));
}
