use rujimi::api::dashboard::{
    clear_cache, get_config, get_dashboard_data, get_key_stats, get_stats, key_stat_info,
    reset_keys, reset_stats, update_config, ConfigUpdateStatus,
};
use rujimi::api::routes::{
    embeddings, handle_embedding_outcome, list_models, AppState, ForwardedHeaders, GatewayError,
    RequestMeta,
};
use rujimi::config::manager::{ConfigError, ConfigManager, ConfigValue};
use rujimi::config::settings::{
    parse_bool, parse_comma_separated, parse_comma_separated_set,
    parse_comma_separated_set_lowercase, Settings,
};
use rujimi::models::schemas::{ChatCompletionResponse, Usage};
use rujimi::utils::api_key::ApiKeyStats;
use rujimi::utils::auth::{AuthHeaders, AuthQuery};
use rujimi::utils::cache::{CacheStats, ResponseCacheManager};
use rujimi::utils::maintenance::{
    api_call_stats_clean, emergency_cleanup, perform_health_check, HealthIssue,
    HealthReadings, MemoryReading,
};
use rujimi::utils::request::{
    create_request_with_metadata, ActiveRequest, ActiveRequestsManager, RequestStatistics,
};
use rujimi::utils::stats::ApiStatsManager;
use rujimi::vertex::credentials_manager::CredentialManager;
use rujimi::vertex::message_processing::{
    extract_base64_image_data, parse_gemini_response_for_reasoning_and_content,
    validate_image_url, ImageDataError, ImageUrlError,
};

fn bearer(token: &str) -> AuthHeaders {
    AuthHeaders {
        authorization: Some(format!("Bearer {}", token)),
        x_goog_api_key: None,
        x_api_key: None,
    }
}

fn no_query() -> AuthQuery {
    AuthQuery { key: None, password: None }
}

fn settings() -> Settings {
    let mut s = Settings::default();
    s.password = "api".to_string();
    s.web_password = "admin".to_string();
    s
}

fn response(id: &str) -> ChatCompletionResponse {
    ChatCompletionResponse {
        id: id.to_string(),
        object: "chat.completion".to_string(),
        created: 1,
        model: "m".to_string(),
        choices: vec![],
        usage: Some(Usage { prompt_tokens: 0, completion_tokens: 0, total_tokens: 0 }),
        system_fingerprint: None,
    }
}

fn flag(b: bool) -> ConfigValue {
    ConfigValue { as_bool: Some(b), as_u64: None, as_i64: None, as_millis: None, as_str: None }
}

fn number(n: u64) -> ConfigValue {
    ConfigValue {
        as_bool: None,
        as_u64: Some(n),
        as_i64: i64::try_from(n).ok(),
        as_millis: Some(n.saturating_mul(1000)),
        as_str: None,
    }
}

fn text(t: &str) -> ConfigValue {
    ConfigValue { as_bool: None, as_u64: None, as_i64: None, as_millis: None, as_str: Some(t.to_string()) }
}

#[test]
fn settings_parsers() {
    assert!(parse_bool("true"));
    assert!(parse_bool("TRUE"));
    assert!(parse_bool("1"));
    assert!(parse_bool("Yes"));
    assert!(!parse_bool("false"));
    assert!(!parse_bool(" true"));
    assert!(!parse_bool(""));
    assert_eq!(parse_comma_separated(" a, b ,,c "), vec!["a", "b", "c"]);
    assert_eq!(parse_comma_separated("   "), Vec::<String>::new());
    assert_eq!(parse_comma_separated(""), Vec::<String>::new());
    assert_eq!(parse_comma_separated_set("b,a,b, a ,c"), vec!["b", "a", "c"]);
    assert_eq!(parse_comma_separated_set_lowercase("Mozilla, CURL,mozilla"), vec!["mozilla", "curl"]);
}

#[test]
fn config_manager_updates_by_key() {
    let mut m = ConfigManager::initialize(Settings::default());
    assert_eq!(m.update_config("fake_streaming", &flag(false)), Ok(()));
    assert!(!m.get_settings().fake_streaming);
    assert_eq!(m.update_config("search_mode", &flag(true)), Ok(()));
    assert!(m.get_settings().search.search_mode);
    assert_eq!(m.update_config("max_cache_entries", &number(7)), Ok(()));
    assert_eq!(m.get_settings().max_cache_entries, 7);
    assert_eq!(m.update_config("max_requests_per_minute", &number(4_294_967_297)), Ok(()));
    assert_eq!(m.get_settings().max_requests_per_minute, 1);
    assert_eq!(m.update_config("cache_expiry_time", &number(60)), Ok(()));
    assert_eq!(m.get_settings().cache_expiry_time, 60);
    assert_eq!(m.update_config("nonstream_keepalive_interval", &number(2)), Ok(()));
    assert_eq!(m.get_settings().nonstream_keepalive_interval_ms, 2000);
    let chunk = ConfigValue { as_bool: None, as_u64: None, as_i64: Some(-3), as_millis: None, as_str: None };
    assert_eq!(m.update_config("fake_streaming_chunk_size", &chunk), Ok(()));
    assert_eq!(m.get_settings().fake_streaming_chunk_size, -3);
    let wide = ConfigValue { as_bool: None, as_u64: None, as_i64: Some(4_294_967_301), as_millis: None, as_str: None };
    assert_eq!(m.update_config("fake_streaming_chunk_size", &wide), Ok(()));
    assert_eq!(m.get_settings().fake_streaming_chunk_size, 5);
    assert_eq!(m.update_config("gemini_api_keys", &text(" k1, k2 ,")), Ok(()));
    assert_eq!(m.get_settings().gemini_api_keys, vec!["k1", "k2"]);
    assert_eq!(m.update_config("search_prompt", &text("look it up")), Ok(()));
    assert_eq!(m.get_settings().search.search_prompt, "look it up");
    assert_eq!(m.update_config("dashboard_url", &text("http://d")), Ok(()));
    assert_eq!(m.get_settings().dashboard_url, "http://d");
    // A value of the wrong kind changes nothing.
    assert_eq!(m.update_config("fake_streaming", &number(1)), Ok(()));
    assert!(!m.get_settings().fake_streaming);
    assert_eq!(m.update_config("no_such_key", &flag(true)), Err(ConfigError::UnsupportedKey));
    assert_eq!(m.update_config("password", &text("x")), Err(ConfigError::UnsupportedKey));
    assert_eq!(m.get_settings().password, "123");
}

#[test]
fn config_manager_reads_back() {
    let mut s = Settings::default();
    s.gemini_api_keys = vec!["a".to_string(), "b".to_string()];
    let m = ConfigManager::initialize(s);
    assert_eq!(m.get_config_value("fake_streaming").unwrap().as_bool, Some(true));
    assert_eq!(m.get_config_value("concurrent_requests").unwrap().as_u64, Some(1));
    assert_eq!(m.get_config_value("max_requests_per_minute").unwrap().as_u64, Some(30));
    assert_eq!(m.get_config_value("fake_streaming_interval").unwrap().as_millis, Some(1000));
    assert_eq!(m.get_config_value("gemini_api_keys").unwrap().as_str, Some("a,b".to_string()));
    assert!(m.get_config_value("password").is_none());
}

#[test]
fn dashboard_gates_and_operations() {
    let mut state = AppState::new(settings(), 0);
    state.key_manager.initialize(vec![("key-one-long".to_string(), true)], 5);
    state.stats_manager.record_api_call("m".to_string(), 3, true, 10, None, 6);
    state.cache_manager.put("fp".to_string(), response("r"), 7);
    assert_eq!(get_stats(&state, &bearer("wrong"), &no_query()), Err(401));
    assert_eq!(get_config(&state, &bearer("wrong"), &no_query()), Err(401));
    assert!(get_key_stats(&state, &bearer("wrong"), &no_query()).is_err());
    assert!(get_dashboard_data(&state, &bearer("wrong"), &no_query(), 9).is_err());
    let stats = get_stats(&state, &bearer("api"), &no_query()).unwrap();
    assert_eq!(stats.total_requests, 1);
    assert_eq!(stats.tokens_used, 3);
    assert_eq!(stats.requests_per_minute, 1);
    let config = get_config(&state, &bearer("api"), &no_query()).unwrap();
    assert!(config.fake_streaming);
    assert!(config.cache_enabled);
    assert!(!config.search_mode);
    let data = get_dashboard_data(&state, &bearer("api"), &no_query(), 9_000).unwrap();
    assert!(data.status.running);
    assert_eq!(data.status.uptime, 9);
    assert_eq!(data.status.api_keys_available, 1);
    assert_eq!(data.status.cache_entries, 1);
    assert_eq!(data.version.current, "1.0.2");
    assert_eq!(data.key_stats.len(), 1);
    assert_eq!(data.key_stats[0].key_prefix, "key-one-...");
    assert_eq!(data.key_stats[0].last_used, "1970-01-01 00:00:00 UTC");
    // Only an administrator may reset or clear.
    assert_eq!(reset_stats(&mut state, &bearer("api"), &no_query(), 10), Err(403));
    assert_eq!(clear_cache(&mut state, &bearer("api"), &no_query()), Err(403));
    assert_eq!(reset_keys(&mut state, &bearer("api"), &no_query()), Err(403));
    assert_eq!(clear_cache(&mut state, &bearer("nobody"), &no_query()), Err(401));
    assert_eq!(state.cache_manager.size(), 1);
    assert_eq!(state.stats_manager.get_stats().total_requests, 1);
    assert_eq!(reset_stats(&mut state, &bearer("admin"), &no_query(), 10), Ok(()));
    assert_eq!(state.stats_manager.get_stats().total_requests, 0);
    assert_eq!(clear_cache(&mut state, &bearer("admin"), &no_query()), Ok(()));
    assert_eq!(state.cache_manager.size(), 0);
    state.key_manager.mark_key_used("key-one-long", true, 11);
    assert_eq!(reset_keys(&mut state, &bearer("admin"), &no_query()), Ok(()));
    assert_eq!(state.key_manager.get_key_stats()[0].1.daily_usage, 0);
}

#[test]
fn dashboard_update_config_verdicts() {
    let s = settings();
    assert_eq!(update_config(&s, "wrong", "fake_streaming", &flag(true)), Err(401));
    assert_eq!(update_config(&s, "admin", "fake_streaming", &flag(true)), Ok(ConfigUpdateStatus::Accepted));
    assert_eq!(update_config(&s, "admin", "fake_streaming", &number(1)), Err(400));
    assert_eq!(update_config(&s, "admin", "concurrent_requests", &number(0)), Err(400));
    assert_eq!(update_config(&s, "admin", "concurrent_requests", &number(2)), Ok(ConfigUpdateStatus::Accepted));
    assert_eq!(update_config(&s, "admin", "max_requests_per_minute", &number(4_294_967_296)), Err(400));
    assert_eq!(update_config(&s, "admin", "cache_expiry_time", &number(0)), Err(400));
    assert_eq!(update_config(&s, "admin", "gemini_api_keys", &text("a,b")), Ok(ConfigUpdateStatus::Accepted));
    assert_eq!(update_config(&s, "admin", "gemini_api_keys", &flag(true)), Err(400));
    assert_eq!(update_config(&s, "admin", "password", &text("x")), Ok(ConfigUpdateStatus::Unsupported));
}

#[test]
fn key_stat_dates() {
    let info = key_stat_info(
        "short",
        ApiKeyStats { daily_usage: 1, last_used: 1_700_000_000_123, consecutive_failures: 2 },
    );
    assert_eq!(info.key_prefix, "short...");
    assert_eq!(info.last_used, "2023-11-14 22:13:20 UTC");
    let far = key_stat_info(
        "k",
        ApiKeyStats { daily_usage: 0, last_used: u64::MAX, consecutive_failures: 0 },
    );
    assert_eq!(far.last_used, "18446744073709551615");
}

#[test]
fn model_list_with_search_variants() {
    let mut s = Settings::default();
    let models = vec!["gemini-pro".to_string(), "text-embedding-004".to_string()];
    let plain = list_models(&models, &s, 5);
    assert_eq!(plain.object, "list");
    let ids: Vec<&str> = plain.data.iter().map(|m| m.id.as_str()).collect();
    assert_eq!(ids, vec!["gemini-pro", "text-embedding-004"]);
    assert!(plain.data.iter().all(|m| m.owned_by == "google" && m.object == "model" && m.created == 5));
    s.search.search_mode = true;
    let searched = list_models(&models, &s, 5);
    let ids: Vec<&str> = searched.data.iter().map(|m| m.id.as_str()).collect();
    assert_eq!(ids, vec!["gemini-pro", "gemini-pro-search", "text-embedding-004"]);
}

#[test]
fn embedding_round_trip() {
    let mut state = AppState::new(settings(), 0);
    let meta = |token: &str| RequestMeta {
        auth: bearer(token),
        query: no_query(),
        user_agent: None,
        forwarded: ForwardedHeaders { x_forwarded_for: None, x_real_ip: None, cf_connecting_ip: None },
    };
    assert!(matches!(
        embeddings(&mut state, &meta("wrong"), "e", 1),
        Err(GatewayError::Authentication)
    ));
    assert!(matches!(
        embeddings(&mut state, &meta("api"), "e", 1),
        Err(GatewayError::NoCredentialsAvailable)
    ));
    state.key_manager.initialize(vec![("k".to_string(), true)], 1);
    let flight = embeddings(&mut state, &meta("api"), "e", 100).expect("dispatch");
    assert_eq!(flight.api_key, "k");
    assert_eq!(flight.model, "e");
    assert!(handle_embedding_outcome(&mut state, &flight, Ok(12), 160).is_none());
    let stats = state.stats_manager.get_stats();
    assert_eq!(stats.total_tokens, 12);
    assert_eq!(stats.total_response_time_ms, 60);
    let failed = handle_embedding_outcome(&mut state, &flight, Err("nope".to_string()), 170);
    assert!(matches!(failed, Some(GatewayError::Upstream { .. })));
    assert_eq!(state.stats_manager.get_stats().failed_requests, 1);
    assert_eq!(state.key_manager.get_key_stats()[0].1.consecutive_failures, 1);
}

#[test]
fn cache_statistics() {
    let mut s = Settings::default();
    s.cache_expiry_time = 10;
    let mut cache = ResponseCacheManager::new(&s);
    assert_eq!(cache.get_stats(0), CacheStats { total_keys: 0, total_responses: 0, expired_entries: 0 });
    cache.put("a".to_string(), response("1"), 0);
    cache.put("a".to_string(), response("2"), 5_000);
    cache.put("b".to_string(), response("3"), 9_000);
    assert_eq!(
        cache.get_stats(12_000),
        CacheStats { total_keys: 2, total_responses: 3, expired_entries: 1 }
    );
    assert_eq!(cache.count_expired_entries(100_000), 3);
    assert_eq!(cache.size(), 2);
    assert_eq!(cache.get("b", 9_001).map(|r| r.id), Some("3".to_string()));
}

#[test]
fn accountant_per_ip_and_hourly() {
    let hour = 3_600_000u64;
    let day = 24 * hour;
    let now = 10 * day;
    let mut m = ApiStatsManager::new(0);
    m.record_api_call("m".to_string(), 5, true, 1, Some("a".to_string()), now - day - 1);
    m.record_api_call("m".to_string(), 7, true, 1, Some("a".to_string()), now - 2 * hour);
    m.record_api_call("m".to_string(), 11, true, 1, Some("b".to_string()), now - hour);
    m.record_api_call("m".to_string(), 13, false, 1, Some("a".to_string()), now - 1);
    m.record_api_call("m".to_string(), 17, true, 1, None, now);
    let mut per_ip = m.get_requests_per_ip_last_day(now);
    per_ip.sort();
    assert_eq!(per_ip, vec![("a".to_string(), 2), ("b".to_string(), 1)]);
    let hourly = m.get_hourly_stats(now);
    assert_eq!(hourly.len(), 24);
    assert_eq!(hourly[23], (now, 1, 17));
    assert_eq!(hourly[22], (now - hour, 2, 24));
    assert_eq!(hourly[21], (now - 2 * hour, 1, 7));
    assert_eq!(hourly[0], (now - 23 * hour, 0, 0));
    let early = m.get_hourly_stats(hour);
    assert_eq!(early[0].0, 0);
    assert_eq!(early[23].0, hour);
    assert_eq!(m.cleanup_expired_records(hour, now), 3);
    assert_eq!(m.get_stats().total_requests, 2);
    assert_eq!(m.cleanup_expired_records(hour, now), 0);
}

#[test]
fn health_check_judgement() {
    let fine = HealthReadings {
        memory: Some(MemoryReading { total: 1000, available: 100 }),
        log_count: 500,
        disk_available: Some(1_073_741_824),
    };
    assert_eq!(perform_health_check(&fine), Vec::<HealthIssue>::new());
    let bad = HealthReadings {
        memory: Some(MemoryReading { total: 1000, available: 99 }),
        log_count: 501,
        disk_available: Some(1_073_741_823),
    };
    assert_eq!(
        perform_health_check(&bad),
        vec![
            HealthIssue::MemoryHigh { total: 1000, available: 99 },
            HealthIssue::TooManyLogs { count: 501 },
            HealthIssue::DiskLow { available_bytes: 1_073_741_823 },
        ]
    );
    let unknown = HealthReadings { memory: None, log_count: 0, disk_available: None };
    assert!(perform_health_check(&unknown).is_empty());
    let odd = HealthReadings {
        memory: Some(MemoryReading { total: 0, available: 0 }),
        log_count: 0,
        disk_available: None,
    };
    assert!(perform_health_check(&odd).is_empty());
}

#[test]
fn emergency_cleanup_empties_the_cache() {
    let s = Settings::default();
    let mut cache = ResponseCacheManager::new(&s);
    let mut stats = ApiStatsManager::new(0);
    cache.put("a".to_string(), response("1"), 0);
    stats.record_api_call("m".to_string(), 1, true, 1, None, 1_000);
    stats.record_api_call("m".to_string(), 1, true, 1, None, 4_000_000);
    assert_eq!(emergency_cleanup(&mut cache, &mut stats, 4_000_001), 1);
    assert_eq!(cache.size(), 0);
    assert_eq!(stats.get_stats().total_requests, 1);
    assert_eq!(api_call_stats_clean(&mut stats, 4_000_002), 0);
}

#[test]
fn test_active_request_creation() {
    let request = ActiveRequest::new(5);
    assert!(!request.id.is_empty());
    assert!(!request.has_task);
    assert!(request.metadata.is_none());
}

#[test]
fn test_active_requests_manager() {
    let mut manager = ActiveRequestsManager::new();
    let request = ActiveRequest::new(1).with_id("test-1".to_string());
    let id = request.id.clone();
    manager.add("key-1".to_string(), request);
    assert_eq!(manager.count(), 1);
    let retrieved = manager.get("key-1");
    assert!(retrieved.is_some());
    assert_eq!(retrieved.unwrap().id, id);
    let removed = manager.remove("key-1");
    assert!(removed);
    assert_eq!(manager.count(), 0);
    assert!(!manager.remove("key-1"));
}

#[test]
fn test_request_statistics() {
    let mut manager = ActiveRequestsManager::new();
    for i in 0..5 {
        let request = ActiveRequest::new(0).with_id(format!("test-{}", i));
        manager.add(format!("key-{}", i), request);
    }
    let stats = manager.get_statistics(1);
    assert_eq!(stats.total_count, 5);
}

#[test]
fn test_cleanup_completed() {
    let mut manager = ActiveRequestsManager::new();
    let request = ActiveRequest::new(0);
    manager.add("completed-1".to_string(), request);
    let cleaned = manager.clean_completed();
    assert_eq!(cleaned, 0);
    assert!(manager.mark_finished("completed-1"));
    assert_eq!(manager.clean_completed(), 1);
    assert_eq!(manager.count(), 0);
}

#[test]
fn test_create_request_with_metadata() {
    let request = create_request_with_metadata(
        Some("gpt-4"),
        Some("test-api-key"),
        Some("chat_completion"),
        9,
    );
    assert!(request.metadata.is_some());
    let metadata = request.metadata.unwrap();
    let get = |name: &str| metadata.iter().find(|(k, _)| k == name).map(|(_, v)| v.clone());
    assert_eq!(get("model").unwrap(), "\"gpt-4\"");
    assert_eq!(get("request_type").unwrap(), "\"chat_completion\"");
    assert!(get("api_key_hash").is_some());
    assert_eq!(
        get("api_key_hash").unwrap(),
        format!("\"{:x}\"", xxhash_rust::xxh3::xxh3_64(b"test-api-key"))
    );
    assert_eq!(create_request_with_metadata(None, None, None, 9).metadata, Some(vec![]));
}

#[test]
fn request_test_health_check() {
    let manager = ActiveRequestsManager::new();
    let is_healthy = manager.health_check(0);
    assert!(is_healthy);
}

#[test]
fn request_register_details() {
    let mut manager = ActiveRequestsManager::new();
    manager.add("a".to_string(), ActiveRequest::new(0).with_task_handle());
    manager.add("b".to_string(), ActiveRequest::new(200_000).with_task_handle());
    manager.add("c".to_string(), ActiveRequest::new(0));
    manager.add("a".to_string(), ActiveRequest::new(1_000).with_id("second".to_string()).with_task_handle());
    assert_eq!(manager.count(), 3);
    assert_eq!(manager.get("a").unwrap().id, "second");
    assert!(manager.contains("c"));
    assert!(manager.mark_finished("b"));
    let now = 301_001;
    assert_eq!(
        manager.get_statistics(now),
        RequestStatistics { total_count: 3, running_count: 2, completed_count: 1, old_requests: 2 }
    );
    let mut aborted = manager.clean_long_running(300, now);
    aborted.sort();
    assert_eq!(aborted, vec!["a".to_string(), "c".to_string()]);
    assert_eq!(manager.count(), 1);
    assert_eq!(manager.clean_all(), 1);
    assert_eq!(manager.count(), 0);
    let mut crowded = ActiveRequestsManager::new();
    for i in 0..51 {
        crowded.add(format!("k{}", i), ActiveRequest::new(0));
    }
    assert!(crowded.health_check(300_000));
    assert!(!crowded.health_check(300_001));
    let key = crowded.add_auto(ActiveRequest::new(0).with_id("auto".to_string()));
    assert_eq!(key, "auto");
    assert!(crowded.contains("auto"));
}

#[test]
fn test_parse_multiple_json_credentials_empty() {
    let result = CredentialManager::parse_multiple_json_credentials("");
    assert!(result.is_empty());
}

#[test]
fn test_parse_multiple_json_credentials_valid() {
    let json_str = r#"{"type":"service_account","project_id":"test","private_key_id":"test","private_key":"test","client_email":"test@test.com"}"#;
    let credentials = CredentialManager::parse_multiple_json_credentials(json_str);
    assert_eq!(credentials.len(), 1);
    assert_eq!(credentials[0], json_str);
}

#[test]
fn credentials_are_told_apart() {
    let good = r#"{"type":"service_account","project_id":"p","private_key_id":"i","private_key":"k","client_email":"e","nested":{"a":{}}}"#;
    let lacking = r#"{"type":"service_account"}"#;
    let text = format!("  {} , {},\n{} }} {{\"broken\": ", good, lacking, good);
    let found = CredentialManager::parse_multiple_json_credentials(&text);
    assert_eq!(found, vec![good.to_string(), good.to_string()]);
    assert!(CredentialManager::validate_credential_text(good));
    assert!(!CredentialManager::validate_credential_text(lacking));
    assert!(!CredentialManager::validate_credential_text("[1,2]"));
    assert!(!CredentialManager::validate_credential_text("not json"));
}

#[test]
fn test_validate_image_url() {
    assert!(validate_image_url("https://example.com/image.jpg").is_ok());
    assert!(validate_image_url("data:image/png;base64,iVBORw0KGgo=").is_ok());
    assert!(validate_image_url("ftp://example.com/image.jpg").is_err());
    assert_eq!(validate_image_url("ftp://example.com/image.jpg"), Err(ImageUrlError::UnsupportedScheme));
    assert_eq!(validate_image_url("not a url"), Err(ImageUrlError::InvalidFormat));
    assert!(validate_image_url("http://example.com/i.png").is_ok());
}

#[test]
fn inline_image_data() {
    assert_eq!(
        extract_base64_image_data("data:image/png;base64,QUJD"),
        Ok(("image/png".to_string(), b"ABC".to_vec()))
    );
    assert_eq!(extract_base64_image_data("data:text/plain;base64,QUJD"), Err(ImageDataError::NotImageData));
    assert_eq!(extract_base64_image_data("data:image/png;base64"), Err(ImageDataError::InvalidFormat));
    assert_eq!(extract_base64_image_data("data:image/png;base64,@@@"), Err(ImageDataError::DecodeFailed));
}

#[test]
fn reasoning_is_separated() {
    assert_eq!(
        parse_gemini_response_for_reasoning_and_content("<thinking> why </thinking> answer "),
        ("why".to_string(), "answer".to_string())
    );
    assert_eq!(
        parse_gemini_response_for_reasoning_and_content("just text"),
        (String::new(), "just text".to_string())
    );
}
