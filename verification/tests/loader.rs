use rujimi::config::loader::unquote;
use rujimi::config::settings::Settings;
use rujimi::utils::numbers::{parse_digits, parse_millis, parse_signed, parse_unsigned};

fn chars(s: &str) -> Vec<char> {
    s.chars().collect()
}

fn vars(pairs: &[(&str, &str)]) -> Vec<(String, String)> {
    pairs.iter().map(|(n, v)| (n.to_string(), v.to_string())).collect()
}

#[test]
fn parse_digits_reads_plain_digits_only() {
    assert_eq!(parse_digits(&chars("0"), 10), Some(0));
    assert_eq!(parse_digits(&chars("007"), 10), Some(7));
    assert_eq!(parse_digits(&chars("10"), 10), Some(10));
    assert_eq!(parse_digits(&chars("11"), 10), None);
    assert_eq!(parse_digits(&chars(""), 10), None);
    assert_eq!(parse_digits(&chars("+1"), 10), None);
    assert_eq!(parse_digits(&chars("1a"), 10), None);
    assert_eq!(parse_digits(&chars("١"), 10), None);
}

#[test]
fn parse_unsigned_agrees_with_the_standard_parser() {
    for text in ["0", "+5", "65535", "65536", "-0", "", "+", " 1", "1 ", "18446744073709551615",
        "18446744073709551616", "000000000000000000000001", "+-1", "++1"]
    {
        assert_eq!(parse_unsigned(&chars(text), u64::MAX), text.parse::<u64>().ok(), "{text:?}");
        assert_eq!(
            parse_unsigned(&chars(text), u16::MAX as u64),
            text.parse::<u16>().ok().map(u64::from),
            "{text:?}"
        );
    }
}

#[test]
fn parse_signed_agrees_with_the_standard_parser() {
    for text in ["0", "-0", "+0", "-1", "2147483647", "2147483648", "-2147483648", "-2147483649",
        "", "-", "+", "--1", "-+1", "+-1", "12x", "9223372036854775807", "-9223372036854775808",
        "-9223372036854775809", "9223372036854775808"]
    {
        assert_eq!(
            parse_signed(&chars(text), i32::MIN as i64, i32::MAX as i64),
            text.parse::<i32>().ok().map(i64::from),
            "{text:?}"
        );
        assert_eq!(parse_signed(&chars(text), i64::MIN, i64::MAX), text.parse::<i64>().ok(), "{text:?}");
    }
}

#[test]
fn parse_millis_reads_decimal_seconds() {
    assert_eq!(parse_millis(&chars("1")), Some(1000));
    assert_eq!(parse_millis(&chars("0.1")), Some(100));
    assert_eq!(parse_millis(&chars("5.0")), Some(5000));
    assert_eq!(parse_millis(&chars("+2.5")), Some(2500));
    assert_eq!(parse_millis(&chars(".5")), Some(500));
    assert_eq!(parse_millis(&chars("5.")), Some(5000));
    assert_eq!(parse_millis(&chars("1.2345")), Some(1234));
    assert_eq!(parse_millis(&chars("0.0009")), Some(0));
    assert_eq!(parse_millis(&chars("18446744073709551.615")), Some(u64::MAX));
}

#[test]
fn parse_millis_refuses_other_forms() {
    for text in ["", ".", "+", "+.", "-1", "1e3", "1.2.3", "abc", " 1", "1,5",
        "18446744073709551.616", "18446744073709552"]
    {
        assert_eq!(parse_millis(&chars(text)), None, "{text:?}");
    }
}

#[test]
fn unquote_takes_quotes_off_both_ends() {
    assert_eq!(unquote("\"abc\""), "abc");
    assert_eq!(unquote("\"\"a\"b\"\"\""), "a\"b");
    assert_eq!(unquote("abc"), "abc");
    assert_eq!(unquote("\"\"\""), "");
    assert_eq!(unquote(""), "");
    assert_eq!(unquote("\"abc"), "abc");
}

#[test]
fn load_without_variables_gives_the_usual_settings() {
    let s = Settings::load(&Vec::new(), None);
    let d = Settings::default();
    assert_eq!(s.password, d.password);
    assert_eq!(s.web_password, d.web_password);
    assert_eq!(s.gemini_api_keys, d.gemini_api_keys);
    assert_eq!(s.port, d.port);
    assert_eq!(s.fake_streaming, d.fake_streaming);
    assert_eq!(s.fake_streaming_interval_ms, d.fake_streaming_interval_ms);
    assert_eq!(s.fake_streaming_chunk_size, d.fake_streaming_chunk_size);
    assert_eq!(s.fake_streaming_delay_per_chunk_ms, d.fake_streaming_delay_per_chunk_ms);
    assert_eq!(s.storage_dir, d.storage_dir);
    assert_eq!(s.enable_storage, d.enable_storage);
    assert_eq!(s.concurrent_requests, d.concurrent_requests);
    assert_eq!(s.increase_concurrent_on_failure, d.increase_concurrent_on_failure);
    assert_eq!(s.max_concurrent_requests, d.max_concurrent_requests);
    assert_eq!(s.cache_expiry_time, d.cache_expiry_time);
    assert_eq!(s.max_cache_entries, d.max_cache_entries);
    assert_eq!(s.calculate_cache_entries, d.calculate_cache_entries);
    assert_eq!(s.precise_cache, d.precise_cache);
    assert_eq!(s.enable_vertex, d.enable_vertex);
    assert_eq!(s.google_credentials_json, d.google_credentials_json);
    assert_eq!(s.enable_vertex_express, d.enable_vertex_express);
    assert_eq!(s.vertex_express_api_key, d.vertex_express_api_key);
    assert_eq!(s.search.search_mode, d.search.search_mode);
    assert_eq!(s.search.search_prompt, d.search.search_prompt);
    assert_eq!(s.random_string, d.random_string);
    assert_eq!(s.random_string_length, d.random_string_length);
    assert_eq!(s.max_empty_responses, d.max_empty_responses);
    assert_eq!(s.show_api_error_message, d.show_api_error_message);
    assert_eq!(s.max_retry_num, d.max_retry_num);
    assert_eq!(s.max_requests_per_minute, d.max_requests_per_minute);
    assert_eq!(s.max_requests_per_day_per_ip, d.max_requests_per_day_per_ip);
    assert_eq!(s.api_key_daily_limit, d.api_key_daily_limit);
    assert_eq!(s.blocked_models, d.blocked_models);
    assert_eq!(s.whitelist_models, d.whitelist_models);
    assert_eq!(s.whitelist_user_agent, d.whitelist_user_agent);
    assert_eq!(s.public_mode, d.public_mode);
    assert_eq!(s.dashboard_url, d.dashboard_url);
    assert_eq!(s.allowed_origins, d.allowed_origins);
    assert_eq!(s.nonstream_keepalive_enabled, d.nonstream_keepalive_enabled);
    assert_eq!(s.nonstream_keepalive_interval_ms, d.nonstream_keepalive_interval_ms);
    assert_eq!(s.base_dir, d.base_dir);
    assert_eq!(s.invalid_api_keys, d.invalid_api_keys);
    assert_eq!(s.version.local_version, d.version.local_version);
    assert_eq!(s.version.remote_version, d.version.remote_version);
    assert_eq!(s.version.has_update, d.version.has_update);
    assert!(s.api_call_stats.calls.is_empty());
}

#[test]
fn load_reads_each_kind_of_variable() {
    let s = Settings::load(
        &vars(&[
            ("PASSWORD", "\"secret\""),
            ("GEMINI_API_KEYS", " k1, k2 ,,k3 "),
            ("PORT", "8080"),
            ("FAKE_STREAMING", "no"),
            ("SEARCH_MODE", "YES"),
            ("PRECISE_CACHE", "1"),
            ("STORAGE_DIR", "/data"),
            ("SEARCH_PROMPT", "\"look it up\""),
            ("FAKE_STREAMING_INTERVAL", "2.5"),
            ("FAKE_STREAMING_CHUNK_SIZE", "-4"),
            ("FAKE_STREAMING_DELAY_PER_CHUNK", "0.05"),
            ("CACHE_EXPIRY_TIME", "60"),
            ("MAX_CACHE_ENTRIES", "2"),
            ("MAX_REQUESTS_PER_MINUTE", "7"),
            ("API_KEY_DAILY_LIMIT", "1"),
            ("BLOCKED_MODELS", "a,b,a"),
            ("WHITELIST_USER_AGENT", "Curl, curl ,Mozilla"),
            ("ALLOWED_ORIGINS", "x,x"),
            ("INVALID_API_KEYS", "k2"),
        ]),
        Some("/srv".to_string()),
    );
    assert_eq!(s.password, "secret");
    assert_eq!(s.web_password, "secret");
    assert_eq!(s.gemini_api_keys, vec!["k1", "k2", "k3"]);
    assert_eq!(s.port, Some(8080));
    assert!(!s.fake_streaming);
    assert!(s.search.search_mode);
    assert!(s.precise_cache);
    assert_eq!(s.storage_dir, "/data");
    assert_eq!(s.search.search_prompt, "look it up");
    assert_eq!(s.fake_streaming_interval_ms, 2500);
    assert_eq!(s.fake_streaming_chunk_size, -4);
    assert_eq!(s.fake_streaming_delay_per_chunk_ms, 50);
    assert_eq!(s.cache_expiry_time, 60);
    assert_eq!(s.max_cache_entries, 2);
    assert_eq!(s.max_requests_per_minute, 7);
    assert_eq!(s.api_key_daily_limit, 1);
    assert_eq!(s.blocked_models, vec!["a", "b"]);
    assert_eq!(s.whitelist_user_agent, vec!["curl", "mozilla"]);
    assert_eq!(s.allowed_origins, vec!["x", "x"]);
    assert_eq!(s.invalid_api_keys, vec!["k2"]);
    assert_eq!(s.get_valid_api_keys(), vec!["k1", "k3"]);
    assert_eq!(s.base_dir, "/srv");
}

#[test]
fn load_falls_back_where_a_value_cannot_be_read() {
    let s = Settings::load(
        &vars(&[
            ("PORT", "70000"),
            ("MAX_CACHE_ENTRIES", "many"),
            ("MAX_REQUESTS_PER_MINUTE", "-3"),
            ("FAKE_STREAMING_INTERVAL", "soon"),
            ("FAKE_STREAMING_CHUNK_SIZE", "99999999999"),
            ("WEB_PASSWORD", "\"web\""),
        ]),
        None,
    );
    assert_eq!(s.port, Some(7860));
    assert_eq!(s.max_cache_entries, 500);
    assert_eq!(s.max_requests_per_minute, 30);
    assert_eq!(s.fake_streaming_interval_ms, 1000);
    assert_eq!(s.fake_streaming_chunk_size, 10);
    assert_eq!(s.password, "123");
    assert_eq!(s.web_password, "web");
}

#[test]
fn load_takes_the_first_of_two_variables_of_one_name() {
    let s = Settings::load(&vars(&[("PORT", "1"), ("PORT", "2")]), None);
    assert_eq!(s.port, Some(1));
}
