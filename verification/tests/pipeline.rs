use rujimi::api::routes::{
    chat_completions, check_rate_limits, extract_client_ip, handle_fake_streaming,
    handle_non_streaming_request, handle_real_streaming, handle_streaming_request,
    is_model_allowed, Admission, AppState, DispatchMode, ForwardedHeaders, GatewayError,
    InFlightRequest, Reply, RequestMeta, StreamEvent, UpstreamEvent,
};
use rujimi::config::settings::Settings;
use rujimi::models::schemas::{
    ChatChoice, ChatCompletionRequest, ChatCompletionResponse, ChatMessage, Usage,
};
use rujimi::utils::auth::{AuthHeaders, AuthQuery};

fn response(id: &str, tokens: u32) -> ChatCompletionResponse {
    ChatCompletionResponse {
        id: id.to_string(),
        object: "chat.completion".to_string(),
        created: 1,
        model: "gemini-pro".to_string(),
        choices: vec![ChatChoice {
            index: 0,
            message: ChatMessage {
                role: "assistant".to_string(),
                content: Some("\"hi\"".to_string()),
                name: None,
                tool_calls: None,
                tool_call_id: None,
            },
            finish_reason: Some("stop".to_string()),
            logprobs: None,
        }],
        usage: Some(Usage { prompt_tokens: 1, completion_tokens: 2, total_tokens: tokens }),
        system_fingerprint: None,
    }
}

fn meta(token: Option<&str>, ip: Option<&str>) -> RequestMeta {
    RequestMeta {
        auth: AuthHeaders {
            authorization: token.map(|t| format!("Bearer {}", t)),
            x_goog_api_key: None,
            x_api_key: None,
        },
        query: AuthQuery { key: None, password: None },
        user_agent: Some("curl/8".to_string()),
        forwarded: ForwardedHeaders {
            x_forwarded_for: ip.map(|s| s.to_string()),
            x_real_ip: None,
            cf_connecting_ip: None,
        },
    }
}

fn request(stream: bool) -> ChatCompletionRequest {
    ChatCompletionRequest {
        model: "gemini-pro".to_string(),
        messages: vec![r#"{"content":"Hello","role":"user"}"#.to_string()],
        stream,
        max_tokens: None,
    }
}

fn engine(settings: Settings, keys: &[&str]) -> AppState {
    let mut state = AppState::new(settings, 0);
    let probes: Vec<(String, bool)> = keys.iter().map(|k| (k.to_string(), true)).collect();
    state.key_manager.initialize(probes, 0);
    state
}

fn key_failures(state: &AppState, key: &str) -> Option<u32> {
    state
        .key_manager
        .get_key_stats()
        .into_iter()
        .find(|(k, _)| k == key)
        .map(|(_, s)| s.consecutive_failures)
}

fn key_usage(state: &AppState, key: &str) -> Option<u32> {
    state
        .key_manager
        .get_key_stats()
        .into_iter()
        .find(|(k, _)| k == key)
        .map(|(_, s)| s.daily_usage)
}

fn dispatch(a: Admission) -> InFlightRequest {
    match a {
        Admission::Dispatch(f) => f,
        other => panic!("expected a dispatch, got {:?}", other),
    }
}

#[test]
fn unauthenticated_request_is_rejected_untouched() {
    let mut state = engine(Settings::default(), &["k"]);
    let a = chat_completions(&mut state, &meta(Some("wrong"), Some("1.1.1.1")), &request(false), 10);
    match a {
        Admission::Rejected(e) => {
            assert!(matches!(e, GatewayError::Authentication));
            assert_eq!(e.status(), 401);
            assert_eq!(e.error_type(), "authentication_error");
            assert_eq!(e.message(), "Unauthorized");
            let p = e.payload();
            assert_eq!(p.error.message, "Unauthorized");
            assert_eq!(p.error.error_type, "authentication_error");
            assert_eq!(p.error.code, None);
        }
        other => panic!("expected a rejection, got {:?}", other),
    }
    assert_eq!(state.rate_limiter.get_rate_limit_info(Some("1.1.1.1"), 10).global_requests_per_minute, 0);
    assert_eq!(state.stats_manager.get_stats().total_requests, 0);
}

#[test]
fn missing_token_is_rejected() {
    let mut state = engine(Settings::default(), &["k"]);
    let a = chat_completions(&mut state, &meta(None, None), &request(false), 10);
    assert!(matches!(a, Admission::Rejected(GatewayError::Authentication)));
}

#[test]
fn forbidden_user_agent_is_rejected() {
    let mut settings = Settings::default();
    settings.whitelist_user_agent = vec!["mozilla".to_string()];
    let mut state = engine(settings, &["k"]);
    let a = chat_completions(&mut state, &meta(Some("123"), None), &request(false), 10);
    match a {
        Admission::Rejected(e) => {
            assert!(matches!(e, GatewayError::ForbiddenAgent));
            assert_eq!(e.status(), 403);
        }
        other => panic!("expected a rejection, got {:?}", other),
    }
}

#[test]
fn blocked_model_is_rejected_before_the_pool_is_touched() {
    let mut settings = Settings::default();
    settings.blocked_models = vec!["gemini-pro".to_string()];
    let mut state = engine(settings, &["k"]);
    let a = chat_completions(&mut state, &meta(Some("123"), None), &request(false), 10);
    match a {
        Admission::Rejected(e) => {
            assert!(matches!(e, GatewayError::ModelNotAllowed));
            assert_eq!(e.status(), 400);
            assert_eq!(e.error_type(), "invalid_model");
        }
        other => panic!("expected a rejection, got {:?}", other),
    }
    assert_eq!(key_usage(&state, "k"), Some(0));
}

#[test]
fn empty_pool_fails_fast() {
    let mut state = engine(Settings::default(), &[]);
    let a = chat_completions(&mut state, &meta(Some("123"), None), &request(false), 10);
    match a {
        Admission::Rejected(e) => {
            assert!(matches!(e, GatewayError::NoCredentialsAvailable));
            assert_eq!(e.status(), 503);
            assert_eq!(e.message(), "No API keys available");
        }
        other => panic!("expected a rejection, got {:?}", other),
    }
    assert_eq!(state.stats_manager.get_stats().total_requests, 0);
}

#[test]
fn global_rate_limit_rejects_with_retry_hint() {
    let mut settings = Settings::default();
    settings.max_requests_per_minute = 1;
    let mut state = engine(settings, &["k"]);
    let first = chat_completions(&mut state, &meta(Some("123"), None), &request(false), 10);
    assert!(matches!(first, Admission::Dispatch(_)));
    let second = chat_completions(&mut state, &meta(Some("123"), None), &request(false), 11);
    match second {
        Admission::Rejected(e) => {
            assert_eq!(e.retry_after_seconds(), Some(60));
            assert_eq!(e.status(), 429);
            assert_eq!(e.error_type(), "rate_limit_error");
        }
        other => panic!("expected a rejection, got {:?}", other),
    }
}

#[test]
fn per_client_gates_reject_with_hour_hint() {
    let mut settings = Settings::default();
    settings.max_requests_per_day_per_ip = 1;
    let mut state = engine(settings, &["k"]);
    let ip = Some("9.9.9.9".to_string());
    assert!(check_rate_limits(&mut state, &ip, 10).is_ok());
    match check_rate_limits(&mut state, &ip, 11) {
        Err(e) => assert_eq!(e.retry_after_seconds(), Some(3600)),
        Ok(_) => panic!("expected a denial"),
    }
    // Another client is not affected.
    assert!(check_rate_limits(&mut state, &Some("8.8.8.8".to_string()), 12).is_ok());
    // The accountant's count is the second gate.
    let mut other = engine(
        {
            let mut s = Settings::default();
            s.max_requests_per_day_per_ip = 1;
            s
        },
        &["k"],
    );
    other.stats_manager.record_api_call("m".to_string(), 0, true, 0, ip.clone(), 5);
    match check_rate_limits(&mut other, &ip, 6) {
        Err(e) => assert_eq!(e.retry_after_seconds(), Some(3600)),
        Ok(_) => panic!("expected a denial"),
    }
    assert_eq!(other.rate_limiter.get_rate_limit_info(Some("9.9.9.9"), 6).global_requests_per_minute, 0);
}

#[test]
fn non_streaming_round_trip_fills_the_cache() {
    let mut state = engine(Settings::default(), &["k"]);
    let m = meta(Some("123"), Some("1.2.3.4, 5.6.7.8"));
    let flight = dispatch(chat_completions(&mut state, &m, &request(false), 1_000));
    assert_eq!(flight.api_key, "k");
    assert_eq!(flight.mode, DispatchMode::NonStreaming);
    assert_eq!(flight.client_ip, Some("1.2.3.4".to_string()));
    assert_eq!(flight.start_time, 1_000);
    assert!(flight.cache_key.is_some());
    let reply = handle_non_streaming_request(&mut state, &flight, Ok(response("r1", 42)), 1_250);
    match reply {
        Reply::Json(r) => assert_eq!(r.id, "r1"),
        other => panic!("expected a response, got {:?}", other),
    }
    let stats = state.stats_manager.get_stats();
    assert_eq!(stats.total_requests, 1);
    assert_eq!(stats.successful_requests, 1);
    assert_eq!(stats.total_tokens, 42);
    assert_eq!(stats.total_response_time_ms, 250);
    assert_eq!(key_usage(&state, "k"), Some(1));
    // The same request is now answered from the cache, without a credential.
    match chat_completions(&mut state, &m, &request(false), 2_000) {
        Admission::Cached(r) => assert_eq!(r.id, "r1"),
        other => panic!("expected a cache hit, got {:?}", other),
    }
    assert_eq!(key_usage(&state, "k"), Some(1));
    let stats = state.stats_manager.get_stats();
    assert_eq!(stats.total_requests, 2);
    assert_eq!(stats.total_tokens, 84);
}

#[test]
fn upstream_failure_marks_the_credential_and_is_not_cached() {
    let mut state = engine(Settings::default(), &["k"]);
    let m = meta(Some("123"), None);
    let flight = dispatch(chat_completions(&mut state, &m, &request(false), 1_000));
    let reply = handle_non_streaming_request(&mut state, &flight, Err("boom".to_string()), 1_100);
    match reply {
        Reply::Error(e) => {
            assert!(matches!(e, GatewayError::Upstream { .. }));
            assert_eq!(e.message(), "boom");
            assert_eq!(e.status(), 500);
            assert_eq!(e.error_type(), "api_error");
        }
        other => panic!("expected an error, got {:?}", other),
    }
    assert_eq!(key_failures(&state, "k"), Some(1));
    let stats = state.stats_manager.get_stats();
    assert_eq!(stats.failed_requests, 1);
    assert_eq!(stats.total_tokens, 0);
    assert_eq!(state.cache_manager.size(), 0);
    assert!(matches!(
        chat_completions(&mut state, &m, &request(false), 1_200),
        Admission::Dispatch(_)
    ));
}

#[test]
fn streaming_requests_bypass_the_cache() {
    let mut state = engine(Settings::default(), &["k"]);
    let m = meta(Some("123"), None);
    let flight = dispatch(chat_completions(&mut state, &m, &request(false), 1_000));
    handle_non_streaming_request(&mut state, &flight, Ok(response("r1", 1)), 1_001);
    let streamed = dispatch(chat_completions(&mut state, &m, &request(true), 1_002));
    assert_eq!(streamed.cache_key, None);
    assert_eq!(streamed.mode, DispatchMode::FakeStreaming);
}

#[test]
fn scenario_fake_streaming_one_data_event_then_done() {
    let mut settings = Settings::default();
    settings.fake_streaming = true;
    let mut state = engine(settings, &["k"]);
    let flight = dispatch(chat_completions(&mut state, &meta(Some("123"), None), &request(true), 1_000));
    assert_eq!(flight.mode, DispatchMode::FakeStreaming);
    // However long the upstream took.
    let events = handle_fake_streaming(&mut state, &flight, Ok(response("full", 9)), 600_000);
    assert_eq!(events.len(), 2);
    match &events[0] {
        StreamEvent::Response(r) => assert_eq!(r.id, "full"),
        other => panic!("expected a data event, got {:?}", other),
    }
    assert!(matches!(events[1], StreamEvent::Done));
    assert_eq!(key_usage(&state, "k"), Some(1));
    assert_eq!(state.stats_manager.get_stats().total_tokens, 9);
    assert_eq!(state.cache_manager.size(), 0);
}

#[test]
fn fake_streaming_failure_is_one_error_event_then_done() {
    let mut state = engine(Settings::default(), &["k"]);
    let flight = dispatch(chat_completions(&mut state, &meta(Some("123"), None), &request(true), 1_000));
    let events = handle_fake_streaming(&mut state, &flight, Err("down".to_string()), 1_500);
    assert_eq!(events.len(), 2);
    match &events[0] {
        StreamEvent::Error(e) => {
            assert_eq!(e.error.message, "down");
            assert_eq!(e.error.error_type, "api_error");
        }
        other => panic!("expected an error event, got {:?}", other),
    }
    assert!(matches!(events[1], StreamEvent::Done));
    assert_eq!(key_failures(&state, "k"), Some(1));
}

#[test]
fn scenario_real_streaming_failure_after_two_chunks() {
    let mut settings = Settings::default();
    settings.fake_streaming = false;
    let mut state = engine(settings, &["k"]);
    let flight = dispatch(chat_completions(&mut state, &meta(Some("123"), None), &request(true), 1_000));
    assert_eq!(flight.mode, DispatchMode::RealStreaming);
    let mut session = handle_real_streaming(&mut state, flight, Ok(()), 1_001).expect("session");
    let mut sent: Vec<StreamEvent> = Vec::new();
    for (i, text) in ["one", "two"].iter().enumerate() {
        sent.extend(session.on_event(
            &mut state,
            UpstreamEvent::Chunk { id: format!("c{}", i), content: text.to_string() },
            2_000 + i as u64,
        ));
    }
    sent.extend(session.on_event(
        &mut state,
        UpstreamEvent::Failed { message: "reset by peer".to_string() },
        3_000,
    ));
    // Whatever follows is ignored.
    sent.extend(session.on_event(
        &mut state,
        UpstreamEvent::Chunk { id: "late".to_string(), content: "three".to_string() },
        3_001,
    ));
    sent.extend(session.on_event(&mut state, UpstreamEvent::Ended, 3_002));
    assert_eq!(sent.len(), 4);
    match &sent[0] {
        StreamEvent::Chunk(c) => {
            assert_eq!(c.id, "c0");
            assert_eq!(c.object, "chat.completion.chunk");
            assert_eq!(c.model, "gemini-pro");
            assert_eq!(c.created, 2);
            assert_eq!(c.choices.len(), 1);
            assert_eq!(c.choices[0].delta.content, Some("one".to_string()));
            assert_eq!(c.choices[0].delta.role, Some("assistant".to_string()));
        }
        other => panic!("expected a chunk, got {:?}", other),
    }
    assert!(matches!(&sent[1], StreamEvent::Chunk(c) if c.choices[0].delta.content == Some("two".to_string())));
    match &sent[2] {
        StreamEvent::Error(e) => {
            assert_eq!(e.error.message, "reset by peer");
            assert_eq!(e.error.error_type, "stream_error");
        }
        other => panic!("expected an error event, got {:?}", other),
    }
    assert!(matches!(sent[3], StreamEvent::Done));
    assert!(session.is_finished());
    assert_eq!(key_failures(&state, "k"), Some(1));
    let stats = state.stats_manager.get_stats();
    assert_eq!(stats.total_requests, 1);
    assert_eq!(stats.failed_requests, 1);
}

#[test]
fn real_streaming_success_accounts_estimated_tokens() {
    let mut settings = Settings::default();
    settings.fake_streaming = false;
    let mut state = engine(settings, &["k"]);
    let flight = dispatch(chat_completions(&mut state, &meta(Some("123"), None), &request(true), 1_000));
    let mut session = handle_real_streaming(&mut state, flight, Ok(()), 1_001).expect("session");
    let a = session.on_event(
        &mut state,
        UpstreamEvent::Chunk { id: "a".to_string(), content: "hello".to_string() },
        1_100,
    );
    assert_eq!(a.len(), 1);
    let b = session.on_event(
        &mut state,
        UpstreamEvent::Chunk { id: "b".to_string(), content: "hello world".to_string() },
        1_200,
    );
    assert_eq!(b.len(), 1);
    let end = session.on_event(&mut state, UpstreamEvent::Ended, 1_500);
    assert_eq!(end.len(), 1);
    assert!(matches!(end[0], StreamEvent::Done));
    let stats = state.stats_manager.get_stats();
    assert_eq!(stats.successful_requests, 1);
    assert_eq!(stats.total_tokens, 5);
    assert_eq!(stats.total_response_time_ms, 500);
    assert_eq!(key_usage(&state, "k"), Some(1));
}

#[test]
fn client_disconnect_ends_the_stream_silently() {
    let mut settings = Settings::default();
    settings.fake_streaming = false;
    let mut state = engine(settings, &["k"]);
    let flight = dispatch(chat_completions(&mut state, &meta(Some("123"), None), &request(true), 1_000));
    let mut session = handle_real_streaming(&mut state, flight, Ok(()), 1_001).expect("session");
    let gone = session.on_event(&mut state, UpstreamEvent::ClientGone, 1_400);
    assert_eq!(gone.len(), 0);
    assert!(session.is_finished());
    assert_eq!(session.on_event(&mut state, UpstreamEvent::Ended, 1_500).len(), 0);
    let stats = state.stats_manager.get_stats();
    assert_eq!(stats.total_requests, 1);
    assert_eq!(stats.failed_requests, 1);
    assert_eq!(key_failures(&state, "k"), Some(0));
    assert_eq!(key_usage(&state, "k"), Some(1));
}

#[test]
fn refused_stream_is_a_structured_error() {
    let mut settings = Settings::default();
    settings.fake_streaming = false;
    let mut state = engine(settings, &["k"]);
    let flight = dispatch(chat_completions(&mut state, &meta(Some("123"), None), &request(true), 1_000));
    match handle_real_streaming(&mut state, flight, Err("no stream".to_string()), 1_100) {
        Err(e) => {
            assert!(matches!(e, GatewayError::StreamAbort { .. }));
            assert_eq!(e.message(), "no stream");
            assert_eq!(e.error_type(), "stream_error");
            assert_eq!(e.status(), 500);
        }
        Ok(_) => panic!("expected an error"),
    }
    assert_eq!(key_failures(&state, "k"), Some(1));
    assert_eq!(state.stats_manager.get_stats().failed_requests, 1);
}

#[test]
fn five_upstream_failures_empty_a_single_key_pool() {
    let mut state = engine(Settings::default(), &["k"]);
    let m = meta(Some("123"), None);
    for i in 0..5u64 {
        let flight = dispatch(chat_completions(&mut state, &m, &request(false), 1_000 + i));
        handle_non_streaming_request(&mut state, &flight, Err("bad".to_string()), 1_000 + i);
    }
    assert!(matches!(
        chat_completions(&mut state, &m, &request(false), 2_000),
        Admission::Rejected(GatewayError::NoCredentialsAvailable)
    ));
}

#[test]
fn streaming_mode_follows_settings() {
    let mut settings = Settings::default();
    settings.fake_streaming = true;
    assert_eq!(handle_streaming_request(&settings), DispatchMode::FakeStreaming);
    settings.fake_streaming = false;
    assert_eq!(handle_streaming_request(&settings), DispatchMode::RealStreaming);
}

#[test]
fn client_ip_comes_from_the_first_header_present() {
    let f = ForwardedHeaders {
        x_forwarded_for: None,
        x_real_ip: Some(" 10.0.0.7 ".to_string()),
        cf_connecting_ip: Some("10.0.0.8".to_string()),
    };
    assert_eq!(extract_client_ip(&f), Some("10.0.0.7".to_string()));
    let g = ForwardedHeaders {
        x_forwarded_for: Some("1.1.1.1 , 2.2.2.2".to_string()),
        x_real_ip: Some("3.3.3.3".to_string()),
        cf_connecting_ip: None,
    };
    assert_eq!(extract_client_ip(&g), Some("1.1.1.1".to_string()));
    let none = ForwardedHeaders { x_forwarded_for: None, x_real_ip: None, cf_connecting_ip: None };
    assert_eq!(extract_client_ip(&none), None);
}

#[test]
fn model_policy_whitelist_wins() {
    let mut settings = Settings::default();
    assert!(is_model_allowed("anything", &settings));
    settings.blocked_models = vec!["bad".to_string()];
    assert!(!is_model_allowed("bad", &settings));
    assert!(is_model_allowed("good", &settings));
    settings.whitelist_models = vec!["bad".to_string()];
    assert!(is_model_allowed("bad", &settings));
    assert!(!is_model_allowed("good", &settings));
}
