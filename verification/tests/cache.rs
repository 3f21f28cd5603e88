use rujimi::config::settings::Settings;
use rujimi::models::schemas::{ChatChoice, ChatCompletionResponse, ChatMessage, Usage};
use rujimi::utils::cache::{generate_cache_key, CacheEntry, ResponseCacheManager};

fn response(id: &str) -> ChatCompletionResponse {
    ChatCompletionResponse {
        id: id.to_string(),
        object: "chat.completion".to_string(),
        created: 1,
        model: "gemini-pro".to_string(),
        choices: vec![ChatChoice {
            index: 0,
            message: ChatMessage {
                role: "assistant".to_string(),
                content: Some("\"hi\"".to_string()),
                name: None,
                tool_calls: None,
                tool_call_id: None,
            },
            finish_reason: Some("stop".to_string()),
            logprobs: None,
        }],
        usage: Some(Usage { prompt_tokens: 1, completion_tokens: 2, total_tokens: 3 }),
        system_fingerprint: None,
    }
}

fn cache(ttl: u64, capacity: usize) -> ResponseCacheManager {
    let mut settings = Settings::default();
    settings.cache_expiry_time = ttl;
    settings.max_cache_entries = capacity;
    ResponseCacheManager::new(&settings)
}

fn messages() -> Vec<String> {
    vec![
        r#"{"content":"Hello","role":"user"}"#.to_string(),
        r#"{"content":"Hi there!","role":"assistant"}"#.to_string(),
        r#"{"content":"How are you?","role":"user"}"#.to_string(),
    ]
}

#[test]
fn test_cache_key_generation() {
    let messages = messages();
    let key1 = generate_cache_key(&messages, "gpt-4", 2, false);
    let key2 = generate_cache_key(&messages, "gpt-4", 2, false);
    let key3 = generate_cache_key(&messages, "gpt-3.5", 2, false);
    assert_eq!(key1, key2);
    assert_ne!(key1, key3);
}

#[test]
fn cache_key_is_model_and_hash_of_window() {
    let messages = messages();
    let payload = format!(
        "{{\"messages\":[{},{}],\"model\":\"gpt-4\"}}",
        messages[1], messages[2]
    );
    let expected = format!("gpt-4_{:x}", xxhash_rust::xxh3::xxh3_64(payload.as_bytes()));
    assert_eq!(generate_cache_key(&messages, "gpt-4", 2, false), expected);
    let full = format!(
        "{{\"messages\":[{},{},{}],\"model\":\"gpt-4\"}}",
        messages[0], messages[1], messages[2]
    );
    let expected_full = format!("gpt-4_{:x}", xxhash_rust::xxh3::xxh3_64(full.as_bytes()));
    assert_eq!(generate_cache_key(&messages, "gpt-4", 2, true), expected_full);
    assert_eq!(generate_cache_key(&messages, "gpt-4", 7, false), expected_full);
}

#[test]
fn cache_key_escapes_the_model_name() {
    let payload = "{\"messages\":[],\"model\":\"a\\\"b\"}";
    let expected = format!("a\"b_{:x}", xxhash_rust::xxh3::xxh3_64(payload.as_bytes()));
    assert_eq!(generate_cache_key(&[], "a\"b", 3, false), expected);
}

#[test]
fn approximate_fingerprint_ignores_early_messages() {
    let a = messages();
    let mut b = messages();
    b[0] = r#"{"content":"Something else","role":"user"}"#.to_string();
    assert_eq!(generate_cache_key(&a, "m", 2, false), generate_cache_key(&b, "m", 2, false));
    assert_ne!(generate_cache_key(&a, "m", 2, true), generate_cache_key(&b, "m", 2, true));
}

#[test]
fn test_cache_entry_expiry() {
    let now: u64 = 1_000_000;
    let mut entry = CacheEntry::new(response("r"), now);
    assert!(!entry.is_expired(now, 60));
    // An entry that is two minutes old.
    entry.created_at = now - 120_000;
    assert!(entry.is_expired(now, 60));
}

#[test]
fn entry_created_in_the_future_counts_as_expired() {
    let entry = CacheEntry::new(response("r"), 500);
    assert!(entry.is_expired(499, 60));
}

#[test]
fn ttl_boundary() {
    let mut c = cache(60, 10);
    let t0 = 5_000;
    c.put("fp".to_string(), response("r"), t0);
    assert_eq!(c.get("fp", t0 + 60_000 - 1).map(|r| r.id), Some("r".to_string()));
    assert_eq!(c.get("fp", t0 + 60_000).map(|r| r.id), Some("r".to_string()));
    assert!(c.get("fp", t0 + 60_000 + 1).is_none());
}

#[test]
fn fresh_entry_behind_an_expired_head_is_answered() {
    let mut c = cache(100, 10);
    c.put("fp".to_string(), response("first"), 0);
    c.put("fp".to_string(), response("second"), 10_000);
    // At 105 s the head has expired and the entry behind it has not.
    assert_eq!(c.get("fp", 105_000).map(|r| r.id), Some("second".to_string()));
    // The expired head is gone: the entry that was answered is all that is left.
    assert_eq!(c.get_stats(105_000).total_responses, 1);
    assert_eq!(c.get("fp", 110_000).map(|r| r.id), Some("second".to_string()));
    assert!(c.get("fp", 110_001).is_none());
    // A miss drops what has expired and leaves the fingerprint to the sweep.
    assert_eq!(c.get_stats(110_001).total_responses, 0);
}

#[test]
fn entry_rotated_behind_a_newer_one_does_not_hide_it() {
    let mut c = cache(100, 10);
    c.put("fp".to_string(), response("first"), 0);
    c.put("fp".to_string(), response("second"), 10_000);
    // One hit answers the older entry and moves it behind the newer one.
    assert_eq!(c.get("fp", 20_000).map(|r| r.id), Some("first".to_string()));
    // After the older entry has expired the newer one is answered every time.
    assert_eq!(c.get("fp", 105_000).map(|r| r.id), Some("second".to_string()));
    assert_eq!(c.get("fp", 105_001).map(|r| r.id), Some("second".to_string()));
    assert_eq!(c.get("fp", 110_000).map(|r| r.id), Some("second".to_string()));
    assert!(c.get("fp", 110_001).is_none());
}

#[test]
fn every_fresh_entry_is_reached_in_turn() {
    let mut c = cache(100, 10);
    c.put("fp".to_string(), response("a"), 0);
    c.put("fp".to_string(), response("b"), 50_000);
    c.put("fp".to_string(), response("c"), 60_000);
    // At 120 s the first has expired; the other two take turns.
    let served: Vec<String> = (0..4).map(|t| c.get("fp", 120_000 + t).unwrap().id).collect();
    assert_eq!(served, vec!["b", "c", "b", "c"]);
}

#[test]
fn expired_entry_is_dropped_by_lookup() {
    let mut c = cache(1, 10);
    c.put("fp".to_string(), response("old"), 0);
    assert!(c.get("fp", 5_000).is_none());
    // The expired entry is gone; a fresh one is served.
    c.put("fp".to_string(), response("new"), 5_000);
    assert_eq!(c.get("fp", 5_001).map(|r| r.id), Some("new".to_string()));
}

#[test]
fn scenario_capacity_two_evicts_oldest_touch() {
    let mut c = cache(3600, 2);
    c.put("fp1".to_string(), response("1"), 100);
    c.put("fp2".to_string(), response("2"), 200);
    c.put("fp3".to_string(), response("3"), 300);
    c.enforce_size_limit();
    assert_eq!(c.size(), 2);
    assert!(c.get("fp1", 301).is_none());
    assert_eq!(c.get("fp2", 301).map(|r| r.id), Some("2".to_string()));
    assert_eq!(c.get("fp3", 301).map(|r| r.id), Some("3".to_string()));
}

#[test]
fn a_hit_protects_from_eviction() {
    let mut c = cache(3600, 2);
    c.put("fp1".to_string(), response("1"), 100);
    c.put("fp2".to_string(), response("2"), 200);
    assert!(c.get("fp1", 250).is_some());
    c.put("fp3".to_string(), response("3"), 300);
    assert_eq!(c.size(), 2);
    assert!(c.get("fp2", 301).is_none());
    assert!(c.get("fp1", 301).is_some());
}

#[test]
fn capacity_holds_after_many_puts() {
    let mut c = cache(3600, 3);
    for i in 0..20u64 {
        c.put(format!("fp{}", i), response("x"), i);
        assert!(c.size() <= 3);
    }
    c.cleanup_expired(100);
    assert_eq!(c.size(), 3);
    c.cleanup_expired(3_600_000 + 100);
    assert_eq!(c.size(), 0);
}

#[test]
fn queue_keeps_three_latest_and_rotates() {
    let mut c = cache(3600, 10);
    for (i, id) in ["a", "b", "c", "d"].iter().enumerate() {
        c.put("fp".to_string(), response(id), i as u64);
    }
    assert_eq!(c.size(), 1);
    let served: Vec<String> = (0..4).map(|t| c.get("fp", 10 + t).unwrap().id).collect();
    assert_eq!(served, vec!["b", "c", "d", "b"]);
}

#[test]
fn sweep_drops_expired_entries_only() {
    let mut c = cache(10, 10);
    c.put("old".to_string(), response("o"), 0);
    c.put("mixed".to_string(), response("m1"), 0);
    c.put("mixed".to_string(), response("m2"), 9_000);
    c.put("new".to_string(), response("n"), 9_500);
    c.cleanup_expired(12_000);
    assert_eq!(c.size(), 2);
    assert!(c.get("old", 12_000).is_none());
    assert_eq!(c.get("mixed", 12_000).map(|r| r.id), Some("m2".to_string()));
    assert_eq!(c.get("new", 12_000).map(|r| r.id), Some("n".to_string()));
}

#[test]
fn clear_forgets_everything() {
    let mut c = cache(10, 10);
    c.put("a".to_string(), response("a"), 0);
    c.put("b".to_string(), response("b"), 0);
    c.clear();
    assert_eq!(c.size(), 0);
    assert!(c.get("a", 1).is_none());
}

#[test]
fn miss_on_unknown_fingerprint() {
    let mut c = cache(10, 10);
    assert!(c.get("nothing", 0).is_none());
    assert_eq!(c.size(), 0);
}

#[test]
fn cached_response_is_returned_whole() {
    let mut c = cache(10, 10);
    let r = response("whole");
    c.put("fp".to_string(), r.clone(), 0);
    let got = c.get("fp", 1).unwrap();
    assert_eq!(got.id, r.id);
    assert_eq!(got.model, r.model);
    assert_eq!(got.usage, r.usage);
    assert_eq!(got.choices.len(), 1);
    assert_eq!(got.choices[0].message.content, r.choices[0].message.content);
    assert_eq!(got.choices[0].finish_reason, r.choices[0].finish_reason);
}
