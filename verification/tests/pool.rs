use rujimi::config::settings::Settings;
use rujimi::utils::api_key::{ApiKeyManager, ApiKeyStats};

const DAY: u64 = 86_400_000;

fn pool_with(keys: &[&str], limit: u32, now: u64) -> ApiKeyManager {
    let mut settings = Settings::default();
    settings.api_key_daily_limit = limit;
    settings.gemini_api_keys = keys.iter().map(|k| k.to_string()).collect();
    let mut pool = ApiKeyManager::new(&settings);
    let probes: Vec<(String, bool)> = pool.keys_to_probe().into_iter().map(|k| (k, true)).collect();
    pool.initialize(probes, now);
    pool
}

fn stats_of(pool: &ApiKeyManager, key: &str) -> Option<ApiKeyStats> {
    pool.get_key_stats().into_iter().find(|(k, _)| k == key).map(|(_, s)| s)
}

#[test]
fn scenario_two_keys_limit_one_recycles() {
    let mut pool = pool_with(&["A", "B"], 1, 1_000);
    let first = pool.get_next_key(1_000).expect("first key");
    pool.mark_key_used(&first, true, 1_001);
    let second = pool.get_next_key(1_002).expect("second key");
    pool.mark_key_used(&second, true, 1_003);
    let third = pool.get_next_key(1_004).expect("recycled key");
    pool.mark_key_used(&third, true, 1_005);
    assert_ne!(first, second);
    assert!(first == "A" || first == "B");
    assert!(second == "A" || second == "B");
    assert_eq!(third, first);
}

#[test]
fn empty_pool_has_no_credential() {
    let mut pool = pool_with(&[], 10, 0);
    assert_eq!(pool.available_keys_count(), 0);
    assert_eq!(pool.get_next_key(5), None);
}

#[test]
fn keys_to_probe_leaves_out_denied_keys() {
    let mut settings = Settings::default();
    settings.gemini_api_keys = vec!["a".to_string(), "b".to_string(), "c".to_string()];
    settings.invalid_api_keys = vec!["b".to_string()];
    let pool = ApiKeyManager::new(&settings);
    assert_eq!(pool.keys_to_probe(), vec!["a".to_string(), "c".to_string()]);
    assert_eq!(settings.get_valid_api_keys(), vec!["a".to_string(), "c".to_string()]);
}

#[test]
fn initialize_partitions_probe_results() {
    let settings = Settings::default();
    let mut pool = ApiKeyManager::new(&settings);
    pool.initialize(
        vec![
            ("good1".to_string(), true),
            ("bad".to_string(), false),
            ("good2".to_string(), true),
        ],
        42,
    );
    assert_eq!(pool.available_keys_count(), 2);
    let mut served = vec![pool.get_next_key(43).unwrap(), pool.get_next_key(44).unwrap()];
    served.sort();
    assert_eq!(served, vec!["good1".to_string(), "good2".to_string()]);
    assert_eq!(
        stats_of(&pool, "good1"),
        Some(ApiKeyStats { daily_usage: 0, last_used: 42, consecutive_failures: 0 })
    );
    assert_eq!(stats_of(&pool, "bad"), None);
}

#[test]
fn initialize_without_results_changes_nothing() {
    let mut pool = pool_with(&["A"], 5, 1);
    pool.initialize(Vec::new(), 2);
    assert_eq!(pool.available_keys_count(), 1);
    assert_eq!(pool.get_next_key(3), Some("A".to_string()));
}

#[test]
fn quota_skip_until_daily_reset() {
    let mut pool = pool_with(&["A", "B"], 2, 0);
    // Use A exactly twice.
    pool.mark_key_used("A", true, 10);
    pool.mark_key_used("A", true, 11);
    assert_eq!(stats_of(&pool, "A").unwrap().daily_usage, 2);
    for t in 0..6u64 {
        assert_eq!(pool.get_next_key(20 + t), Some("B".to_string()));
    }
    pool.reset_daily_usage();
    assert_eq!(stats_of(&pool, "A").unwrap().daily_usage, 0);
    let mut served = vec![pool.get_next_key(40).unwrap(), pool.get_next_key(41).unwrap()];
    served.sort();
    assert_eq!(served, vec!["A".to_string(), "B".to_string()]);
}

#[test]
fn five_consecutive_failures_evict() {
    let mut pool = pool_with(&["A", "B"], 100, 0);
    for t in 0..4u64 {
        pool.mark_key_used("A", false, t);
    }
    assert_eq!(stats_of(&pool, "A").unwrap().consecutive_failures, 4);
    assert_eq!(pool.available_keys_count(), 2);
    pool.mark_key_used("A", false, 4);
    assert_eq!(pool.available_keys_count(), 1);
    assert_eq!(stats_of(&pool, "A"), None);
    for t in 0..5u64 {
        assert_eq!(pool.get_next_key(10 + t), Some("B".to_string()));
    }
}

#[test]
fn success_resets_the_run_of_failures() {
    let mut pool = pool_with(&["A"], 100, 0);
    for t in 0..4u64 {
        pool.mark_key_used("A", false, t);
    }
    pool.mark_key_used("A", true, 5);
    let s = stats_of(&pool, "A").unwrap();
    assert_eq!(s, ApiKeyStats { daily_usage: 1, last_used: 5, consecutive_failures: 0 });
    for t in 0..4u64 {
        pool.mark_key_used("A", false, 6 + t);
    }
    assert_eq!(pool.available_keys_count(), 1);
}

#[test]
fn release_of_unknown_key_changes_nothing() {
    let mut pool = pool_with(&["A"], 100, 0);
    pool.mark_key_used("zzz", false, 1);
    assert_eq!(pool.get_key_stats().len(), 1);
    assert_eq!(pool.available_keys_count(), 1);
}

#[test]
fn invalidate_is_idempotent() {
    let mut pool = pool_with(&["A", "B"], 100, 0);
    pool.mark_key_invalid("A");
    let count = pool.available_keys_count();
    let stats = pool.get_key_stats().len();
    pool.mark_key_invalid("A");
    assert_eq!(pool.available_keys_count(), count);
    assert_eq!(pool.get_key_stats().len(), stats);
    assert_eq!(count, 1);
    assert_eq!(pool.get_next_key(1), Some("B".to_string()));
}

#[test]
fn daily_cleanup_tick_resets_on_day_change() {
    let mut pool = pool_with(&["A"], 100, DAY - 10);
    pool.mark_key_used("A", true, DAY - 5);
    assert!(!pool.daily_cleanup_tick(DAY - 1));
    assert_eq!(stats_of(&pool, "A").unwrap().daily_usage, 1);
    assert!(pool.daily_cleanup_tick(DAY));
    let s = stats_of(&pool, "A").unwrap();
    assert_eq!(s.daily_usage, 0);
    assert_eq!(s.last_used, DAY - 5);
}

#[test]
fn reset_key_stack_keeps_the_credentials() {
    let mut pool = pool_with(&["A", "B", "C"], 100, 0);
    pool.reset_key_stack();
    assert_eq!(pool.available_keys_count(), 3);
    let mut served: Vec<String> = (0..3).map(|t| pool.get_next_key(t).unwrap()).collect();
    served.sort();
    assert_eq!(served, vec!["A".to_string(), "B".to_string(), "C".to_string()]);
}

#[test]
fn rotation_is_round_robin() {
    let mut pool = pool_with(&["A", "B", "C"], 100, 0);
    let a = pool.get_next_key(1).unwrap();
    let b = pool.get_next_key(2).unwrap();
    let c = pool.get_next_key(3).unwrap();
    assert_eq!(pool.get_next_key(4).unwrap(), a);
    assert_eq!(pool.get_next_key(5).unwrap(), b);
    assert_eq!(pool.get_next_key(6).unwrap(), c);
}
