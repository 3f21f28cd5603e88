use rujimi::utils::stats::{ApiStats, ApiStatsManager};

#[test]
fn test_api_stats_manager() {
    let mut manager = ApiStatsManager::new(1_000);
    manager.record_api_call("gpt-4".to_string(), 100, true, 500, Some("127.0.0.1".to_string()), 2_000);
    manager.record_api_call("gpt-3.5".to_string(), 50, false, 1000, Some("127.0.0.1".to_string()), 3_000);
    let stats = manager.get_stats();
    assert_eq!(stats.total_requests, 2);
    assert_eq!(stats.successful_requests, 1);
    assert_eq!(stats.failed_requests, 1);
    assert_eq!(stats.total_tokens, 150);
    let model_stats = manager.get_model_stats();
    assert_eq!(model_stats.len(), 2);
}

#[test]
fn aggregates_are_exact() {
    let mut m = ApiStatsManager::new(0);
    let hour = 3_600_000;
    let day = 86_400_000;
    let now = 10 * day;
    m.record_api_call("a".to_string(), 10, true, 100, None, now - day - 1);
    m.record_api_call("a".to_string(), 20, true, 200, None, now - hour - 1);
    m.record_api_call("b".to_string(), 30, false, 300, None, now - 60_000);
    m.record_api_call("b".to_string(), 40, true, 400, None, now);
    assert_eq!(
        m.get_stats(),
        ApiStats {
            total_requests: 4,
            successful_requests: 3,
            failed_requests: 1,
            total_tokens: 100,
            requests_last_minute: 1,
            requests_last_hour: 2,
            requests_last_day: 3,
            total_response_time_ms: 1000,
        }
    );
}

#[test]
fn records_past_retention_are_pruned() {
    let mut m = ApiStatsManager::new(0);
    let week = 604_800_000;
    m.record_api_call("a".to_string(), 1, true, 1, None, 1_000);
    m.record_api_call("a".to_string(), 1, true, 1, None, 2_000);
    m.record_api_call("a".to_string(), 1, true, 1, None, 1_500 + week);
    // The first record is a week old at the time of the third.
    assert_eq!(m.get_stats().total_requests, 2);
    assert_eq!(m.get_recent_calls(10).len(), 2);
    // Model counters are not pruned.
    let models = m.get_model_stats();
    assert_eq!(models.len(), 1);
    assert_eq!(models[0].model_name, "a");
    assert_eq!(models[0].request_count, 3);
}

#[test]
fn model_counters_add_up() {
    let mut m = ApiStatsManager::new(0);
    m.record_api_call("x".to_string(), 10, true, 100, None, 1);
    m.record_api_call("x".to_string(), 5, false, 300, None, 2);
    let models = m.get_model_stats();
    assert_eq!(models.len(), 1);
    assert_eq!(models[0].request_count, 2);
    assert_eq!(models[0].token_count, 15);
    assert_eq!(models[0].successful_requests, 1);
    assert_eq!(models[0].total_response_time_ms, 400);
}

#[test]
fn recent_calls_are_newest_first() {
    let mut m = ApiStatsManager::new(0);
    for i in 0..5u32 {
        m.record_api_call(format!("m{}", i), i, true, 1, None, 100 + i as u64);
    }
    let recent = m.get_recent_calls(3);
    let names: Vec<&str> = recent.iter().map(|r| r.model.as_str()).collect();
    assert_eq!(names, vec!["m4", "m3", "m2"]);
    assert_eq!(m.get_recent_calls(0).len(), 0);
    assert_eq!(m.get_recent_calls(99).len(), 5);
}

#[test]
fn requests_for_ip_last_day() {
    let mut m = ApiStatsManager::new(0);
    let day = 86_400_000;
    m.record_api_call("a".to_string(), 1, true, 1, Some("1.1.1.1".to_string()), 1_000);
    m.record_api_call("a".to_string(), 1, false, 1, Some("1.1.1.1".to_string()), day);
    m.record_api_call("a".to_string(), 1, true, 1, Some("2.2.2.2".to_string()), day);
    m.record_api_call("a".to_string(), 1, true, 1, None, day);
    assert_eq!(m.get_requests_for_ip_last_day("1.1.1.1", day + 500), 2);
    assert_eq!(m.get_requests_for_ip_last_day("1.1.1.1", day + 1_000), 1);
    assert_eq!(m.get_requests_for_ip_last_day("2.2.2.2", day + 1_000), 1);
    assert_eq!(m.get_requests_for_ip_last_day("3.3.3.3", day + 1_000), 0);
}

#[test]
fn clear_stats_forgets_everything() {
    let mut m = ApiStatsManager::new(0);
    m.record_api_call("a".to_string(), 1, true, 1, None, 1);
    m.clear_stats(2);
    assert_eq!(m.get_stats().total_requests, 0);
    assert_eq!(m.get_model_stats().len(), 0);
    assert_eq!(m.get_recent_calls(5).len(), 0);
}

#[test]
fn cleanup_tick_runs_after_an_hour() {
    let mut m = ApiStatsManager::new(0);
    let week = 604_800_000;
    m.record_api_call("a".to_string(), 7, true, 1, None, 10);
    assert!(!m.cleanup_tick(3_600_000));
    assert!(m.cleanup_tick(3_600_001));
    assert_eq!(m.get_stats().total_requests, 1);
    assert!(!m.cleanup_tick(3_600_002));
    assert!(m.cleanup_tick(week + 10));
    assert_eq!(m.get_stats().total_requests, 0);
    assert_eq!(m.get_stats().total_tokens, 0);
}
