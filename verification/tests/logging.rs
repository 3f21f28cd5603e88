use rujimi::utils::text::replace_all;
use rujimi::utils::logging::{
    format_log_message, vertex_format_log_message, ExtraValue, LogEntry, LogManager,
    VertexLogEntry, VertexLogManager,
};

fn text(s: &str) -> ExtraValue {
    ExtraValue { as_str: Some(s.to_string()), as_u64: None }
}

fn number(n: u64) -> ExtraValue {
    ExtraValue { as_str: None, as_u64: Some(n) }
}

#[test]
fn test_log_entry_creation() {
    let entry = LogEntry::new("info", "Test message", 0)
        .with_key("test-key")
        .with_model("test-model")
        .with_status_code(200);

    assert_eq!(entry.level, "info");
    assert_eq!(entry.message, "Test message");
    assert_eq!(entry.key, Some("test-key".to_string()));
    assert_eq!(entry.model, Some("test-model".to_string()));
    assert_eq!(entry.status_code, Some(200));
}

#[test]
fn test_vertex_log_entry_creation() {
    let entry = VertexLogEntry::new("error", "Vertex error", 0)
        .with_vertex_id("vertex-1")
        .with_operation("chat")
        .with_status("failed");

    assert_eq!(entry.level, "error");
    assert_eq!(entry.message, "Vertex error");
    assert_eq!(entry.vertex_id, Some("vertex-1".to_string()));
    assert_eq!(entry.operation, Some("chat".to_string()));
    assert_eq!(entry.status, Some("failed".to_string()));
}

#[test]
fn test_log_manager() {
    let mut manager = LogManager::new(5);

    for i in 0..10 {
        let entry = LogEntry::new("info", &format!("Test message {}", i), 0);
        manager.add_log(entry);
    }

    let logs = manager.get_logs();
    assert_eq!(logs.len(), 5);

    assert!(logs.last().unwrap().message.contains("Test message 9"));
}

#[test]
fn test_format_log_message() {
    let extra = vec![
        ("key".to_string(), text("test-key")),
        ("model".to_string(), text("gpt-4")),
        ("status_code".to_string(), number(200)),
    ];

    let entry = format_log_message("info", "Test format", Some(extra), 0);

    assert_eq!(entry.level, "info");
    assert_eq!(entry.message, "Test format");
    assert_eq!(entry.key, Some("test-key".to_string()));
    assert_eq!(entry.model, Some("gpt-4".to_string()));
    assert_eq!(entry.status_code, Some(200));
}

#[test]
fn log_line_fills_every_marker() {
    let entry = LogEntry::new("info", "served", 1_700_000_000_123)
        .with_key("AIzaSyAB")
        .with_request_type("chat")
        .with_model("gemini-pro")
        .with_status_code(200);
    assert_eq!(
        entry.line(),
        "[2023-11-14 22:13:20.123] [info] [AIzaSyAB]-chat-[gemini-pro]-200: served"
    );
}

#[test]
fn log_line_writes_dashes_for_missing_fields() {
    let entry = LogEntry::new("warn", "nothing known", 0);
    assert_eq!(entry.line(), "[1970-01-01 00:00:00.000] [warn] [-]---[-]--: nothing known");
}

#[test]
fn log_line_replaces_markers_brought_in_by_earlier_fields() {
    let entry = LogEntry::new("{message}", "x", 0);
    assert_eq!(entry.line(), "[1970-01-01 00:00:00.000] [x] [-]---[-]--: x");
}

#[test]
fn vertex_log_line_fills_every_marker() {
    let entry = VertexLogEntry::new("error", "call failed", 1_000)
        .with_vertex_id("v1")
        .with_operation("chat")
        .with_status("failed")
        .with_error_message("boom");
    assert_eq!(entry.line(), "[1970-01-01 00:00:01.000] [error] [v1]-chat-[failed]: call failed");
}

#[test]
fn log_manager_add_returns_the_line() {
    let mut manager = LogManager::new(1);
    let line = manager.add_log(LogEntry::new("info", "hello", 0));
    assert_eq!(line, "[1970-01-01 00:00:00.000] [info] [-]---[-]--: hello");
    assert_eq!(manager.count(), 1);
}

#[test]
fn log_manager_recent_keeps_order() {
    let mut manager = LogManager::new(10);
    for i in 0..4 {
        manager.add_log(LogEntry::new("info", &format!("m{}", i), i));
    }
    let recent = manager.get_recent_logs(2);
    let messages: Vec<&str> = recent.iter().map(|e| e.message.as_str()).collect();
    assert_eq!(messages, vec!["m2", "m3"]);
    assert_eq!(manager.get_recent_logs(9).len(), 4);
    assert_eq!(manager.get_recent_logs(0).len(), 0);
}

#[test]
fn log_manager_zero_capacity_keeps_nothing() {
    let mut manager = LogManager::new(0);
    manager.add_log(LogEntry::new("info", "gone", 0));
    assert_eq!(manager.count(), 0);
    assert!(manager.get_logs().is_empty());
}

#[test]
fn log_manager_filters_by_level_ignoring_case() {
    let mut manager = LogManager::new(10);
    manager.add_log(LogEntry::new("INFO", "a", 0));
    manager.add_log(LogEntry::new("error", "b", 0));
    manager.add_log(LogEntry::new("Info", "c", 0));
    let found = manager.get_logs_by_level("info");
    let messages: Vec<&str> = found.iter().map(|e| e.message.as_str()).collect();
    assert_eq!(messages, vec!["a", "c"]);
    assert!(manager.get_logs_by_level("debug").is_empty());
}

#[test]
fn log_manager_clear_forgets_everything() {
    let mut manager = LogManager::new(3);
    manager.add_log(LogEntry::new("info", "a", 0));
    manager.clear();
    assert_eq!(manager.count(), 0);
}

#[test]
fn format_log_message_without_extras() {
    let entry = format_log_message("debug", "plain", None, 7);
    assert_eq!(entry.timestamp, 7);
    assert_eq!(entry.key, None);
    assert_eq!(entry.status_code, None);
    assert!(entry.extra.is_none());
}

#[test]
fn format_log_message_ignores_extras_of_the_wrong_kind() {
    let extra = vec![
        ("key".to_string(), number(5)),
        ("status_code".to_string(), text("200")),
    ];
    let entry = format_log_message("info", "m", Some(extra), 0);
    assert_eq!(entry.key, None);
    assert_eq!(entry.status_code, None);
    assert_eq!(entry.extra.map(|x| x.len()), Some(2));
}

#[test]
fn format_log_message_wraps_a_large_status() {
    let extra = vec![("status_code".to_string(), number(65_536 + 404))];
    let entry = format_log_message("info", "m", Some(extra), 0);
    assert_eq!(entry.status_code, Some(404));
}

#[test]
fn vertex_format_log_message_reads_its_extras() {
    let extra = vec![
        ("vertex_id".to_string(), text("v9")),
        ("operation".to_string(), text("embed")),
        ("status".to_string(), text("ok")),
        ("error_message".to_string(), text("none")),
    ];
    let entry = vertex_format_log_message("info", "m", Some(extra), 3);
    assert_eq!(entry.vertex_id.as_deref(), Some("v9"));
    assert_eq!(entry.operation.as_deref(), Some("embed"));
    assert_eq!(entry.status.as_deref(), Some("ok"));
    assert_eq!(entry.error_message.as_deref(), Some("none"));
    assert_eq!(entry.timestamp, 3);
}

#[test]
fn vertex_log_manager_is_bounded() {
    let mut manager = VertexLogManager::new(2);
    for i in 0..5 {
        manager.add_log(VertexLogEntry::new("info", &format!("v{}", i), 0));
    }
    let logs = manager.get_logs();
    let messages: Vec<&str> = logs.iter().map(|e| e.message.as_str()).collect();
    assert_eq!(messages, vec!["v3", "v4"]);
    assert_eq!(manager.get_recent_logs(1)[0].message, "v4");
    manager.clear();
    assert!(manager.get_logs().is_empty());
}

#[test]
fn replace_all_goes_from_left_to_right() {
    let s: Vec<char> = "aaa-b-aa".chars().collect();
    let pat: Vec<char> = "aa".chars().collect();
    let with: Vec<char> = "x".chars().collect();
    let r: String = replace_all(&s, &pat, &with).into_iter().collect();
    assert_eq!(r, "xa-b-x");
    let same: String = replace_all(&s, &[], &with).into_iter().collect();
    assert_eq!(same, "aaa-b-aa");
}
