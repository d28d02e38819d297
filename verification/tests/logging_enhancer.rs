use wezterm_parallel::logging::enhancer::{
    create_log_entry, format_human_readable, log_entry_at, log_with_context, set_component_log_level,
    update_logging_strategy,
};
use wezterm_parallel::logging::formatter::{CustomFormatter, FormatterType, HumanReadableFormatter};
use wezterm_parallel::logging::strategy::{LoggingStrategy, StrategyManager};
use wezterm_parallel::logging::{
    log_config_reload, log_config_validation, log_message_receive, log_message_send,
    log_process_heartbeat, log_process_start, log_process_stop, LogContext, LogRecord,
    UnifiedLogEntry, UnifiedLogLevel,
};
use wezterm_parallel::monitoring::health::DetailValue;

fn record(level: UnifiedLogLevel, component: &str) -> LogRecord {
    LogRecord {
        level,
        context: LogContext::new(component, "operation"),
        message: "Test message".to_string(),
        error: None,
        duration_ms: Some(100),
    }
}

fn test_entry() -> UnifiedLogEntry {
    let context = LogContext::new("test", "operation")
        .with_entity_id("test-123")
        .with_session_id("session-456")
        .with_metadata("cpu", DetailValue::Real("75.5".to_string()))
        .with_metadata("memory", DetailValue::Text("512MB".to_string()));
    UnifiedLogEntry {
        timestamp: "2025-01-01T12:00:00.123Z".to_string(),
        level: UnifiedLogLevel::Info,
        context,
        message: "Test message with spaces".to_string(),
        error: Some("Test error".to_string()),
        duration_ms: Some(150),
        location: Some("test.rs:42".to_string()),
    }
}

#[test]
fn test_log_entry_creation() {
    let entry = create_log_entry(record(UnifiedLogLevel::Info, "test"), 1_735_689_600, "enhancer.rs:1");

    assert_eq!(entry.level, UnifiedLogLevel::Info);
    assert_eq!(entry.context.component, "test");
    assert_eq!(entry.context.operation, "operation");
    assert_eq!(entry.message, "Test message");
    assert_eq!(entry.duration_ms, Some(100));
    assert_eq!(entry.location, None);
    assert_eq!(entry.timestamp, "2025-01-01T00:00:00+00:00");
}

#[test]
fn debug_entries_carry_location() {
    let entry = create_log_entry(record(UnifiedLogLevel::Debug, "test"), 0, "here.rs:7");
    assert_eq!(entry.location, Some("here.rs:7".to_string()));
    assert_eq!(entry.timestamp, "1970-01-01T00:00:00+00:00");
}

#[test]
fn test_human_readable_format() {
    let context = LogContext::new("process", "start")
        .with_entity_id("test-123")
        .with_metadata("cpu", DetailValue::Real("50.5".to_string()));

    let entry = UnifiedLogEntry {
        timestamp: "2025-01-01T00:00:00Z".to_string(),
        level: UnifiedLogLevel::Info,
        context,
        message: "Test message".to_string(),
        error: None,
        duration_ms: Some(150),
        location: None,
    };

    let formatted = format_human_readable(&entry);
    assert!(formatted.contains("INFO"));
    assert!(formatted.contains("process:start"));
    assert!(formatted.contains("test-123"));
    assert!(formatted.contains("Test message"));
    assert!(formatted.contains("150ms"));
    assert!(formatted.contains("cpu=50.5"));
}

#[test]
fn plain_line_is_exact_with_json_values() {
    let mut entry = test_entry();
    entry.context.metadata.push(("note".to_string(), DetailValue::Text("say \"hi\"\n".to_string())));
    entry.context.metadata.push(("code".to_string(), DetailValue::Signed(-3)));
    entry.context.metadata.push(("none".to_string(), DetailValue::Null));
    assert_eq!(
        format_human_readable(&entry),
        "2025-01-01T12:00:00.123Z [INFO] [test:operation] [test-123] (session:session-456) Test message with spaces (150ms) ERROR: Test error [cpu=75.5 memory=\"512MB\" note=\"say \\\"hi\\\"\\n\" code=-3 none=null] @test.rs:42"
    );
}

#[test]
fn json_text_of_control_characters() {
    let mut entry = test_entry();
    entry.context.metadata = vec![("c".to_string(), DetailValue::Text("a\u{1}b\u{1f}".to_string()))];
    let line = format_human_readable(&entry);
    assert!(line.contains("[c=\"a\\u0001b\\u001f\"]"));
}

#[test]
fn test_custom_formatter() {
    let formatter = CustomFormatter::new("{level} - {component}: {message}");
    let entry = test_entry();
    let formatted = formatter.format(&entry);
    assert_eq!(formatted, "INFO - test: Test message with spaces");
}

#[test]
fn custom_templates_fill_every_field() {
    let entry = test_entry();
    assert_eq!(
        CustomFormatter::detailed().format(&entry),
        "2025-01-01T12:00:00.123Z [INFO] [test:operation] test-123 Test message with spaces 150ms"
    );
    assert_eq!(
        CustomFormatter::simple().format(&entry),
        "2025-01-01T12:00:00.123Z [INFO] test: Test message with spaces"
    );
    let mut bare = test_entry();
    bare.error = None;
    bare.duration_ms = None;
    assert_eq!(
        CustomFormatter::new("{error}|{duration}|{location}|{session_id}|{unknown}").format(&bare),
        "||test.rs:42|session-456|{unknown}"
    );
    assert_eq!(CustomFormatter::new("{level}{level}").format(&entry), "INFOINFO");
}

#[test]
fn formatter_from_setting() {
    assert!(matches!(FormatterType::from_environment(Some("json")), FormatterType::Json(j) if !j.pretty));
    assert!(matches!(FormatterType::from_environment(Some("json-pretty")), FormatterType::Json(j) if j.pretty));
    assert!(matches!(FormatterType::from_environment(Some("logfmt")), FormatterType::LogFmt(_)));
    assert!(matches!(
        FormatterType::from_environment(Some("compact")),
        FormatterType::HumanReadable(h) if !h.show_timestamp && !h.show_metadata
    ));
    assert!(matches!(
        FormatterType::from_environment(Some("verbose")),
        FormatterType::HumanReadable(h) if h.show_location
    ));
    assert!(matches!(
        FormatterType::from_environment(None),
        FormatterType::HumanReadable(h) if h.show_timestamp && !h.show_location
    ));
    let _ = HumanReadableFormatter::new();
}

#[test]
fn strategy_from_setting() {
    assert_eq!(StrategyManager::from_environment(Some("dev")).get_strategy().default_level, UnifiedLogLevel::Debug);
    assert_eq!(
        StrategyManager::from_environment(Some("production")).get_strategy().default_level,
        UnifiedLogLevel::Warn
    );
    assert_eq!(StrategyManager::from_environment(Some("debug")).get_strategy().default_level, UnifiedLogLevel::Trace);
    assert_eq!(StrategyManager::from_environment(Some("other")).get_strategy().default_level, UnifiedLogLevel::Info);
    assert_eq!(StrategyManager::from_environment(None).get_strategy().get_log_level("monitoring"), UnifiedLogLevel::Warn);
}

#[test]
fn logging_through_the_strategy() {
    let mut manager = StrategyManager::new(LoggingStrategy::default());
    assert!(log_with_context(&manager, record(UnifiedLogLevel::Debug, "process"), "x").is_none());
    assert!(log_with_context(&manager, record(UnifiedLogLevel::Debug, "ipc"), "x").is_some());

    let change = set_component_log_level(&mut manager, "process", UnifiedLogLevel::Debug);
    assert_eq!(change.message, "Changed log level for process to DEBUG");
    assert_eq!(change.context.operation, "level_change");
    assert!(log_with_context(&manager, record(UnifiedLogLevel::Debug, "process"), "x").is_some());

    let update = update_logging_strategy(&mut manager, LoggingStrategy::production());
    assert_eq!(update.message, "Updated logging strategy");
    assert_eq!(manager.get_strategy().default_level, UnifiedLogLevel::Warn);
}

#[test]
fn process_records() {
    let r = log_process_start("p1", "cargo run");
    assert_eq!(r.message, "Starting process: cargo run");
    assert_eq!(r.context.metadata.len(), 1);
    assert_eq!(log_process_stop("p1", Some(0)).message, "Process stopped successfully");
    assert_eq!(log_process_stop("p1", Some(-9)).message, "Process stopped with exit code: -9");
    assert_eq!(log_process_stop("p1", None).message, "Process terminated");
    let hb = log_process_heartbeat("p1", "running");
    assert_eq!(hb.message, "Process heartbeat: running");
    assert_eq!(hb.level, UnifiedLogLevel::Debug);
}

#[test]
fn ipc_and_config_records() {
    assert_eq!(
        log_message_send("a", "b", "ping", 12).message,
        "Sending ping message to b (12 bytes)"
    );
    let rec = log_message_receive("a", "b", "pong", 7);
    assert_eq!(rec.message, "Received pong message from a");
    assert_eq!(rec.duration_ms, Some(7));
    assert_eq!(rec.context.entity_id, Some("b".to_string()));
    assert_eq!(
        log_config_reload("c.yaml", 3).message,
        "Reloaded configuration from c.yaml (3 changes)"
    );
    let ok = log_config_validation("c.yaml", true, 2);
    assert_eq!(ok.message, "Configuration validation passed (2 warnings)");
    assert_eq!(ok.level, UnifiedLogLevel::Info);
    let bad = log_config_validation("c.yaml", false, 0);
    assert_eq!(bad.message, "Configuration validation failed");
    assert_eq!(bad.level, UnifiedLogLevel::Error);
}

#[test]
fn entries_stamped_at_a_given_time() {
    let manager = StrategyManager::new(LoggingStrategy::default());
    assert!(log_entry_at(&manager, record(UnifiedLogLevel::Debug, "process"), 0, "x").is_none());
    let e = log_entry_at(&manager, record(UnifiedLogLevel::Debug, "ipc"), 0, "here").unwrap();
    assert_eq!(e.timestamp, "1970-01-01T00:00:00+00:00");
    assert_eq!(e.location.as_deref(), Some("here"));
    let e = log_entry_at(&manager, record(UnifiedLogLevel::Error, "ipc"), 86_400, "here").unwrap();
    assert_eq!(e.timestamp, "1970-01-02T00:00:00+00:00");
    assert!(e.location.is_none());
    assert!(log_entry_at(&manager, record(UnifiedLogLevel::Error, "ipc"), u64::MAX, "x").is_none());
}
