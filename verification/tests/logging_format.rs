use wezterm_parallel::logging::level_of_upper_name;
use wezterm_parallel::monitoring::logger::{error_kind_of_lower, level_of_lower_setting};
use wezterm_parallel::logging::formatter::{
    format_metadata_value, quote_if_needed, HumanReadableFormatter, JsonFormatter,
    LogFmtFormatter,
};
use wezterm_parallel::logging::level::{level_number, passes, UnifiedLogLevel};
use wezterm_parallel::logging::strategy::LoggingStrategy;
use wezterm_parallel::logging::{
    log_config_error, log_config_load, log_connection_error, log_process_error, LogContext,
    UnifiedLogEntry,
};
use wezterm_parallel::monitoring::health::DetailValue;

fn create_test_entry() -> UnifiedLogEntry {
    let context = LogContext::new("test", "operation")
        .with_entity_id("test-123")
        .with_session_id("session-456")
        .with_metadata("cpu", DetailValue::Real("75.5".to_string()))
        .with_metadata("memory", DetailValue::Text("512MB".to_string()));

    UnifiedLogEntry {
        timestamp: "2025-01-01T12:00:00.123Z".to_string(),
        level: UnifiedLogLevel::Info,
        context,
        message: "Test message with spaces".to_string(),
        error: Some("Test error".to_string()),
        duration_ms: Some(150),
        location: Some("test.rs:42".to_string()),
    }
}

#[test]
fn test_unified_log_level_ordering() {
    assert!(UnifiedLogLevel::Trace < UnifiedLogLevel::Debug);
    assert!(UnifiedLogLevel::Debug < UnifiedLogLevel::Info);
    assert!(UnifiedLogLevel::Info < UnifiedLogLevel::Warn);
    assert!(UnifiedLogLevel::Warn < UnifiedLogLevel::Error);
}

#[test]
fn test_log_level_conversion() {
    assert_eq!(UnifiedLogLevel::Info.as_str(), "INFO");
    assert_eq!(
        UnifiedLogLevel::from_str("DEBUG"),
        Some(UnifiedLogLevel::Debug)
    );
    assert_eq!(UnifiedLogLevel::from_str("invalid"), None);
}

#[test]
fn log_level_names_are_case_insensitive_on_input() {
    assert_eq!(UnifiedLogLevel::from_str("warn"), Some(UnifiedLogLevel::Warn));
    assert_eq!(UnifiedLogLevel::from_str("Error"), Some(UnifiedLogLevel::Error));
    for l in [
        UnifiedLogLevel::Trace,
        UnifiedLogLevel::Debug,
        UnifiedLogLevel::Info,
        UnifiedLogLevel::Warn,
        UnifiedLogLevel::Error,
    ] {
        assert_eq!(UnifiedLogLevel::from_str(l.as_str()), Some(l));
    }
}

#[test]
fn level_numbers_and_thresholds() {
    assert_eq!(level_number(UnifiedLogLevel::Trace), 1);
    assert_eq!(level_number(UnifiedLogLevel::Error), 5);
    assert!(passes(UnifiedLogLevel::Warn, UnifiedLogLevel::Info));
    assert!(passes(UnifiedLogLevel::Info, UnifiedLogLevel::Info));
    assert!(!passes(UnifiedLogLevel::Debug, UnifiedLogLevel::Info));
}

#[test]
fn test_log_context_creation() {
    let context = LogContext::new("process", "start")
        .with_entity_id("agent-001")
        .with_session_id("session-123")
        .with_metadata("cpu_usage", DetailValue::Real("75.5".to_string()));

    assert_eq!(context.component, "process");
    assert_eq!(context.operation, "start");
    assert_eq!(context.entity_id, Some("agent-001".to_string()));
    assert_eq!(context.session_id, Some("session-123".to_string()));
    assert!(context.metadata.iter().any(|(k, _)| k == "cpu_usage"));
}

#[test]
fn metadata_key_set_twice_keeps_last_value() {
    let context = LogContext::new("a", "b")
        .with_metadata("k", DetailValue::Number(1))
        .with_metadata("k", DetailValue::Number(2));
    assert_eq!(context.metadata.len(), 1);
    assert_eq!(format_metadata_value(&context.metadata[0].1), "2");
}

#[test]
fn test_human_readable_formatter() {
    let formatter = HumanReadableFormatter::new();
    let entry = create_test_entry();
    let formatted = formatter.format(&entry);

    assert!(formatted.contains("INFO"));
    assert!(formatted.contains("test:operation"));
    assert!(formatted.contains("test-123"));
    assert!(formatted.contains("Test message"));
    assert!(formatted.contains("150ms"));
    assert!(formatted.contains("ERROR: Test error"));
}

#[test]
fn human_readable_without_colours_is_exact() {
    let mut formatter = HumanReadableFormatter::compact();
    formatter.color_enabled = false;
    let entry = create_test_entry();
    assert_eq!(
        formatter.format(&entry),
        "[INFO] [test:operation:test-123] (session-456) Test message with spaces (150ms) ERROR: Test error"
    );
}

#[test]
fn human_readable_shows_clock_time_and_metadata() {
    let mut formatter = HumanReadableFormatter::verbose();
    formatter.color_enabled = false;
    let entry = create_test_entry();
    assert_eq!(
        formatter.format(&entry),
        "12:00:00.123 [INFO] [test:operation:test-123] (session-456) Test message with spaces (150ms) ERROR: Test error [cpu=75.5 memory=512MB] @test.rs:42"
    );
}

#[test]
fn human_readable_keeps_unparsable_timestamp() {
    let mut formatter = HumanReadableFormatter::new();
    formatter.color_enabled = false;
    formatter.show_level = false;
    formatter.show_component = false;
    formatter.show_metadata = false;
    let mut entry = create_test_entry();
    entry.timestamp = "yesterday".to_string();
    entry.error = None;
    entry.duration_ms = None;
    assert_eq!(formatter.format(&entry), "yesterday (session-456) Test message with spaces");
}

#[test]
fn colours_per_level() {
    let formatter = HumanReadableFormatter::new();
    assert_eq!(formatter.get_level_color(UnifiedLogLevel::Error), "\x1b[31m");
    assert_eq!(formatter.get_level_color(UnifiedLogLevel::Trace), "\x1b[36m");
    assert_eq!(formatter.reset_color(), "\x1b[0m");
}

#[test]
fn test_logfmt_formatter() {
    let formatter = LogFmtFormatter;
    let entry = create_test_entry();
    let formatted = formatter.format(&entry);

    assert!(formatted.contains("level=INFO"));
    assert!(formatted.contains("component=test"));
    assert!(formatted.contains("operation=operation"));
    assert!(formatted.contains("entity_id=test-123"));
    assert!(formatted.contains("message=\"Test message with spaces\""));
    assert!(formatted.contains("duration_ms=150"));
}

#[test]
fn logfmt_line_is_exact() {
    let entry = create_test_entry();
    assert_eq!(
        LogFmtFormatter.format(&entry),
        "timestamp=2025-01-01T12:00:00.123Z level=INFO component=test operation=operation entity_id=test-123 session_id=session-456 message=\"Test message with spaces\" duration_ms=150 error=\"Test error\" cpu=75.5 memory=512MB location=test.rs:42"
    );
}

#[test]
fn quoting_rules() {
    assert_eq!(quote_if_needed("plain"), "plain");
    assert_eq!(quote_if_needed("a=b"), "\"a=b\"");
    assert_eq!(quote_if_needed("say \"hi\""), "\"say \\\"hi\\\"\"");
    assert_eq!(format_metadata_value(&DetailValue::Flag(true)), "true");
    assert_eq!(format_metadata_value(&DetailValue::Number(42)), "42");
}

#[test]
fn json_formatter_settings() {
    let f = JsonFormatter::new();
    assert!(!f.pretty && !f.include_empty_fields);
    assert!(JsonFormatter::pretty().pretty);
    assert!(!JsonFormatter::compact().pretty);
}

#[test]
fn test_default_strategy() {
    let strategy = LoggingStrategy::default();
    assert_eq!(strategy.default_level, UnifiedLogLevel::Info);
    assert_eq!(strategy.get_log_level("process"), UnifiedLogLevel::Info);
    assert_eq!(strategy.get_log_level("unknown"), UnifiedLogLevel::Info);
}

#[test]
fn test_development_strategy() {
    let strategy = LoggingStrategy::development();
    assert_eq!(strategy.default_level, UnifiedLogLevel::Debug);
    assert_eq!(strategy.get_log_level("ipc"), UnifiedLogLevel::Trace);
}

#[test]
fn test_production_strategy() {
    let strategy = LoggingStrategy::production();
    assert_eq!(strategy.default_level, UnifiedLogLevel::Warn);
    assert_eq!(strategy.get_log_level("error"), UnifiedLogLevel::Error);
}

#[test]
fn test_performance_measurement() {
    let strategy = LoggingStrategy::default();
    let context = LogContext::new("process", "start");
    assert!(strategy.should_measure_performance(&context));

    let context2 = LogContext::new("process", "heartbeat");
    assert!(!strategy.should_measure_performance(&context2));
}

#[test]
fn debug_strategy_measures_every_operation() {
    let strategy = LoggingStrategy::debug();
    assert!(strategy.should_measure_performance(&LogContext::new("process", "start")));
    assert!(strategy.should_measure_performance(&LogContext::new("room", "heartbeat")));
    assert!(!strategy.should_measure_performance(&LogContext::new("monitoring", "check")));
    assert!(!strategy.should_measure_performance(&LogContext::new("processes", "start")));
}

#[test]
fn strategy_admits_by_component_level() {
    let strategy = LoggingStrategy::default();
    assert!(strategy.admits(&log_process_error("p1", "boom")));
    let mut record = log_config_load("a.yaml", 12);
    assert!(strategy.admits(&record));
    record.level = UnifiedLogLevel::Debug;
    assert!(!strategy.admits(&record));
    assert!(!strategy.should_rate_limit(&record.context));
    let debug = LoggingStrategy::debug();
    assert_eq!(debug.default_level, UnifiedLogLevel::Trace);
}

#[test]
fn log_records_of_helpers() {
    let r = log_connection_error("/tmp/s.sock", "refused");
    assert_eq!(r.message, "IPC connection error to /tmp/s.sock");
    assert_eq!(r.context.component, "ipc");
    assert_eq!(r.error, Some("refused".to_string()));
    let r = log_config_error("a.yaml", "bad");
    assert_eq!(r.message, "Configuration error in a.yaml");
    assert_eq!(r.level, UnifiedLogLevel::Error);
    let r = log_config_load("a.yaml", 7);
    assert_eq!(r.duration_ms, Some(7));
}

#[test]
fn test_json_formatter() {
    let formatter = JsonFormatter::new();
    let entry = create_test_entry();
    let formatted = formatter.format(&entry);

    let parsed: serde_json::Value = serde_json::from_str(&formatted).unwrap();
    assert_eq!(parsed["level"], "INFO");
    assert_eq!(parsed["component"], "test");
    assert_eq!(parsed["operation"], "operation");
    assert_eq!(parsed["entity_id"], "test-123");
    assert_eq!(parsed["duration_ms"], 150);
}

#[test]
fn json_formatter_orders_members_by_name() {
    let entry = create_test_entry();
    let compact = JsonFormatter::new().format(&entry);
    assert_eq!(
        compact,
        "{\"component\":\"test\",\"duration_ms\":150,\"entity_id\":\"test-123\",\"error\":\"Test error\",\
         \"level\":\"INFO\",\"location\":\"test.rs:42\",\"message\":\"Test message with spaces\",\
         \"metadata\":{\"cpu\":75.5,\"memory\":\"512MB\"},\"operation\":\"operation\",\
         \"session_id\":\"session-456\",\"timestamp\":\"2025-01-01T12:00:00.123Z\"}"
    );
    let pretty = JsonFormatter::pretty().format(&entry);
    let value: serde_json::Value = serde_json::from_str(&compact).unwrap();
    assert_eq!(pretty, serde_json::to_string_pretty(&value).unwrap());
    let plain = UnifiedLogEntry {
        timestamp: "t".to_string(),
        level: UnifiedLogLevel::Warn,
        context: LogContext::new("c", "o"),
        message: "say \"hi\"".to_string(),
        error: None,
        duration_ms: None,
        location: None,
    };
    assert_eq!(
        JsonFormatter::new().format(&plain),
        "{\"component\":\"c\",\"level\":\"WARN\",\"message\":\"say \\\"hi\\\"\",\"operation\":\"o\",\"timestamp\":\"t\"}"
    );
}

#[test]
fn steps_after_the_text_conversions() {
    assert_eq!(level_of_upper_name("DEBUG"), Some(UnifiedLogLevel::Debug));
    assert_eq!(level_of_upper_name("debug"), None);
    assert_eq!(error_kind_of_lower("connection timeout"), "Network");
    assert_eq!(error_kind_of_lower("Connection timeout"), "File I/O");
    assert_eq!(level_of_lower_setting(&"warn".to_string()), UnifiedLogLevel::Warn);
    assert_eq!(level_of_lower_setting(&"WARN".to_string()), UnifiedLogLevel::Info);

    let mut formatter = HumanReadableFormatter::verbose();
    formatter.color_enabled = false;
    let entry = create_test_entry();
    let with_clock = formatter.format_with_clock(&entry, Some("01:02:03.004".to_string()));
    assert!(with_clock.starts_with("01:02:03.004 [INFO]"));
    let without = formatter.format_with_clock(&entry, None);
    assert!(without.starts_with(&format!("{} [INFO]", entry.timestamp)));
}
