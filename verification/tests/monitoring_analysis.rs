use wezterm_parallel::monitoring::analytics::{summarize, UsagePatterns};
use wezterm_parallel::monitoring::logger::{LogAnalyzer, LogLine};

fn line(level: &str, message: &str) -> LogLine {
    LogLine { level: level.to_string(), message: message.to_string() }
}

#[test]
fn test_error_classification() {
    assert_eq!(LogAnalyzer::classify_error("Connection refused"), "Network");
    assert_eq!(LogAnalyzer::classify_error("NETWORK unreachable"), "Network");
    assert_eq!(LogAnalyzer::classify_error("File not found"), "File I/O");
    assert_eq!(LogAnalyzer::classify_error("failed to parse value"), "Parse Error");
    assert_eq!(LogAnalyzer::classify_error("Invalid token"), "Parse Error");
    assert_eq!(LogAnalyzer::classify_error("request Timeout"), "Timeout");
    assert_eq!(LogAnalyzer::classify_error("Access denied"), "Permission");
    // "permission" holds "io", which an earlier rule matches.
    assert_eq!(LogAnalyzer::classify_error("Permission denied"), "File I/O");
    assert_eq!(LogAnalyzer::classify_error("something odd"), "Other");
}

#[test]
fn classification_checks_in_order() {
    // "connection" comes before "file" in the order of the rules.
    assert_eq!(LogAnalyzer::classify_error("file connection lost"), "Network");
    // "io" inside another word still counts.
    assert_eq!(LogAnalyzer::classify_error("ratio exceeded"), "File I/O");
}

#[test]
fn recommendations_for_frequent_kinds() {
    let counts = vec![
        ("Network".to_string(), 6),
        ("Timeout".to_string(), 5),
        ("Weird".to_string(), 9),
    ];
    let r = LogAnalyzer::generate_recommendations(&counts);
    assert_eq!(
        r,
        vec![
            "Consider implementing retry logic for network operations".to_string(),
            "Investigate recurring Weird errors".to_string(),
        ]
    );
    assert!(LogAnalyzer::generate_recommendations(&Vec::new()).is_empty());
}

#[test]
fn count_errors_by_kind() {
    let lines = vec![
        line("ERROR", "connection reset"),
        line("INFO", "connection opened"),
        line("ERROR", "timeout waiting"),
        line("ERROR", "Network down"),
        line("WARN", "file slow"),
    ];
    let (counts, total) = LogAnalyzer::count_errors(&lines);
    assert_eq!(total, 3);
    assert_eq!(
        counts,
        vec![("Network".to_string(), 2), ("Timeout".to_string(), 1)]
    );
}

#[test]
fn summary_of_readings() {
    let s = summarize(&vec![3, 9, 4]);
    assert_eq!(s.average, 5);
    assert_eq!(s.peak, 9);
    let empty = summarize(&Vec::new());
    assert_eq!(empty.average, 0);
    assert_eq!(empty.peak, 0);
}

#[test]
fn usage_patterns_start_empty() {
    let p = UsagePatterns::default();
    assert!(p.peak_hours.is_empty());
    assert_eq!(p.avg_session_duration, 0);
    assert!(p.component_usage.is_empty());
}

use wezterm_parallel::monitoring::alerts::Alert;
use wezterm_parallel::monitoring::analytics::{
    count_healthy_checks, error_counts_by_category, get_alerts_in_range, health_checks_in_range,
    summary_lists, trend_positions, RecommendationPriority, TimeRange,
};
use wezterm_parallel::monitoring::{AlertSeverity, HealthCheck, HealthStatus};

fn alert_at(id: &str, severity: AlertSeverity, category: &str, timestamp: u64) -> Alert {
    Alert {
        id: id.to_string(),
        severity,
        category: category.to_string(),
        message: "m".to_string(),
        component: None,
        timestamp,
        data: Vec::new(),
        resolved: false,
        resolved_at: None,
    }
}

fn check_at(timestamp: u64, overall_status: HealthStatus) -> HealthCheck {
    HealthCheck { timestamp, overall_status, components: Vec::new(), check_duration_ms: 1 }
}

#[test]
fn alerts_and_checks_within_a_range() {
    let range = TimeRange { start: 10, end: 20, duration_hours: 0 };
    let alerts = vec![
        alert_at("a", AlertSeverity::Info, "x", 5),
        alert_at("b", AlertSeverity::Info, "x", 10),
        alert_at("c", AlertSeverity::Info, "x", 20),
        alert_at("d", AlertSeverity::Info, "x", 21),
    ];
    let ids: Vec<String> = get_alerts_in_range(&alerts, &range).into_iter().map(|a| a.id).collect();
    assert_eq!(ids, vec!["b", "c"]);
    let checks = vec![check_at(9, HealthStatus::Healthy), check_at(15, HealthStatus::Degraded), check_at(20, HealthStatus::Healthy)];
    assert_eq!(health_checks_in_range(&checks, &range), vec![1, 2]);
    assert_eq!(count_healthy_checks(&checks), 2);
}

#[test]
fn error_alerts_counted_by_category() {
    let alerts = vec![
        alert_at("1", AlertSeverity::Error, "System", 1),
        alert_at("2", AlertSeverity::Warning, "System", 2),
        alert_at("3", AlertSeverity::Critical, "Process", 3),
        alert_at("4", AlertSeverity::Critical, "System", 4),
    ];
    let counts = error_counts_by_category(&alerts);
    assert_eq!(counts.len(), 2);
    assert!(counts.contains(&("System".to_string(), 2)));
    assert!(counts.contains(&("Process".to_string(), 1)));
    assert!(error_counts_by_category(&vec![alert_at("5", AlertSeverity::Info, "x", 0)]).is_empty());
}

#[test]
fn trends_sample_every_tenth_reading() {
    assert!(trend_positions(0).is_empty());
    assert_eq!(trend_positions(1), vec![0]);
    assert_eq!(trend_positions(10), vec![0]);
    assert_eq!(trend_positions(11), vec![0, 10]);
    assert_eq!(trend_positions(25), vec![0, 10, 20]);
}

#[test]
fn summary_lists_critical_and_at_most_three_improvements() {
    let recs = vec![
        (RecommendationPriority::High, "h1".to_string()),
        (RecommendationPriority::Critical, "c1".to_string()),
        (RecommendationPriority::Medium, "m1".to_string()),
        (RecommendationPriority::Low, "l1".to_string()),
        (RecommendationPriority::High, "h2".to_string()),
        (RecommendationPriority::Medium, "m2".to_string()),
    ];
    let (critical, improve) = summary_lists(&recs);
    assert_eq!(critical, vec!["c1"]);
    assert_eq!(improve, vec!["h1", "m1", "h2"]);
}

use wezterm_parallel::logging::level::UnifiedLogLevel;
use wezterm_parallel::monitoring::logger::{level_for_setting, needs_rotation, rotation_steps, LogStats};

#[test]
fn log_level_settings() {
    assert_eq!(level_for_setting("DEBUG"), UnifiedLogLevel::Debug);
    assert_eq!(level_for_setting("Trace"), UnifiedLogLevel::Trace);
    assert_eq!(level_for_setting("warn"), UnifiedLogLevel::Warn);
    assert_eq!(level_for_setting("ERROR"), UnifiedLogLevel::Error);
    assert_eq!(level_for_setting("verbose"), UnifiedLogLevel::Info);
}

#[test]
fn log_statistics_count_levels_and_components() {
    let mut stats = LogStats::new();
    stats.update_stats("INFO", Some("ipc"), 10);
    stats.update_stats("INFO", None, 20);
    stats.update_stats("ERROR", Some("ipc"), 30);
    assert_eq!(stats.total_entries, 3);
    assert!(stats.entries_by_level.contains(&("INFO".to_string(), 2)));
    assert!(stats.entries_by_level.contains(&("ERROR".to_string(), 1)));
    assert_eq!(stats.entries_by_component, vec![("ipc".to_string(), 2)]);
    assert_eq!(stats.log_file_size, 30);
}

#[test]
fn log_rotation_plan() {
    assert!(needs_rotation(10 * 1024 * 1024 + 1, 10));
    assert!(!needs_rotation(10 * 1024 * 1024, 10));
    assert_eq!(rotation_steps(4), vec![(2, 3), (1, 2), (0, 1)]);
    assert!(rotation_steps(1).is_empty());
    assert!(rotation_steps(0).is_empty());
}
