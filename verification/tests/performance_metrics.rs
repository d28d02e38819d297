use wezterm_parallel::error::TimeSpan;
use wezterm_parallel::performance::metrics::{
    check_performance_alerts, memory_alert, response_time_alert, AlertSeverity, AlertType,
    MetricsCollector, OperationCounters, ResponseTimeWindow,
};
use wezterm_parallel::performance::{PerformanceConfig, PerformanceManager};

const MB: usize = 1024 * 1024;

#[test]
fn test_metrics_collector() {
    let mut collector = MetricsCollector::new(10, TimeSpan::from_millis(50), 0);
    collector.update_memory_usage(MB * 100, MB * 150);
    collector.update_task_count(5);
    let metrics = collector.get_current_metrics();
    assert_eq!(metrics.memory_usage, MB * 100);
    assert_eq!(metrics.memory_peak, MB * 150);
    assert_eq!(metrics.task_count, 5);
}

#[test]
fn test_response_time_recording() {
    let mut collector = MetricsCollector::new(10, TimeSpan::from_millis(50), 0);
    collector.record_response_time(TimeSpan::from_millis(100));
    collector.record_response_time(TimeSpan::from_millis(200));
    let metrics = collector.get_current_metrics();
    assert_eq!(metrics.response_time.as_nanos_u64(), 150_000_000);
}

#[test]
fn test_error_recording() {
    let mut collector = MetricsCollector::new(10, TimeSpan::from_millis(50), 0);
    collector.record_operation("test_op");
    collector.record_operation("test_op");
    collector.record_error("test_error");
    let errors = collector.counters().error_total().unwrap();
    let operations = collector.counters().operation_total().unwrap();
    assert_eq!((errors, operations), (1, 2));
    let error_rate = (errors as f64 / operations as f64) * 100.0;
    assert_eq!(error_rate, 50.0);
}

#[test]
fn test_performance_alerts() {
    let alerts = check_performance_alerts(
        Some(AlertSeverity::Critical),
        MB * 100,
        TimeSpan::from_millis(10),
        None,
    );
    assert!(!alerts.is_empty());
    assert_eq!(alerts[0].0, AlertType::CpuHigh);
    assert_eq!(alerts[0].1, AlertSeverity::Critical);
}

#[test]
fn test_metrics_collection() {
    let mut collector = MetricsCollector::new(3, TimeSpan::from_millis(10), 0);
    for i in 0..5usize {
        collector.update_task_count(i);
        collector.collect();
    }
    let history = collector.get_metrics_history();
    assert_eq!(history.len(), 3);
    assert_eq!(history[0].task_count, 2);
    assert_eq!(history[2].task_count, 4);
}

#[test]
fn mod_test_metrics_update() {
    let mut manager = PerformanceManager::new(PerformanceConfig::default(), 0);
    manager.update_memory_usage(1024 * 1024, 0);
    manager.update_cpu_usage(50.0_f64.to_bits());
    manager.update_active_tasks(5);
    let m = manager.get_metrics();
    assert_eq!(m.memory_usage, 1024 * 1024);
    assert_eq!(f64::from_bits(m.cpu_usage_bits), 50.0);
    assert_eq!(m.active_tasks, 5);
}

#[test]
fn memory_and_response_thresholds() {
    assert_eq!(memory_alert(MB * 512), None);
    assert_eq!(memory_alert(MB * 513), Some((AlertSeverity::Warning, 512)));
    assert_eq!(memory_alert(MB * 1024 + MB - 1), Some((AlertSeverity::Warning, 512)));
    assert_eq!(memory_alert(MB * 1025), Some((AlertSeverity::Critical, 1024)));
    assert_eq!(response_time_alert(TimeSpan::from_millis(500)), None);
    assert_eq!(response_time_alert(TimeSpan::from_nanos(500_000_001)), Some((AlertSeverity::Warning, 500)));
    assert_eq!(response_time_alert(TimeSpan::from_millis(1000)), Some((AlertSeverity::Warning, 500)));
    assert_eq!(response_time_alert(TimeSpan::from_millis(1001)), Some((AlertSeverity::Critical, 1000)));
    let all = check_performance_alerts(None, MB * 2048, TimeSpan::from_millis(700), Some(AlertSeverity::Warning));
    assert_eq!(
        all,
        vec![
            (AlertType::MemoryHigh, AlertSeverity::Critical),
            (AlertType::ResponseTimeSlow, AlertSeverity::Warning),
            (AlertType::ErrorRateHigh, AlertSeverity::Warning),
        ]
    );
}

#[test]
fn response_window_keeps_latest_hundred() {
    let mut w = ResponseTimeWindow::new();
    let mut avg = TimeSpan::from_nanos(0);
    for i in 1..=150u64 {
        let d = TimeSpan::from_millis(i);
        assert!(w.can_record(d));
        avg = w.record(d);
    }
    let kept = w.get_samples();
    assert_eq!(kept.len(), 100);
    assert_eq!(kept[0].as_nanos_u64(), 51_000_000);
    // The average of 51..=150 ms.
    assert_eq!(avg.as_nanos_u64(), 100_500_000);
    assert!(!w.can_record(TimeSpan::from_secs(u64::MAX)));
}

#[test]
fn counters_by_kind() {
    let mut c = OperationCounters::new();
    c.record_error("io");
    c.record_error("io");
    c.record_error("parse");
    c.record_operation("read");
    assert_eq!(c.error_total(), Some(3));
    assert_eq!(c.operation_total(), Some(1));
}

#[test]
fn history_summary() {
    let mut collector = MetricsCollector::new(10, TimeSpan::from_millis(10), 0);
    let empty = collector.generate_summary().unwrap();
    assert_eq!(empty.sample_count, 0);
    assert_eq!(empty.avg_memory_usage, 0);
    collector.update_memory_usage(100, 100);
    collector.record_response_time(TimeSpan::from_millis(30));
    collector.update_gc_info(4, TimeSpan::from_millis(1));
    collector.collect();
    collector.update_memory_usage(300, 300);
    collector.record_response_time(TimeSpan::from_millis(10));
    collector.update_gc_info(2, TimeSpan::from_millis(1));
    collector.collect();
    let s = collector.generate_summary().unwrap();
    assert_eq!(s.sample_count, 2);
    assert_eq!(s.avg_memory_usage, 200);
    assert_eq!(s.max_memory_usage, 300);
    assert_eq!(s.min_memory_usage, 100);
    assert_eq!(s.max_response_time.as_nanos_u64(), 30_000_000);
    assert_eq!(s.min_response_time.as_nanos_u64(), 20_000_000);
    assert_eq!(s.avg_response_time.as_nanos_u64(), 25_000_000);
    assert_eq!(s.total_gc_count, 4);
}
