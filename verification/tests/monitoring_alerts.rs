use wezterm_parallel::monitoring::alerts::{
    Alert, AlertManager, AlertRequest, ConsoleAlertSender, LogAlertSender, ProcessReading,
    RecoveryReadings, SystemReadings, ALERT_COOLDOWN_SECS,
};
use wezterm_parallel::monitoring::health::{Detail, DetailValue};
use wezterm_parallel::monitoring::{AlertSeverity, ProcessStatus};

fn request(id: &str) -> AlertRequest {
    AlertRequest {
        id: id.to_string(),
        severity: AlertSeverity::Warning,
        category: "Test".to_string(),
        message: "Test message".to_string(),
        component: None,
        data: Vec::new(),
    }
}

fn reading(name: &str, restarts: u32, status: ProcessStatus, cpu_high: bool) -> ProcessReading {
    ProcessReading {
        name: name.to_string(),
        pid: 42,
        restart_count: restarts,
        status,
        cpu_high,
        cpu_recovered: !cpu_high,
        cpu_text: "85.00".to_string(),
        cpu_json: "85.0".to_string(),
    }
}

#[test]
fn test_alert_manager_creation() {
    let manager = AlertManager::new(5);
    assert!(manager.get_active_alerts().is_empty());
    assert!(manager.get_alert_history(None).is_empty());
}

#[test]
fn test_console_alert_sender() {
    let sender = ConsoleAlertSender;
    let alert = Alert {
        id: "test".to_string(),
        severity: AlertSeverity::Warning,
        category: "Test".to_string(),
        message: "Test alert".to_string(),
        component: None,
        timestamp: 1234567890,
        data: Vec::new(),
        resolved: false,
        resolved_at: None,
    };

    assert_eq!(sender.alert_line(&alert), "⚠️ [ACTIVE] Test - Test alert");
    assert_eq!(sender.name(), "console");
}

#[test]
fn test_alert_spam_prevention() {
    let mut manager = AlertManager::new(5);
    let timestamp = 1234567890;

    assert!(manager.create_alert_if_needed(request("test_alert"), timestamp).is_some());
    assert!(manager
        .create_alert_if_needed(request("test_alert"), timestamp + 60)
        .is_none());

    assert_eq!(manager.get_active_alerts().len(), 1);
}

#[test]
fn resolved_alert_can_be_raised_after_cooldown() {
    let mut manager = AlertManager::new(5);
    let t = 1000;
    let raised = manager.create_alert_if_needed(request("a"), t).unwrap();
    assert_eq!(raised.timestamp, t);
    assert!(!raised.resolved);
    assert!(manager.resolve_alert("a", t + 10));
    assert!(!manager.resolve_alert("a", t + 11));
    assert!(manager.get_active_alerts().is_empty());
    assert!(manager
        .create_alert_if_needed(request("a"), t + ALERT_COOLDOWN_SECS - 1)
        .is_none());
    assert!(manager
        .create_alert_if_needed(request("a"), t + ALERT_COOLDOWN_SECS)
        .is_some());
    let history = manager.get_alert_history(None);
    assert_eq!(history.len(), 3);
    assert!(!history[0].resolved);
    assert_eq!(history[0].timestamp, t + ALERT_COOLDOWN_SECS);
    assert!(history[1].resolved);
    assert_eq!(history[1].resolved_at, Some(t + 10));
    assert!(!history[2].resolved);
    assert_eq!(manager.get_alert_history(Some(1)).len(), 1);
}

#[test]
fn system_alerts_in_order() {
    let mut manager = AlertManager::new(5);
    let readings = SystemReadings {
        cpu_high: Some(("CPU high".to_string(), Vec::new())),
        memory_high: None,
        disk_high: Some((
            "Disk high".to_string(),
            vec![Detail { key: "disk_usage".to_string(), value: DetailValue::Real("95.0".to_string()) }],
        )),
    };
    let raised = manager.check_system_alerts(readings, 50);
    assert_eq!(raised.len(), 2);
    assert_eq!(raised[0].id, "system_cpu_high");
    assert_eq!(raised[0].severity, AlertSeverity::Warning);
    assert_eq!(raised[1].id, "system_disk_high");
    assert_eq!(raised[1].severity, AlertSeverity::Critical);
    assert_eq!(raised[1].category, "System");
    assert_eq!(raised[1].component, Some("system".to_string()));

    let again = SystemReadings {
        cpu_high: Some(("CPU high".to_string(), Vec::new())),
        memory_high: None,
        disk_high: None,
    };
    assert!(manager.check_system_alerts(again, 60).is_empty());
}

#[test]
fn process_alerts_from_readings() {
    let mut manager = AlertManager::new(3);
    let processes = vec![
        reading("alpha", 4, ProcessStatus::Failed, true),
        reading("beta", 3, ProcessStatus::Running, false),
    ];
    let raised = manager.check_process_alerts(&processes, 100);
    assert_eq!(raised.len(), 3);
    assert_eq!(raised[0].id, "process_restart_alpha");
    assert_eq!(
        raised[0].message,
        "Process alpha has restarted 4 times (threshold: 3)"
    );
    assert_eq!(raised[1].id, "process_failed_alpha");
    assert_eq!(raised[1].severity, AlertSeverity::Critical);
    assert_eq!(raised[2].id, "process_cpu_high_alpha");
    assert_eq!(raised[2].message, "Process alpha high CPU usage: 85.00%");
}

#[test]
fn recovered_readings_resolve_alerts() {
    let mut manager = AlertManager::new(3);
    let processes = vec![reading("alpha", 0, ProcessStatus::Failed, true)];
    manager.check_process_alerts(&processes, 100);
    manager.check_system_alerts(
        SystemReadings {
            cpu_high: None,
            memory_high: Some(("mem".to_string(), Vec::new())),
            disk_high: None,
        },
        100,
    );
    assert_eq!(manager.get_active_alerts().len(), 3);

    let readings = RecoveryReadings {
        cpu_recovered: true,
        memory_recovered: false,
        disk_recovered: true,
        processes: vec![reading("alpha", 0, ProcessStatus::Running, false)],
    };
    let resolved = manager.check_resolved_alerts(&readings, 200);
    assert_eq!(resolved.len(), 2);
    assert!(resolved.iter().all(|a| a.resolved && a.resolved_at == Some(200)));
    let active = manager.get_active_alerts();
    assert_eq!(active.len(), 1);
    assert_eq!(active[0].id, "system_memory_high");
}

#[test]
fn severities_and_senders() {
    assert_eq!(AlertSeverity::Critical.to_string(), "CRITICAL");
    assert_eq!(AlertSeverity::Info.to_string(), "INFO");
    let sender = LogAlertSender::new("/tmp/alerts.log".to_string());
    assert_eq!(sender.name(), "log_file");
    assert_eq!(sender.log_path, "/tmp/alerts.log");
}
