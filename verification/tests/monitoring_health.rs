use wezterm_parallel::error::TimeSpan;
use wezterm_parallel::monitoring::health::{
    ComponentCheckResult, DetailValue, FileProbe, HealthCheckManager, HISTORY_LIMIT,
};
use wezterm_parallel::monitoring::{
    current_timestamp, health_status_to_string, worst_status, HealthCheck, HealthStatus,
};

fn create_test_health_manager() -> HealthCheckManager {
    HealthCheckManager::new(TimeSpan::from_secs(60))
}

fn has_detail(r: &ComponentCheckResult, key: &str) -> bool {
    r.details.iter().any(|d| d.key == key)
}

fn check_result(name: &str, status: HealthStatus, message: &str, rt: u64) -> ComponentCheckResult {
    ComponentCheckResult {
        component_name: name.to_string(),
        status,
        message: message.to_string(),
        response_time_ms: rt,
        details: Vec::new(),
    }
}

fn empty_check(timestamp: u64) -> HealthCheck {
    HealthCheck {
        timestamp,
        overall_status: HealthStatus::Healthy,
        components: Vec::new(),
        check_duration_ms: 10,
    }
}

fn all_results() -> Vec<ComponentCheckResult> {
    vec![
        HealthCheckManager::check_workspace_manager(Some(2), 1),
        HealthCheckManager::check_task_manager(3, 0, 1),
        HealthCheckManager::check_ipc_system(None, 1),
        HealthCheckManager::check_websocket_server(false, 1),
        HealthCheckManager::check_file_system(&FileProbe::ReadBack("health check".to_string()), 1),
        HealthCheckManager::check_persistence_layer(Some(4), "/tmp/state", 1),
    ]
}

#[test]
fn test_worst_status_comparison_all_combinations() {
    assert_eq!(
        worst_status(HealthStatus::Healthy, HealthStatus::Degraded),
        HealthStatus::Degraded
    );
    assert_eq!(
        worst_status(HealthStatus::Degraded, HealthStatus::Unhealthy),
        HealthStatus::Unhealthy
    );
    assert_eq!(
        worst_status(HealthStatus::Healthy, HealthStatus::Healthy),
        HealthStatus::Healthy
    );
    assert_eq!(
        worst_status(HealthStatus::Unknown, HealthStatus::Healthy),
        HealthStatus::Unknown
    );
    assert_eq!(
        worst_status(HealthStatus::Unhealthy, HealthStatus::Degraded),
        HealthStatus::Unhealthy
    );
    assert_eq!(
        worst_status(HealthStatus::Degraded, HealthStatus::Healthy),
        HealthStatus::Degraded
    );
    assert_eq!(
        worst_status(HealthStatus::Unknown, HealthStatus::Unhealthy),
        HealthStatus::Unknown
    );
}

#[test]
fn test_health_status_to_string_conversion() {
    assert_eq!(health_status_to_string(&HealthStatus::Healthy), "HEALTHY");
    assert_eq!(health_status_to_string(&HealthStatus::Degraded), "DEGRADED");
    assert_eq!(
        health_status_to_string(&HealthStatus::Unhealthy),
        "UNHEALTHY"
    );
    assert_eq!(health_status_to_string(&HealthStatus::Unknown), "UNKNOWN");
}

#[test]
fn test_current_timestamp_generation() {
    let timestamp1 = current_timestamp();
    let timestamp2 = current_timestamp();

    assert!(timestamp1 > 0);
    assert!(timestamp2 > 0);
    assert!(timestamp2 >= timestamp1);
}

#[test]
fn test_health_manager_new_initialization_success() {
    let health_manager = create_test_health_manager();
    assert!(health_manager.get_latest_health_check().is_none());
    assert!(health_manager.get_health_history(None).is_empty());
}

#[test]
fn test_get_latest_health_check_empty_initially() {
    let health_manager = create_test_health_manager();
    assert!(health_manager.get_latest_health_check().is_none());
}

#[test]
fn test_perform_health_check_all_components_healthy() {
    let mut health_manager = create_test_health_manager();
    let r = all_results();
    let health_check =
        health_manager.perform_health_check(&r[0], &r[1], &r[2], &r[3], &r[4], &r[5], 12);
    assert_eq!(health_check.components.len(), 6);
    for name in [
        "workspace_manager",
        "task_manager",
        "ipc_system",
        "websocket_server",
        "file_system",
        "persistence",
    ] {
        assert!(health_check.components.iter().any(|c| c.name == name));
    }
    assert_eq!(health_check.overall_status, HealthStatus::Unhealthy);
    assert_eq!(health_check.check_duration_ms, 12);
}

#[test]
fn health_check_of_healthy_components_is_healthy() {
    let mut health_manager = create_test_health_manager();
    let ok = |n: &str| check_result(n, HealthStatus::Healthy, "ok", 1);
    let c = health_manager.perform_health_check(
        &ok("a"), &ok("b"), &ok("c"), &ok("d"), &ok("e"), &ok("f"), 1,
    );
    assert_eq!(c.overall_status, HealthStatus::Healthy);
    let d = check_result("c", HealthStatus::Degraded, "slow", 1);
    let c = health_manager.perform_health_check(&ok("a"), &ok("b"), &d, &ok("d"), &ok("e"), &ok("f"), 1);
    assert_eq!(c.overall_status, HealthStatus::Degraded);
}

#[test]
fn test_check_workspace_manager_healthy() {
    let result = HealthCheckManager::check_workspace_manager(Some(3), 5);
    assert_eq!(result.component_name, "workspace_manager");
    assert!(has_detail(&result, "workspace_count"));
    assert_eq!(result.status, HealthStatus::Healthy);
    assert_eq!(result.message, "Workspace manager healthy with 3 workspaces");
}

#[test]
fn workspace_manager_thresholds() {
    let r = HealthCheckManager::check_workspace_manager(Some(101), 5);
    assert_eq!(r.status, HealthStatus::Degraded);
    assert_eq!(r.message, "High workspace count: 101");
    let r = HealthCheckManager::check_workspace_manager(Some(100), 5);
    assert_eq!(r.status, HealthStatus::Healthy);
    let r = HealthCheckManager::check_workspace_manager(None, 5);
    assert_eq!(r.status, HealthStatus::Unhealthy);
    assert!(r.details.is_empty());
}

#[test]
fn test_check_task_manager_healthy() {
    let result = HealthCheckManager::check_task_manager(4, 2, 1);
    assert_eq!(result.component_name, "task_manager");
    assert!(has_detail(&result, "task_count"));
    assert!(has_detail(&result, "queue_size"));
    assert_eq!(result.message, "Task manager healthy with 4 tasks, queue size: 2");
}

#[test]
fn test_check_task_manager_high_queue_size() {
    let result = HealthCheckManager::check_task_manager(2000, 1500, 1);
    assert_eq!(result.component_name, "task_manager");
    assert!(has_detail(&result, "task_count"));
    assert!(has_detail(&result, "queue_size"));
    assert_eq!(result.status, HealthStatus::Degraded);
    assert_eq!(HealthCheckManager::check_task_manager(0, 1000, 1).status, HealthStatus::Healthy);
}

#[test]
fn test_check_ipc_system_socket_missing() {
    let result = HealthCheckManager::check_ipc_system(None, 1);
    assert_eq!(result.component_name, "ipc_system");
    assert!(has_detail(&result, "socket_path"));
    assert!(has_detail(&result, "socket_exists"));
    assert_eq!(result.status, HealthStatus::Unhealthy);
    assert_eq!(HealthCheckManager::check_ipc_system(Some(0), 1).status, HealthStatus::Healthy);
    let odd = HealthCheckManager::check_ipc_system(Some(7), 1);
    assert_eq!(odd.status, HealthStatus::Degraded);
    assert!(has_detail(&odd, "socket_size"));
}

#[test]
fn test_check_websocket_server_not_reachable() {
    let result = HealthCheckManager::check_websocket_server(false, 1);
    assert_eq!(result.component_name, "websocket_server");
    assert!(has_detail(&result, "port"));
    assert!(has_detail(&result, "listening"));
    assert_eq!(result.status, HealthStatus::Unhealthy);
    assert_eq!(result.message, "WebSocket server is not reachable");
}

#[test]
fn test_check_file_system_read_write_success() {
    let result =
        HealthCheckManager::check_file_system(&FileProbe::ReadBack("health check".to_string()), 1);
    assert_eq!(result.component_name, "file_system");
    assert_eq!(result.status, HealthStatus::Healthy);
    assert!(has_detail(&result, "test_file"));
    assert!(has_detail(&result, "read_write_ok"));
}

#[test]
fn file_system_failures() {
    let r = HealthCheckManager::check_file_system(&FileProbe::WriteFailed, 1);
    assert_eq!(r.status, HealthStatus::Unhealthy);
    let r = HealthCheckManager::check_file_system(&FileProbe::ReadFailed, 1);
    assert_eq!(r.status, HealthStatus::Degraded);
    let r = HealthCheckManager::check_file_system(&FileProbe::ReadBack("other".to_string()), 1);
    assert_eq!(r.status, HealthStatus::Degraded);
    assert_eq!(r.message, "File system data integrity issue");
}

#[test]
fn test_check_persistence_layer_directory_access() {
    let result = HealthCheckManager::check_persistence_layer(None, "/tmp/state", 1);
    assert_eq!(result.component_name, "persistence");
    assert!(has_detail(&result, "state_dir"));
    assert_eq!(result.status, HealthStatus::Degraded);
    assert!(result.message.contains("not accessible"));
    let ok = HealthCheckManager::check_persistence_layer(Some(2), "/tmp/state", 1);
    assert_eq!(ok.message, "Persistence layer healthy with 2 workspace files");
    match &ok.details[0].value {
        DetailValue::Number(n) => assert_eq!(*n, 2),
        other => panic!("unexpected {:?}", other),
    }
}

#[test]
fn test_update_health_history_adds_entries() {
    let mut health_manager = create_test_health_manager();
    assert!(health_manager.get_latest_health_check().is_none());

    let r = all_results();
    let health_check =
        health_manager.perform_health_check(&r[0], &r[1], &r[2], &r[3], &r[4], &r[5], 3);
    health_manager.update_health_history(health_check.clone());

    let latest = health_manager.get_latest_health_check().unwrap();
    assert_eq!(latest.overall_status, health_check.overall_status);
    assert_eq!(latest.components.len(), health_check.components.len());
}

#[test]
fn test_health_history_limit_enforcement() {
    let mut health_manager = create_test_health_manager();
    for i in 0..105 {
        health_manager.update_health_history(empty_check(i));
    }

    let history = health_manager.get_health_history(None);
    assert_eq!(history.len(), 100);
    assert_eq!(history.len(), HISTORY_LIMIT);
    assert_eq!(history[0].timestamp, 104);
    assert_eq!(history[99].timestamp, 5);
}

#[test]
fn test_get_health_history_with_limit() {
    let mut health_manager = create_test_health_manager();
    for i in 0..10 {
        health_manager.update_health_history(empty_check(i));
    }

    let history = health_manager.get_health_history(Some(5));
    assert_eq!(history.len(), 5);
    assert_eq!(history[0].timestamp, 9);
    assert_eq!(history[4].timestamp, 5);
    assert_eq!(health_manager.get_health_history(Some(50)).len(), 10);
}

#[test]
fn test_create_component_health_healthy_status() {
    let mut health_manager = create_test_health_manager();
    let check = check_result("test_component", HealthStatus::Healthy, "Component is healthy", 100);
    let component_health = health_manager.create_component_health(&check);

    assert_eq!(component_health.status, HealthStatus::Healthy);
    assert_eq!(component_health.message, "Component is healthy");
    assert_eq!(component_health.response_time_ms, 100);
    assert_eq!(component_health.failure_count, 0);
    assert!(component_health.last_success.is_some());
}

#[test]
fn test_create_component_health_unhealthy_status() {
    let mut health_manager = create_test_health_manager();
    let check =
        check_result("test_component", HealthStatus::Unhealthy, "Component is unhealthy", 200);
    let component_health = health_manager.create_component_health(&check);

    assert_eq!(component_health.status, HealthStatus::Unhealthy);
    assert_eq!(component_health.message, "Component is unhealthy");
    assert_eq!(component_health.response_time_ms, 200);
    assert_eq!(component_health.failure_count, 1);
    assert!(component_health.last_success.is_none());
}

#[test]
fn test_failure_count_increment() {
    let mut health_manager = create_test_health_manager();
    let check =
        check_result("test_component", HealthStatus::Unhealthy, "Component is unhealthy", 200);
    assert_eq!(health_manager.create_component_health(&check).failure_count, 1);
    assert_eq!(health_manager.create_component_health(&check).failure_count, 2);
    assert_eq!(health_manager.failure_count("test_component"), 2);
    assert_eq!(health_manager.failure_count("other"), 0);
}

#[test]
fn test_failure_count_reset_on_recovery() {
    let mut health_manager = create_test_health_manager();
    let unhealthy =
        check_result("test_component", HealthStatus::Unhealthy, "Component is unhealthy", 200);
    let healthy = check_result("test_component", HealthStatus::Healthy, "Component is healthy", 100);

    assert_eq!(health_manager.create_component_health(&unhealthy).failure_count, 1);
    assert_eq!(health_manager.create_component_health(&healthy).failure_count, 0);
    let again = health_manager.create_component_health(&unhealthy);
    assert_eq!(again.failure_count, 1);
    assert!(again.last_success.is_some());
}

#[test]
fn health_check_tracks_failures_per_component() {
    let mut m = create_test_health_manager();
    let bad = |n: &str| check_result(n, HealthStatus::Unhealthy, "down", 7);
    let ok = |n: &str| check_result(n, HealthStatus::Healthy, "ok", 3);
    let c = m.perform_health_check(&bad("x"), &bad("x"), &ok("y"), &bad("z"), &ok("x"), &bad("x"), 1);
    let counts: Vec<u32> = c.components.iter().map(|n| n.health.failure_count).collect();
    assert_eq!(counts, vec![1, 2, 0, 1, 0, 1]);
    assert!(c.components[0].health.last_success.is_none());
    assert!(c.components[2].health.last_success.is_some());
    assert_eq!(c.components[5].health.last_success, c.components[4].health.last_success);
    assert_eq!(c.components[3].health.response_time_ms, 7);
    assert_eq!(m.failure_count("x"), 1);
    assert_eq!(m.failure_count("z"), 1);
    assert_eq!(m.failure_count("y"), 0);
}
