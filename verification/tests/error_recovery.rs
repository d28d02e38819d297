use wezterm_parallel::error::recovery::{
    process_restart_succeeded, ErrorRecoveryManager, RecoveryPlan,
};
use wezterm_parallel::error::{ErrorHandlingConfig, UserError};

#[test]
fn test_room_error_recovery() {
    let mut manager = ErrorRecoveryManager::new();
    let error = UserError::room_not_found("test-room");
    let result = manager.attempt_recovery(&error);
    assert_eq!(result, RecoveryPlan::Finished(false));
}

#[test]
fn test_recovery_attempt_limit() {
    let mut manager = ErrorRecoveryManager::new();
    manager.set_process_manager();
    let error = UserError::claude_code_startup_failed("startup failed");

    for i in 0..5 {
        let result = manager.attempt_recovery(&error);
        if i < 3 {
            assert_eq!(result, RecoveryPlan::Pause { millis: 2000, outcome: true });
        } else {
            assert_eq!(result, RecoveryPlan::Finished(false));
        }
    }
    assert_eq!(manager.get_recovery_attempts("PROC_001:1"), 3);
    let stats = manager.get_recovery_stats();
    assert_eq!(stats.total_attempts, 3);
    assert_eq!(stats.unique_errors, 1);
    assert_eq!(stats.max_attempts_reached, 1);
}

#[test]
fn test_guidance_generation() {
    let manager = ErrorRecoveryManager::new();
    let error = UserError::room_not_found("test-room");

    let guidance = manager.generate_recovery_guidance(&error);
    assert!(guidance.contains("Room 'test-room' が見つかりません"));
    assert!(guidance.contains("ROOM_001"));
    assert!(guidance.contains("推奨アクション"));
}

#[test]
fn process_errors_need_a_process_manager() {
    let mut manager = ErrorRecoveryManager::new();
    let error = UserError::process_communication_failed("p1");
    assert_eq!(manager.attempt_recovery(&error), RecoveryPlan::Finished(false));
    manager.set_process_manager();
    assert_eq!(manager.attempt_recovery(&error), RecoveryPlan::RestartFailedProcesses);
    assert_eq!(manager.get_recovery_attempts("PROC_002:1"), 2);
    assert!(process_restart_succeeded(1));
    assert!(!process_restart_succeeded(0));
}

#[test]
fn plans_for_other_kinds() {
    let mut manager = ErrorRecoveryManager::new();
    assert_eq!(
        manager.attempt_recovery(&UserError::config_load_failed("a.yaml", "bad")),
        RecoveryPlan::Finished(true)
    );
    assert_eq!(
        manager.attempt_recovery(&UserError::system_resource_exhausted("memory")),
        RecoveryPlan::CleanupOldProcesses
    );
    assert_eq!(
        manager.attempt_recovery(&UserError::file_operation_failed("mkdir", "/x", "ディレクトリがありません")),
        RecoveryPlan::Finished(true)
    );
    assert_eq!(
        manager.attempt_recovery(&UserError::file_operation_failed("read", "/x", "gone")),
        RecoveryPlan::Finished(false)
    );
}

#[test]
fn no_attempt_when_auto_recovery_is_off() {
    let mut config = ErrorHandlingConfig::default();
    config.auto_recovery = false;
    let mut manager = ErrorRecoveryManager::with_config(config);
    manager.set_process_manager();
    let error = UserError::claude_code_startup_failed("x");
    assert_eq!(manager.attempt_recovery(&error), RecoveryPlan::Finished(false));
    assert_eq!(manager.get_recovery_attempts("PROC_001:1"), 0);
    assert_eq!(manager.get_max_recovery_attempts(), 3);
}

#[test]
fn limit_follows_configuration() {
    let mut config = ErrorHandlingConfig::default();
    config.max_recovery_attempts = 1;
    let mut manager = ErrorRecoveryManager::with_config(config);
    let error = UserError::config_load_failed("a", "b");
    assert_eq!(manager.attempt_recovery(&error), RecoveryPlan::Finished(true));
    assert_eq!(manager.attempt_recovery(&error), RecoveryPlan::Finished(false));
}
