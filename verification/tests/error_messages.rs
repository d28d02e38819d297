use wezterm_parallel::error::{
    safe_file_operation, safe_lock_operation, safe_process_operation, DebugConfig,
    ErrorHandlingConfig, ErrorSeverity, ErrorType, LogLevel, TimeSpan, UserError,
};

#[test]
fn test_room_not_found_error() {
    let error = UserError::room_not_found("test-room");
    assert_eq!(error.error_code, "ROOM_001");
    assert!(error.message_jp.contains("test-room"));
    assert!(!error.recovery_actions.is_empty());
}

#[test]
fn test_claude_code_startup_error() {
    let error = UserError::claude_code_startup_failed("バイナリが見つかりません");
    assert_eq!(error.error_code, "PROC_001");
    assert_eq!(error.severity() as u8, ErrorSeverity::High as u8);
}

#[test]
fn test_auto_recovery_detection() {
    let error = UserError::process_communication_failed("test-process");
    assert!(error.execute_auto_recovery());
}

#[test]
fn test_debug_info_generation() {
    let error = UserError::room_not_found("test-room");
    let debug_config = DebugConfig {
        enabled: true,
        verbose_errors: true,
        stack_traces: false,
        performance_metrics: true,
        memory_tracking: true,
    };

    let debug_message = error.with_debug_info(&debug_config);
    assert!(debug_message.contains("ROOM_001"));
    assert!(debug_message.contains("test-room"));
    assert!(debug_message.contains("英語メッセージ"));
    assert!(debug_message.contains("エラータイプ"));
}

#[test]
fn test_performance_info() {
    let error = UserError::room_not_found("test");
    let duration = TimeSpan::from_millis(100);
    let memory_usage = 1024 * 1024 * 50;

    let perf_message = error.with_performance_info(duration, memory_usage);
    assert!(perf_message.contains("処理時間"));
    assert!(perf_message.contains("50MB"));
}

#[test]
fn test_error_handling_config_default() {
    let config = ErrorHandlingConfig::default();
    assert!(config.auto_recovery);
    assert_eq!(config.max_recovery_attempts, 3);
    assert!(config.error_reporting);
}

#[test]
fn test_log_level_config() {
    let log_level = LogLevel::default();
    assert_eq!(log_level.default, "warn");
    assert!(log_level.contains_module("wezterm_parallel"));
}

#[test]
fn room_not_found_has_exact_messages() {
    let error = UserError::room_not_found("alpha");
    assert_eq!(error.message_jp, "Room 'alpha' が見つかりません");
    assert_eq!(error.message_en, "Room 'alpha' not found");
    assert_eq!(error.error_type, ErrorType::RoomError);
    assert_eq!(error.recovery_actions.len(), 2);
    assert!(!error.execute_auto_recovery());
    assert_eq!(error.to_string(), "[ROOM_001] Room 'alpha' が見つかりません");
}

#[test]
fn severities_follow_error_types() {
    assert_eq!(UserError::system_resource_exhausted("memory").severity(), ErrorSeverity::Critical);
    assert_eq!(UserError::config_load_failed("a.yaml", "bad").severity(), ErrorSeverity::Medium);
    assert_eq!(UserError::file_operation_failed("read", "a", "gone").severity(), ErrorSeverity::Low);
    assert_eq!(UserError::task_not_found("t1").severity(), ErrorSeverity::High);
}

#[test]
fn error_codes_of_each_constructor() {
    assert_eq!(UserError::room_creation_failed("r", "x").error_code, "ROOM_002");
    assert_eq!(UserError::process_communication_failed("p").error_code, "PROC_002");
    assert_eq!(UserError::config_load_failed("f", "r").error_code, "CONF_001");
    assert_eq!(UserError::file_operation_failed("o", "f", "r").error_code, "FILE_001");
    assert_eq!(UserError::system_resource_exhausted("m").error_code, "SYS_001");
    assert_eq!(UserError::task_not_found("t").error_code, "TASK_001");
    assert_eq!(UserError::task_queue_full().error_code, "TASK_002");
    assert_eq!(
        UserError::task_timeout("t", TimeSpan::from_secs(5)).error_code,
        "TASK_003"
    );
    assert_eq!(UserError::task_dependency_failed("t", "d").error_code, "TASK_004");
}

#[test]
fn debug_info_without_verbose_is_short() {
    let error = UserError::task_queue_full();
    let config = DebugConfig {
        enabled: false,
        verbose_errors: false,
        stack_traces: true,
        performance_metrics: false,
        memory_tracking: false,
    };
    let text = error.with_debug_info(&config);
    assert!(text.starts_with("[TASK_002] "));
    assert!(!text.contains("英語メッセージ"));
    assert!(text.contains("\nガイダンス: "));
    assert!(text.contains("\n  1. "));
    assert!(!text.contains("スタックトレース"));
    assert!(DebugConfig::default().verbose_errors);
}

#[test]
fn debug_info_lists_actions_with_numbers() {
    let error = UserError::room_not_found("r");
    let config = DebugConfig::for_build(true);
    let text = error.with_debug_info(&config);
    assert!(text.contains("\nスタックトレース: (実装中)"));
    assert!(text.contains("\n  1. 利用可能なRoom一覧を表示 (Ctrl+Shift+W) (自動: false)"));
    assert!(text.contains("\n  2. 新しいRoomを作成 (Ctrl+Shift+N) (自動: false)"));
    assert!(text.contains("\n重要度: Medium"));
}

#[test]
fn performance_info_formats_duration_like_std() {
    let error = UserError::room_not_found("test");
    let text = error.with_performance_info(TimeSpan::from_millis(1500), 3 * 1024 * 1024 + 5);
    assert_eq!(
        text,
        format!(
            "Room 'test' が見つかりません\n[パフォーマンス] 処理時間: {:?}, メモリ使用量: 3MB",
            std::time::Duration::from_millis(1500)
        )
    );
    assert_eq!(TimeSpan::from_millis(1500).debug_text(), "1.5s");
}

#[test]
fn safe_operations_map_failures() {
    let ok: Result<u32, UserError> = safe_file_operation("read", "/x", || Ok(7));
    assert_eq!(ok.unwrap(), 7);

    let err = safe_file_operation::<_, u32>("read", "/x", || {
        Err(std::io::Error::new(std::io::ErrorKind::NotFound, "missing"))
    })
    .unwrap_err();
    assert_eq!(err.error_code, "FILE_001");
    assert!(err.message_jp.contains("missing"));

    let err = safe_process_operation::<_, u32, ()>("proc-1", || Err(())).unwrap_err();
    assert_eq!(err.error_code, "PROC_002");
    assert!(err.message_jp.contains("proc-1"));

    let err = safe_lock_operation::<(), _, u32>("queue", || Err(())).unwrap_err();
    assert_eq!(err.error_code, "SYS_001");
    assert!(err.message_jp.contains("Lock contention: queue"));
}
