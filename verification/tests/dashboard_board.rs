use wezterm_parallel::dashboard::task_board::{
    column_status, column_task_ids_of, plan_move, plan_task_action, status_to_column_id,
    task_action_response, BoardOperation, BoardTask, OperationOutcome, ResponseValue,
    TaskActionRequest, TaskBoardManager, TaskImportance, TaskStatus,
};
use wezterm_parallel::dashboard::{
    BoardVisibility, ClientInfo, DashboardState, MetricSubscription, TaskBoardConfig,
    UpdateScope,
};

fn task(id: &str, status: TaskStatus, priority: TaskImportance, created_at: u64) -> BoardTask {
    BoardTask { id: id.to_string(), status, priority, created_at }
}

fn client(id: &str, subscriptions: Vec<MetricSubscription>) -> ClientInfo {
    ClientInfo {
        id: id.to_string(),
        connected_at: 1,
        client_type: "web".to_string(),
        subscriptions,
        last_activity: 1,
    }
}

#[test]
fn test_task_board_manager_creation() {
    let mut board_manager = TaskBoardManager::new();
    board_manager.initialize();

    let board = board_manager.get_board("default").unwrap();
    assert_eq!(board.id, "default");
    assert_eq!(board.columns.len(), 4);
    assert_eq!(board.columns[1].id, "in_progress");
    assert_eq!(board.columns[1].max_tasks, Some(5));
}

#[test]
fn test_board_state_with_tasks() {
    let mut board_manager = TaskBoardManager::new();
    board_manager.initialize();
    let tasks = vec![
        task("t1", TaskStatus::Todo, TaskImportance::Medium, 10),
        task("t2", TaskStatus::InProgress, TaskImportance::Medium, 11),
    ];
    let board_state = board_manager.get_board_state("default", tasks, 99).unwrap();

    assert_eq!(board_state.tasks.len(), 2);
    let todo_column = board_state.columns.iter().find(|c| c.id == "todo").unwrap();
    let in_progress_column = board_state.columns.iter().find(|c| c.id == "in_progress").unwrap();
    assert_eq!(todo_column.tasks.len(), 1);
    assert_eq!(in_progress_column.tasks.len(), 1);
    assert_eq!(board_state.last_updated, 99);
}

#[test]
fn columns_order_by_priority_then_age() {
    let tasks = vec![
        task("old-low", TaskStatus::Todo, TaskImportance::Low, 1),
        task("new-high", TaskStatus::Todo, TaskImportance::High, 9),
        task("old-high", TaskStatus::Todo, TaskImportance::High, 2),
        task("other", TaskStatus::Review, TaskImportance::Urgent, 0),
    ];
    let ids = column_task_ids_of(&"todo".to_string(), &tasks);
    assert_eq!(ids, vec!["old-high", "new-high", "old-low"]);
    assert!(column_task_ids_of(&"nowhere".to_string(), &tasks).is_empty());
}

#[test]
fn missing_board_is_an_error() {
    let board_manager = TaskBoardManager::new();
    assert_eq!(
        board_manager.get_board_state("default", Vec::new(), 0).unwrap_err(),
        "Board 'default' not found"
    );
}

#[test]
fn test_move_task_between_columns() {
    let t = task("t1", TaskStatus::Todo, TaskImportance::Medium, 1);
    let plan = plan_move(Some(&t), "t1", "in_progress").unwrap();
    assert_eq!(plan.new_status, TaskStatus::InProgress);
    assert_eq!(plan.from_column, "todo");
    assert_eq!(plan_move(None, "t9", "done").unwrap_err(), "Task 't9' not found");
    assert_eq!(plan_move(Some(&t), "t1", "archive").unwrap_err(), "Unknown column: archive");
}

#[test]
fn column_ids_round_trip() {
    for s in [
        TaskStatus::Todo,
        TaskStatus::InProgress,
        TaskStatus::Review,
        TaskStatus::Completed,
        TaskStatus::Blocked,
        TaskStatus::OnHold,
    ] {
        assert_eq!(column_status(&status_to_column_id(s)), Some(s));
    }
    assert_eq!(status_to_column_id(TaskStatus::Cancelled), "cancelled");
    assert_eq!(column_status("cancelled"), None);
}

#[test]
fn board_lifecycle() {
    let mut m = TaskBoardManager::new();
    m.initialize();
    let extra = TaskBoardConfig {
        id: "team".to_string(),
        title: "Team".to_string(),
        columns: Vec::new(),
        refresh_interval: 5000,
        real_time: false,
        visibility: BoardVisibility::Workspace("w".to_string()),
    };
    assert!(m.create_board(extra).is_ok());
    assert_eq!(m.list_boards().len(), 2);
    assert_eq!(m.get_board("team").unwrap().title, "Team");
    assert!(m.delete_board("team").is_ok());
    assert!(m.get_board("team").is_none());
}

#[test]
fn board_errors() {
    let mut m = TaskBoardManager::new();
    m.initialize();
    let again = TaskBoardManager::create_default_board_config();
    assert_eq!(
        m.create_board(again).unwrap_err(),
        "Board with ID 'default' already exists"
    );
    assert_eq!(m.delete_board("default").unwrap_err(), "Cannot delete default board");
    assert_eq!(m.delete_board("zzz").unwrap_err(), "Board with ID 'zzz' not found");
    let missing = TaskBoardConfig {
        id: "zzz".to_string(),
        title: "Z".to_string(),
        columns: Vec::new(),
        refresh_interval: 1,
        real_time: true,
        visibility: BoardVisibility::Public,
    };
    assert_eq!(m.update_board(missing).unwrap_err(), "Board with ID 'zzz' not found");
    let mut changed = TaskBoardManager::create_default_board_config();
    changed.title = "Renamed".to_string();
    assert!(m.update_board(changed).is_ok());
    assert_eq!(m.get_board("default").unwrap().title, "Renamed");
}

#[test]
fn test_update_task_progress() {
    match plan_task_action(TaskActionRequest::UpdateTaskProgress {
        task_id: "t1".to_string(),
        progress: 75,
    }) {
        BoardOperation::Progress { task_id, progress } => {
            assert_eq!(task_id, "t1");
            assert_eq!(progress, 75);
        }
        other => panic!("unexpected {:?}", other),
    }
    match plan_task_action(TaskActionRequest::MoveTask {
        task_id: "t1".to_string(),
        to_column: "done".to_string(),
        position: None,
    }) {
        BoardOperation::Move { board_id, .. } => assert_eq!(board_id, "default"),
        other => panic!("unexpected {:?}", other),
    }
    assert!(matches!(plan_task_action(TaskActionRequest::Other), BoardOperation::Nothing));
}

#[test]
fn responses_to_task_actions() {
    let r = task_action_response(Some("r1".to_string()), OperationOutcome::Created("t7".to_string()));
    assert!(r.success);
    assert!(matches!(r.data, Some(ResponseValue::Text(ref t)) if t == "t7"));
    let r = task_action_response(None, OperationOutcome::Failed("boom".to_string()));
    assert!(!r.success);
    assert_eq!(r.error, Some("boom".to_string()));
    let r = task_action_response(None, OperationOutcome::Done);
    assert!(matches!(r.data, Some(ResponseValue::Flag(true))));
    let r = task_action_response(None, OperationOutcome::Ignored);
    assert!(matches!(r.data, Some(ResponseValue::Null)));
}

#[test]
fn clients_and_subscriptions() {
    let mut state = DashboardState::new();
    state.register_client(client("a", vec![MetricSubscription::System]));
    state.register_client(client("b", vec![MetricSubscription::Workspace("w1".to_string())]));
    assert_eq!(state.client_count(), 2);

    let update = UpdateScope {
        has_system: false,
        process_workspaces: Vec::new(),
        workspace_names: vec!["w1".to_string()],
    };
    assert!(!state.should_send_update("a", &update));
    assert!(state.should_send_update("b", &update));
    assert!(!state.should_send_update("zzz", &update));

    state.register_client(client("a", vec![MetricSubscription::All]));
    assert_eq!(state.client_count(), 2);
    assert!(state.should_send_update("a", &update));
    assert_eq!(state.get_client_subscriptions("a"), vec![MetricSubscription::All]);

    state.unregister_client("a");
    assert_eq!(state.client_count(), 1);
    assert!(state.get_client_subscriptions("a").is_empty());
    let stats = state.get_stats(3, 4, 5, 6);
    assert_eq!(stats.connected_clients, 1);
    assert_eq!(stats.total_processes, 4);
}

#[test]
fn subscription_and_activity_updates() {
    let mut state = DashboardState::new();
    state.register_client(client("a", vec![MetricSubscription::System]));
    state.update_client_subscriptions("a", vec![MetricSubscription::Alerts], 50);
    assert_eq!(state.get_client_subscriptions("a"), vec![MetricSubscription::Alerts]);
    state.update_client_subscriptions("ghost", vec![MetricSubscription::All], 60);
    assert_eq!(state.client_count(), 1);
    assert!(state.get_client_subscriptions("ghost").is_empty());
    state.record_client_activity("a", 70);
    state.record_client_activity("ghost", 80);
    assert_eq!(state.client_count(), 1);
}
