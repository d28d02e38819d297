use wezterm_parallel::dashboard::task_board::TaskImportance;
use wezterm_parallel::ipc::{
    handle_message, parse_error_reply, process_spawn_reply, task_priority_for,
    task_queued_reply, workspace_created_reply, Message, MessageWork,
};

fn status_of(m: Message) -> (String, String) {
    match m {
        Message::StatusUpdate { process_id, status } => (process_id, status),
        other => panic!("unexpected {:?}", other),
    }
}

#[test]
fn ping_is_answered_with_pong() {
    match handle_message(Message::Ping) {
        MessageWork::Reply(m) => assert_eq!(m, Message::Pong),
        other => panic!("unexpected {:?}", other),
    }
}

#[test]
fn unknown_messages_get_a_status_reply() {
    for m in [
        Message::Pong,
        Message::StatusUpdate { process_id: "p".to_string(), status: "s".to_string() },
    ] {
        match handle_message(m) {
            MessageWork::Reply(reply) => assert_eq!(
                status_of(reply),
                ("system".to_string(), "Unknown message type".to_string())
            ),
            other => panic!("unexpected {:?}", other),
        }
    }
}

#[test]
fn workspace_creation_is_passed_on() {
    let m = Message::WorkspaceCreate {
        name: "test-workspace".to_string(),
        template: "default".to_string(),
    };
    match handle_message(m) {
        MessageWork::CreateWorkspace { name, template } => {
            assert_eq!(name, "test-workspace");
            assert_eq!(template, "default");
        }
        other => panic!("unexpected {:?}", other),
    }
    assert_eq!(
        status_of(workspace_created_reply("w", "basic", Ok(()))).1,
        "Workspace 'w' created successfully with template 'basic'"
    );
    assert_eq!(
        status_of(workspace_created_reply("w", "basic", Err("exists".to_string()))),
        ("workspace_manager".to_string(), "Failed to create workspace 'w': exists".to_string())
    );
}

#[test]
fn process_spawn_is_passed_on() {
    let m = Message::ProcessSpawn {
        workspace: "frontend".to_string(),
        command: "assistant-cli --workspace=frontend".to_string(),
    };
    match handle_message(m) {
        MessageWork::SpawnProcess { workspace, command } => {
            assert_eq!(workspace, "frontend");
            assert_eq!(command, "assistant-cli --workspace=frontend");
        }
        other => panic!("unexpected {:?}", other),
    }
    assert_eq!(
        status_of(process_spawn_reply("frontend", "cc", true)).1,
        "Process 'cc' spawned in workspace 'frontend'"
    );
    assert_eq!(
        status_of(process_spawn_reply("frontend", "cc", false)).1,
        "Failed to spawn process: workspace 'frontend' not found"
    );
}

#[test]
fn queued_task_gets_title_and_priority() {
    let m = Message::TaskQueue {
        id: "task-001".to_string(),
        priority: 5,
        command: "build project".to_string(),
    };
    match handle_message(m) {
        MessageWork::QueueTask { title, priority, command } => {
            assert_eq!(title, "Task: build project");
            assert_eq!(priority, TaskImportance::High);
            assert_eq!(command, "build project");
        }
        other => panic!("unexpected {:?}", other),
    }
    assert_eq!(
        status_of(task_queued_reply("build", Ok("id-1".to_string()))).1,
        "Task 'build' created successfully with ID: id-1"
    );
    assert_eq!(
        status_of(task_queued_reply("build", Err("full".to_string()))).1,
        "Failed to create task 'build': full"
    );
}

#[test]
fn priority_numbers_map_to_importance() {
    assert_eq!(task_priority_for(1), TaskImportance::Low);
    assert_eq!(task_priority_for(4), TaskImportance::Medium);
    assert_eq!(task_priority_for(6), TaskImportance::High);
    assert_eq!(task_priority_for(8), TaskImportance::Critical);
    assert_eq!(task_priority_for(0), TaskImportance::Urgent);
    assert_eq!(task_priority_for(200), TaskImportance::Urgent);
}

#[test]
fn parse_errors_are_reported() {
    assert_eq!(
        status_of(parse_error_reply("expected value")),
        ("system".to_string(), "Parse error: expected value".to_string())
    );
}
