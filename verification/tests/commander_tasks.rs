use wezterm_parallel::commander::{SimpleBridge, StoredFile, Task, TaskStore};

fn task(id: u64, command: &str) -> Task {
    Task { id, command: command.to_string() }
}

#[test]
fn store_reads_only_task_lists() {
    let store = TaskStore::new("/tmp/tasks.json");
    assert_eq!(store.path(), "/tmp/tasks.json");
    assert!(store.read_tasks(StoredFile::Missing).is_empty());
    assert!(store.read_tasks(StoredFile::Unparsable).is_empty());
    let read = store.read_tasks(StoredFile::Tasks(vec![task(1, "ls")]));
    assert_eq!(read.len(), 1);
    assert_eq!(read[0].command, "ls");
}

#[test]
fn adding_a_task_appends_it() {
    let store = TaskStore::new("/tmp/tasks.json");
    let written = store.add_task(Some(vec![task(1, "ls")]), &task(2, "pwd"));
    assert_eq!(written.len(), 2);
    assert_eq!(written[1].id, 2);
    assert_eq!(written[1].command, "pwd");
    let fresh = store.add_task(None, &task(3, "make"));
    assert_eq!(fresh.len(), 1);
    assert_eq!(fresh[0].id, 3);
}

#[test]
fn bridge_sends_and_fetches() {
    let bridge = SimpleBridge::new("/tmp/bridge.json");
    assert_eq!(bridge.path(), "/tmp/bridge.json");
    let written = bridge.send_task_at(Some(vec![task(5, "a")]), 1700000000123, "cargo test".to_string());
    assert_eq!(written.len(), 2);
    assert_eq!(written[1].id, 1700000000123);
    assert_eq!(written[1].command, "cargo test");
    let fetched = bridge.fetch_tasks(StoredFile::Tasks(written));
    assert_eq!(fetched.len(), 2);
    assert!(bridge.fetch_tasks(StoredFile::Unparsable).is_empty());
}

#[test]
fn sending_now_uses_the_clock_for_the_id() {
    let bridge = SimpleBridge::new("/tmp/bridge.json");
    let before = std::time::SystemTime::now()
        .duration_since(std::time::UNIX_EPOCH)
        .unwrap()
        .as_millis() as u64;
    let written = bridge.send_task(None, "ls".to_string());
    assert_eq!(written.len(), 1);
    assert_eq!(written[0].command, "ls");
    assert!(written[0].id >= before);
}
