use wezterm_parallel::metrics::workspace::{
    full_update_scope, group_by_workspace, record_sample, FrameworkMetrics, ProcessSample, WorkspaceMetrics,
};
use wezterm_parallel::metrics::{ProcessStatus, SystemHealthStatus};

fn sample(id: &str, workspace: &str, status: ProcessStatus, memory: u64, activity: u64) -> ProcessSample {
    ProcessSample {
        process_id: id.to_string(),
        workspace: workspace.to_string(),
        status,
        memory_usage: memory,
        last_activity: activity,
    }
}

#[test]
fn workspace_counts_states_memory_and_activity() {
    let mut ws = WorkspaceMetrics::new("frontend".to_string(), 10);
    assert_eq!(ws.last_activity, 10);
    let samples = vec![
        sample("p1", "frontend", ProcessStatus::Running, 100, 50),
        sample("p2", "frontend", ProcessStatus::Failed, 200, 70),
        sample("p3", "frontend", ProcessStatus::Idle, 300, 60),
        sample("p4", "frontend", ProcessStatus::Starting, 400, 20),
        sample("p5", "frontend", ProcessStatus::Busy, 0, 0),
    ];
    ws.update_from_processes(&samples, 99);
    assert_eq!(ws.timestamp, 99);
    assert_eq!(ws.total_processes, 5);
    assert_eq!(ws.running_processes, 3);
    assert_eq!(ws.failed_processes, 1);
    assert_eq!(ws.total_memory_usage, 1000);
    assert_eq!(ws.last_activity, 70);
    assert_eq!(ws.processes.len(), 5);
}

#[test]
fn workspace_keeps_the_latest_sample_per_process() {
    let mut ws = WorkspaceMetrics::new("w".to_string(), 0);
    ws.update_from_processes(&vec![sample("a", "w", ProcessStatus::Running, 1, 1)], 1);
    ws.update_from_processes(
        &vec![
            sample("b", "w", ProcessStatus::Idle, 2, 2),
            sample("b", "w", ProcessStatus::Failed, 3, 3),
        ],
        2,
    );
    assert_eq!(ws.processes.len(), 2);
    let b = ws.processes.iter().find(|(k, _)| k == "b").unwrap();
    assert_eq!(b.1.memory_usage, 3);
    assert_eq!(b.1.status, ProcessStatus::Failed);
    assert!(ws.processes.iter().any(|(k, _)| k == "a"));
    assert_eq!(ws.total_processes, 2);
    assert_eq!(ws.last_activity, 3);
    ws.update_from_processes(&vec![], 3);
    assert_eq!(ws.total_processes, 0);
    assert_eq!(ws.last_activity, 0);
    assert_eq!(ws.processes.len(), 2);
}

#[test]
fn framework_sums_workspaces() {
    let mut fw = FrameworkMetrics::new(5);
    assert_eq!(fw.overall_status, SystemHealthStatus::Starting);
    fw.update_from_workspaces(vec![], 6);
    assert_eq!(fw.overall_status, SystemHealthStatus::Healthy);
    assert_eq!(fw.total_workspaces, 0);
    let mut a = WorkspaceMetrics::new("a".to_string(), 0);
    a.total_processes = 3;
    let mut b = WorkspaceMetrics::new("b".to_string(), 0);
    b.total_processes = 4;
    let mut a2 = WorkspaceMetrics::new("a".to_string(), 0);
    a2.total_processes = 1;
    fw.update_from_workspaces(vec![a, b, a2], 7);
    assert_eq!(fw.timestamp, 7);
    assert_eq!(fw.total_workspaces, 3);
    assert_eq!(fw.total_processes, 8);
    assert_eq!(fw.workspaces.len(), 2);
    let kept = fw.workspaces.iter().find(|(k, _)| k == "a").unwrap();
    assert_eq!(kept.1.total_processes, 1);
}

#[test]
fn samples_group_by_workspace_in_order() {
    let samples = vec![
        sample("p1", "x", ProcessStatus::Running, 0, 0),
        sample("p2", "y", ProcessStatus::Running, 0, 0),
        sample("p3", "x", ProcessStatus::Running, 0, 0),
    ];
    let groups = group_by_workspace(&samples);
    assert_eq!(groups.len(), 2);
    let x = groups.iter().find(|(k, _)| k == "x").unwrap();
    let ids: Vec<&str> = x.1.iter().map(|s| s.process_id.as_str()).collect();
    assert_eq!(ids, vec!["p1", "p3"]);
    let y = groups.iter().find(|(k, _)| k == "y").unwrap();
    assert_eq!(y.1.len(), 1);
    assert!(group_by_workspace(&vec![]).is_empty());
}

#[test]
fn history_keeps_the_newest_samples() {
    let mut history: Vec<(String, Vec<ProcessSample>)> = Vec::new();
    for t in 0..5 {
        record_sample(&mut history, sample("p", "w", ProcessStatus::Running, t, t), 3);
    }
    record_sample(&mut history, sample("q", "w", ProcessStatus::Idle, 9, 9), 3);
    assert_eq!(history.len(), 2);
    let p = history.iter().find(|(k, _)| k == "p").unwrap();
    let times: Vec<u64> = p.1.iter().map(|s| s.last_activity).collect();
    assert_eq!(times, vec![2, 3, 4]);
    record_sample(&mut history, sample("r", "w", ProcessStatus::Idle, 1, 1), 0);
    let r = history.iter().find(|(k, _)| k == "r").unwrap();
    assert!(r.1.is_empty());
}

#[test]
fn full_update_scope_lists_workspaces_and_processes() {
    let mut fw = FrameworkMetrics::new(0);
    let mut a = WorkspaceMetrics::new("a".to_string(), 0);
    a.update_from_processes(
        &vec![
            sample("p1", "a", ProcessStatus::Running, 0, 0),
            sample("p2", "a", ProcessStatus::Idle, 0, 0),
        ],
        1,
    );
    let b = WorkspaceMetrics::new("b".to_string(), 0);
    fw.update_from_workspaces(vec![a, b], 2);
    let scope = full_update_scope(&fw);
    assert!(scope.has_system);
    assert_eq!(scope.workspace_names, vec!["a", "b"]);
    assert_eq!(scope.process_workspaces, vec!["a", "a"]);
}
