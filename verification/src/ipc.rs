//! Messages exchanged over the framework's socket, and the answers to them.
//!
//! Reading and writing the socket, and the work that a request asks of the
//! workspace and task managers, happen outside; this module decides what work
//! a message asks for and how each outcome is answered.

use crate::dashboard::task_board::TaskImportance;
use crate::text::{decimal};
use vstd::prelude::*;

verus! {

/// A message over the socket.
#[derive(Debug, PartialEq, Eq)]
pub enum Message {
    WorkspaceCreate { name: String, template: String },
    ProcessSpawn { workspace: String, command: String },
    StatusUpdate { process_id: String, status: String },
    TaskQueue { id: String, priority: u8, command: String },
    Ping,
    Pong,
}

/// The work a message asks for.
#[derive(Debug)]
pub enum MessageWork {
    /// Nothing to do: answer with this message.
    Reply(Message),
    /// Create a workspace from a template, then answer with `workspace_created_reply`.
    CreateWorkspace { name: String, template: String },
    /// Check that the workspace exists, then answer with `process_spawn_reply`.
    SpawnProcess { workspace: String, command: String },
    /// Create a task with this title and priority (in the active workspace, if
    /// any), then answer with `task_queued_reply`.
    QueueTask { title: String, priority: TaskImportance, command: String },
}

/// The priority of a queued task, from the message's priority number.
pub open spec fn priority_for(p: u8) -> TaskImportance {
    if p == 1 || p == 2 {
        TaskImportance::Low
    } else if p == 3 || p == 4 {
        TaskImportance::Medium
    } else if p == 5 || p == 6 {
        TaskImportance::High
    } else if p == 7 || p == 8 {
        TaskImportance::Critical
    } else {
        TaskImportance::Urgent
    }
}

/// A task's priority number picks its importance in pairs: 1 and 2 are low,
/// 3 and 4 medium, 5 and 6 high, 7 and 8 critical, each pair one step above
/// the one before; any other number is urgent.
pub proof fn priority_numbers_in_pairs(p: u8)
    ensures
        1 <= p <= 8 ==> crate::dashboard::task_board::importance_rank(priority_for(p)) == (p - 1) / 2
            && priority_for(p) != TaskImportance::Urgent,
        (p == 0 || p > 8) ==> priority_for(p) == TaskImportance::Urgent,
        p == 1 || p == 2 ==> priority_for(p) == TaskImportance::Low,
        p == 3 || p == 4 ==> priority_for(p) == TaskImportance::Medium,
        p == 5 || p == 6 ==> priority_for(p) == TaskImportance::High,
        p == 7 || p == 8 ==> priority_for(p) == TaskImportance::Critical,
{
}

/// The priority of a queued task, from the message's priority number.
pub fn task_priority_for(priority: u8) -> (p: TaskImportance)
    ensures
        p == priority_for(priority),
{
    match priority {
        1 | 2 => TaskImportance::Low,
        3 | 4 => TaskImportance::Medium,
        5 | 6 => TaskImportance::High,
        7 | 8 => TaskImportance::Critical,
        _ => TaskImportance::Urgent,
    }
}

/// A status update from `process_id`.
fn status(process_id: &str, text: String) -> (m: Message)
    ensures
        m matches Message::StatusUpdate { process_id: p, status: s } && p@ == process_id@ && s@ == text@,
{
    Message::StatusUpdate { process_id: String::from_str(process_id), status: text }
}

/// The work a message asks for: a ping is answered with a pong, workspace
/// creation, process spawning and task queueing need the managers, and any
/// other message is answered as unknown.
pub fn handle_message(message: Message) -> (w: MessageWork)
    ensures
        match message {
            Message::Ping => w matches MessageWork::Reply(Message::Pong),
            Message::WorkspaceCreate { name, template } => w matches MessageWork::CreateWorkspace { name: n, template: t } && n == name && t == template,
            Message::ProcessSpawn { workspace, command } => w matches MessageWork::SpawnProcess { workspace: ws, command: c } && ws == workspace && c == command,
            Message::TaskQueue { id, priority, command } => w matches MessageWork::QueueTask { title: t, priority: p, command: c }
                && t@ == "Task: "@ + command@ && p == priority_for(priority) && c == command,
            _ => w matches MessageWork::Reply(Message::StatusUpdate { process_id: p, status: s })
                && p@ == "system"@ && s@ == "Unknown message type"@,
        },
{
    match message {
        Message::Ping => MessageWork::Reply(Message::Pong),
        Message::WorkspaceCreate { name, template } => MessageWork::CreateWorkspace { name, template },
        Message::ProcessSpawn { workspace, command } => MessageWork::SpawnProcess { workspace, command },
        Message::TaskQueue { id, priority, command } => {
            let mut title = String::from_str("Task: ");
            title.append(command.as_str());
            MessageWork::QueueTask { title, priority: task_priority_for(priority), command }
        },
        _ => MessageWork::Reply(status("system", String::from_str("Unknown message type"))),
    }
}

/// The answer to a workspace creation: success, or the error's text.
pub fn workspace_created_reply(name: &str, template: &str, result: Result<(), String>) -> (m: Message)
    ensures
        m matches Message::StatusUpdate { process_id: p, status: s } && p@ == "workspace_manager"@ && s@ == match result {
            Ok(()) => "Workspace '"@ + name@ + "' created successfully with template '"@ + template@ + "'"@,
            Err(e) => "Failed to create workspace '"@ + name@ + "': "@ + e@,
        },
{
    let text = match result {
        Ok(()) => {
            let mut s = String::from_str("Workspace '");
            s.append(name);
            s.append("' created successfully with template '");
            s.append(template);
            s.append("'");
            s
        },
        Err(e) => {
            let mut s = String::from_str("Failed to create workspace '");
            s.append(name);
            s.append("': ");
            s.append(e.as_str());
            s
        },
    };
    status("workspace_manager", text)
}

/// The answer to a process spawn, given whether the workspace exists.
pub fn process_spawn_reply(workspace: &str, command: &str, workspace_exists: bool) -> (m: Message)
    ensures
        m matches Message::StatusUpdate { process_id: p, status: s } && p@ == "process_manager"@ && s@ == if workspace_exists {
            "Process '"@ + command@ + "' spawned in workspace '"@ + workspace@ + "'"@
        } else {
            "Failed to spawn process: workspace '"@ + workspace@ + "' not found"@
        },
{
    let text = if workspace_exists {
        let mut s = String::from_str("Process '");
        s.append(command);
        s.append("' spawned in workspace '");
        s.append(workspace);
        s.append("'");
        s
    } else {
        let mut s = String::from_str("Failed to spawn process: workspace '");
        s.append(workspace);
        s.append("' not found");
        s
    };
    status("process_manager", text)
}

/// The answer to a queued task: its new id, or the error's text.
pub fn task_queued_reply(command: &str, result: Result<String, String>) -> (m: Message)
    ensures
        m matches Message::StatusUpdate { process_id: p, status: s } && p@ == "task_manager"@ && s@ == match result {
            Ok(id) => "Task '"@ + command@ + "' created successfully with ID: "@ + id@,
            Err(e) => "Failed to create task '"@ + command@ + "': "@ + e@,
        },
{
    let text = match result {
        Ok(id) => {
            let mut s = String::from_str("Task '");
            s.append(command);
            s.append("' created successfully with ID: ");
            s.append(id.as_str());
            s
        },
        Err(e) => {
            let mut s = String::from_str("Failed to create task '");
            s.append(command);
            s.append("': ");
            s.append(e.as_str());
            s
        },
    };
    status("task_manager", text)
}

/// The answer to bytes that are not a message.
pub fn parse_error_reply(error: &str) -> (m: Message)
    ensures
        m matches Message::StatusUpdate { process_id: p, status: s } && p@ == "system"@ && s@ == "Parse error: "@ + error@,
{
    let mut s = String::from_str("Parse error: ");
    s.append(error);
    status("system", s)
}

} // verus!
