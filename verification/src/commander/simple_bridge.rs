//! Sending and receiving tasks through the task file.

use super::task_store::{StoredFile, Task, TaskStore, task_view, tasks_view};
use vstd::prelude::*;

verus! {

/// Milliseconds since the Unix epoch, from the system clock; zero when the
/// clock is before the epoch. Nothing is claimed of the value, which depends
/// on the time.
#[verifier::external_body]
fn current_millis() -> (t: u64) {
    std::time::SystemTime::now().duration_since(std::time::UNIX_EPOCH).map(|d| d.as_millis() as u64).unwrap_or(
        0,
    )
}

/// Sends and receives tasks through a task file.
#[derive(Debug)]
pub struct SimpleBridge {
    store: TaskStore,
}

impl SimpleBridge {
    pub closed spec fn path_view(&self) -> Seq<char> {
        self.store.path_view()
    }

    /// A bridge over the task file at `path`.
    pub fn new(path: &str) -> (b: Self)
        ensures
            b.path_view() == path@,
    {
        SimpleBridge { store: TaskStore::new(path) }
    }

    /// The file's path.
    pub fn path(&self) -> (p: &str)
        ensures
            p@ == self.path_view(),
    {
        self.store.path()
    }

    /// What to write to send `command` now: the task's id is the current time
    /// in milliseconds since the epoch, given the tasks read from the file
    /// (`None` when reading failed).
    pub fn send_task(&self, existing: Option<Vec<Task>>, command: String) -> (r: Vec<Task>)
        ensures
            r@.len() > 0,
            tasks_view(r@).drop_last() == match existing {
                Some(v) => tasks_view(v@),
                None => Seq::empty(),
            },
            r@.last().command@ == command@,
    {
        let now = current_millis();
        let ghost c = command@;
        let r = self.send_task_at(existing, now, command);
        assert(tasks_view(r@).last() == (r@.last().id, r@.last().command@));
        r
    }

    /// What to write to send `command` at `now_millis` (milliseconds since
    /// the epoch, which become the task's id), given the tasks read from the
    /// file (`None` when reading failed).
    pub fn send_task_at(&self, existing: Option<Vec<Task>>, now_millis: u64, command: String) -> (r: Vec<Task>)
        ensures
            tasks_view(r@) == match existing {
                Some(v) => tasks_view(v@),
                None => Seq::empty(),
            }.push((now_millis, command@)),
    {
        let task = Task { id: now_millis, command };
        self.store.add_task(existing, &task)
    }

    /// The pending tasks, given what was found in the file.
    pub fn fetch_tasks(&self, file: StoredFile) -> (r: Vec<Task>)
        ensures
            match file {
                StoredFile::Tasks(v) => r@ == v@,
                _ => r@.len() == 0,
            },
    {
        self.store.read_tasks(file)
    }
}

} // verus!
