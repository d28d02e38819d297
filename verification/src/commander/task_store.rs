//! The list of tasks kept in a shared JSON file.
//!
//! Reading, parsing, serialising and writing the file happen outside; this
//! module decides which tasks the file holds and what is written back.

use vstd::prelude::*;

verus! {

/// A command to run, with the id it was given.
#[derive(Debug)]
pub struct Task {
    pub id: u64,
    pub command: String,
}

impl Clone for Task {
    fn clone(&self) -> (r: Self)
        ensures
            r.id == self.id,
            r.command@ == self.command@,
    {
        Task { id: self.id, command: self.command.clone() }
    }
}

/// A task as plain values.
pub open spec fn task_view(t: Task) -> (u64, Seq<char>) {
    (t.id, t.command@)
}

pub open spec fn tasks_view(s: Seq<Task>) -> Seq<(u64, Seq<char>)> {
    s.map_values(|t: Task| task_view(t))
}

/// What was found in the task file.
#[derive(Debug)]
pub enum StoredFile {
    /// There is no file.
    Missing,
    /// The file does not hold a list of tasks.
    Unparsable,
    /// The file holds these tasks.
    Tasks(Vec<Task>),
}

/// Keeps tasks in a file.
#[derive(Debug)]
pub struct TaskStore {
    path: String,
}

impl TaskStore {
    pub closed spec fn path_view(&self) -> Seq<char> {
        self.path@
    }

    /// A store kept at `path`.
    pub fn new(path: &str) -> (s: Self)
        ensures
            s.path_view() == path@,
    {
        TaskStore { path: String::from_str(path) }
    }

    /// The file's path.
    pub fn path(&self) -> (p: &str)
        ensures
            p@ == self.path_view(),
    {
        self.path.as_str()
    }

    /// The tasks the file holds: none when it is missing or holds no list.
    pub fn read_tasks(&self, file: StoredFile) -> (r: Vec<Task>)
        ensures
            match file {
                StoredFile::Tasks(v) => r@ == v@,
                _ => r@.len() == 0,
            },
    {
        match file {
            StoredFile::Tasks(v) => v,
            _ => Vec::new(),
        }
    }

    /// What to write after adding `task`: the tasks read from the file (none
    /// when reading failed), then `task`.
    pub fn add_task(&self, existing: Option<Vec<Task>>, task: &Task) -> (r: Vec<Task>)
        ensures
            tasks_view(r@) == match existing {
                Some(v) => tasks_view(v@),
                None => Seq::empty(),
            }.push(task_view(*task)),
    {
        let mut tasks = match existing {
            Some(v) => v,
            None => Vec::new(),
        };
        let ghost before = tasks_view(tasks@);
        tasks.push(task.clone());
        assert(tasks_view(tasks@) =~= before.push(task_view(*task)));
        tasks
    }
}

} // verus!
