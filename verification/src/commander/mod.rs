//! Handing tasks from the commander pane to other panes through a shared file.

pub mod simple_bridge;
pub mod task_store;

pub use simple_bridge::SimpleBridge;
pub use task_store::{StoredFile, Task, TaskStore};
