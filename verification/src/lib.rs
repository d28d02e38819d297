use vstd::prelude::*;

pub mod assoc;
pub mod commander;
pub mod config;
pub mod dashboard;
pub mod error;
pub mod ipc;
pub mod logging;
pub mod metrics;
pub mod monitoring;
pub mod performance;
pub mod text;
pub mod tokens;
