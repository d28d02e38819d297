use super::{Config, ConfigView, LoggingConfig, ProcessConfig, ServerConfig, UiConfig, WorkspaceConfig};
use crate::text::eq_str;
use vstd::prelude::*;

verus! {

/// The log levels that a configuration may name.
pub open spec fn is_valid_level(level: Seq<char>) -> bool {
    level == "error"@ || level == "warn"@ || level == "info"@ || level == "debug"@ || level
        == "trace"@
}

/// The first problem of the server section, if any.
pub open spec fn server_problem(socket_path: Seq<char>, max_connections: usize) -> Option<Seq<char>> {
    if socket_path.len() == 0 {
        Some("Socket path cannot be empty"@)
    } else if max_connections == 0 {
        Some("Maximum connections cannot be 0"@)
    } else {
        None
    }
}

/// The first problem of the workspace section, if any.
pub open spec fn workspace_problem(max_workspaces: usize, default_template: Seq<char>) -> Option<
    Seq<char>,
> {
    if max_workspaces == 0 {
        Some("Maximum workspaces cannot be 0"@)
    } else if default_template.len() == 0 {
        Some("Default template cannot be empty"@)
    } else {
        None
    }
}

/// The problem of the process section, if any.
pub open spec fn process_problem(max_processes_per_workspace: usize) -> Option<Seq<char>> {
    if max_processes_per_workspace == 0 {
        Some("Maximum processes per workspace cannot be 0"@)
    } else {
        None
    }
}

/// The problem of the logging section, if any.
pub open spec fn logging_problem(level: Seq<char>) -> Option<Seq<char>> {
    if is_valid_level(level) {
        None
    } else {
        Some("Invalid log level: "@ + level)
    }
}

/// The first problem of a whole configuration, sections taken in the order
/// server, workspace, process, UI, logging.
pub open spec fn config_problem(c: ConfigView) -> Option<Seq<char>> {
    if server_problem(c.socket_path, c.max_connections) is Some {
        server_problem(c.socket_path, c.max_connections)
    } else if workspace_problem(c.max_workspaces, c.default_template) is Some {
        workspace_problem(c.max_workspaces, c.default_template)
    } else if process_problem(c.max_processes_per_workspace) is Some {
        process_problem(c.max_processes_per_workspace)
    } else {
        logging_problem(c.level)
    }
}

/// Whether a result reports exactly the given problem.
pub open spec fn reports(r: Result<(), String>, problem: Option<Seq<char>>) -> bool {
    match r {
        Ok(()) => problem is None,
        Err(m) => problem == Some(m@),
    }
}

/// Checks a configuration before it is used.
pub struct ConfigValidator;

impl ConfigValidator {
    /// Checks every section and reports the first problem found.
    pub fn validate(config: &Config) -> (r: Result<(), String>)
        ensures
            reports(r, config_problem(config@)),
    {
        Self::validate_server_config(&config.server)?;
        Self::validate_workspace_config(&config.workspace)?;
        Self::validate_process_config(&config.process)?;
        Self::validate_ui_config(&config.ui)?;
        Self::validate_logging_config(&config.logging)?;
        Ok(())
    }

    pub fn validate_server_config(config: &ServerConfig) -> (r: Result<(), String>)
        ensures
            reports(r, server_problem(config.socket_path@, config.max_connections)),
    {
        if config.socket_path.as_str().is_empty() {
            return Err(String::from_str("Socket path cannot be empty"));
        }
        if config.max_connections == 0 {
            return Err(String::from_str("Maximum connections cannot be 0"));
        }
        Ok(())
    }

    pub fn validate_workspace_config(config: &WorkspaceConfig) -> (r: Result<(), String>)
        ensures
            reports(r, workspace_problem(config.max_workspaces, config.default_template@)),
    {
        if config.max_workspaces == 0 {
            return Err(String::from_str("Maximum workspaces cannot be 0"));
        }
        if config.default_template.as_str().is_empty() {
            return Err(String::from_str("Default template cannot be empty"));
        }
        Ok(())
    }

    pub fn validate_process_config(config: &ProcessConfig) -> (r: Result<(), String>)
        ensures
            reports(r, process_problem(config.max_processes_per_workspace)),
    {
        if config.max_processes_per_workspace == 0 {
            return Err(String::from_str("Maximum processes per workspace cannot be 0"));
        }
        Ok(())
    }

    /// The UI section accepts every value.
    pub fn validate_ui_config(_config: &UiConfig) -> (r: Result<(), String>)
        ensures
            r is Ok,
    {
        Ok(())
    }

    /// Accepts exactly the five lowercase level names.
    pub fn validate_logging_config(config: &LoggingConfig) -> (r: Result<(), String>)
        ensures
            reports(r, logging_problem(config.level@)),
    {
        let level = &config.level;
        if eq_str(level, "error") || eq_str(level, "warn") || eq_str(level, "info") || eq_str(
            level,
            "debug",
        ) || eq_str(level, "trace") {
            Ok(())
        } else {
            let mut m = String::from_str("Invalid log level: ");
            m.append(level.as_str());
            Err(m)
        }
    }
}

/// The default configuration passes validation.
pub proof fn default_config_is_valid()
    ensures
        config_problem(crate::config::default_config_view()) is None,
{
    reveal_strlit("/tmp/wezterm-parallel.sock");
    reveal_strlit("basic");
}

} // verus!
