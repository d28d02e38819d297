//! Configuration of the framework: the sections of the configuration file,
//! their defaults, their validation and the overrides applied on loading.

pub mod hot_reload;
pub mod loader;
pub mod validator;

use std::collections::HashMap;
use vstd::prelude::*;

verus! {

/// Server section.
#[derive(Debug, Clone)]
pub struct ServerConfig {
    /// Unix socket path
    pub socket_path: String,
    /// Maximum number of concurrent connections
    pub max_connections: usize,
    /// Connection timeout in seconds
    pub connection_timeout: u64,
    /// Whether metrics are collected
    pub enable_metrics: bool,
    /// Health check interval in seconds
    pub health_check_interval: u64,
}

/// Workspace section.
#[derive(Debug, Clone)]
pub struct WorkspaceConfig {
    /// Maximum number of workspaces
    pub max_workspaces: usize,
    /// Default workspace template
    pub default_template: String,
    /// Where workspace state is kept
    pub state_path: String,
    /// Auto-save interval in seconds
    pub auto_save_interval: u64,
    /// Directory of workspace templates
    pub templates_dir: String,
}

/// Process section.
#[derive(Debug, Clone)]
pub struct ProcessConfig {
    /// Maximum processes per workspace
    pub max_processes_per_workspace: usize,
    /// Process startup timeout in seconds
    pub startup_timeout: u64,
    /// Process health check interval in seconds
    pub health_check_interval: u64,
    /// Whether a failed process is restarted
    pub auto_restart: bool,
    /// Maximum restart attempts
    pub max_restart_attempts: u32,
    /// Environment variables given to processes
    pub environment: HashMap<String, String>,
    /// Working directory template
    pub working_dir_template: String,
}

/// Dashboard part of the UI section.
#[derive(Debug, Clone)]
pub struct DashboardConfig {
    /// Update interval, in milliseconds
    pub update_interval_ms: u64,
    /// Dashboard width as a percentage of the window
    pub width_percentage: u8,
    /// Dashboard position (left, right, top, bottom)
    pub position: String,
    /// Whether updates are pushed as they happen
    pub real_time_updates: bool,
    /// Maximum log entries to display
    pub max_log_entries: usize,
}

/// Colours of the UI.
#[derive(Debug, Clone)]
pub struct ThemeConfig {
    pub background: String,
    pub foreground: String,
    pub border: String,
    pub header: String,
    pub success: String,
    pub warning: String,
    pub error: String,
    pub info: String,
}

/// Key bindings of the UI.
#[derive(Debug, Clone)]
pub struct KeybindingConfig {
    pub leader_key: String,
    pub workspace_prefix: String,
    pub process_prefix: String,
    pub pane_prefix: String,
    pub dashboard_prefix: String,
}

/// UI section.
#[derive(Debug, Clone)]
pub struct UiConfig {
    pub dashboard: DashboardConfig,
    pub theme: ThemeConfig,
    pub keybindings: KeybindingConfig,
}

/// Logging section.
#[derive(Debug, Clone)]
pub struct LoggingConfig {
    /// Log level (error, warn, info, debug, trace)
    pub level: String,
    /// Log file path
    pub file_path: Option<String>,
    /// Whether logs go to the console
    pub console: bool,
    /// Maximum log file size in MB
    pub max_file_size: u64,
    /// Number of log files kept
    pub max_files: u32,
    /// Log format (json, plain)
    pub format: String,
}

/// The whole configuration.
#[derive(Debug, Clone)]
pub struct Config {
    pub server: ServerConfig,
    pub workspace: WorkspaceConfig,
    pub process: ProcessConfig,
    pub ui: UiConfig,
    pub logging: LoggingConfig,
}

/// The values that the validation and the overrides read and write, as plain values.
pub struct ConfigView {
    pub socket_path: Seq<char>,
    pub max_connections: usize,
    pub connection_timeout: u64,
    pub enable_metrics: bool,
    pub server_health_check_interval: u64,
    pub max_workspaces: usize,
    pub default_template: Seq<char>,
    pub state_path: Seq<char>,
    pub auto_save_interval: u64,
    pub templates_dir: Seq<char>,
    pub max_processes_per_workspace: usize,
    pub startup_timeout: u64,
    pub process_health_check_interval: u64,
    pub auto_restart: bool,
    pub max_restart_attempts: u32,
    pub working_dir_template: Seq<char>,
    pub update_interval_ms: u64,
    pub width_percentage: u8,
    pub position: Seq<char>,
    pub real_time_updates: bool,
    pub max_log_entries: usize,
    pub level: Seq<char>,
    pub file_path: Option<Seq<char>>,
    pub console: bool,
    pub max_file_size: u64,
    pub max_files: u32,
    pub format: Seq<char>,
}

pub open spec fn opt_text(o: Option<String>) -> Option<Seq<char>> {
    match o {
        Some(s) => Some(s@),
        None => None,
    }
}

impl View for Config {
    type V = ConfigView;

    open spec fn view(&self) -> ConfigView {
        ConfigView {
            socket_path: self.server.socket_path@,
            max_connections: self.server.max_connections,
            connection_timeout: self.server.connection_timeout,
            enable_metrics: self.server.enable_metrics,
            server_health_check_interval: self.server.health_check_interval,
            max_workspaces: self.workspace.max_workspaces,
            default_template: self.workspace.default_template@,
            state_path: self.workspace.state_path@,
            auto_save_interval: self.workspace.auto_save_interval,
            templates_dir: self.workspace.templates_dir@,
            max_processes_per_workspace: self.process.max_processes_per_workspace,
            startup_timeout: self.process.startup_timeout,
            process_health_check_interval: self.process.health_check_interval,
            auto_restart: self.process.auto_restart,
            max_restart_attempts: self.process.max_restart_attempts,
            working_dir_template: self.process.working_dir_template@,
            update_interval_ms: self.ui.dashboard.update_interval_ms,
            width_percentage: self.ui.dashboard.width_percentage,
            position: self.ui.dashboard.position@,
            real_time_updates: self.ui.dashboard.real_time_updates,
            max_log_entries: self.ui.dashboard.max_log_entries,
            level: self.logging.level@,
            file_path: opt_text(self.logging.file_path),
            console: self.logging.console,
            max_file_size: self.logging.max_file_size,
            max_files: self.logging.max_files,
            format: self.logging.format@,
        }
    }
}

impl Default for ServerConfig {
    fn default() -> (r: Self)
        ensures
            r.socket_path@ == "/tmp/wezterm-parallel.sock"@,
            r.max_connections == 100,
            r.connection_timeout == 30,
            r.enable_metrics,
            r.health_check_interval == 10,
    {
        ServerConfig {
            socket_path: String::from_str("/tmp/wezterm-parallel.sock"),
            max_connections: 100,
            connection_timeout: 30,
            enable_metrics: true,
            health_check_interval: 10,
        }
    }
}

impl Default for WorkspaceConfig {
    fn default() -> (r: Self)
        ensures
            r.max_workspaces == 8,
            r.default_template@ == "basic"@,
            r.state_path@ == "~/.config/wezterm-multi-dev/workspaces.json"@,
            r.auto_save_interval == 30,
            r.templates_dir@ == "~/.config/wezterm-multi-dev/templates"@,
    {
        WorkspaceConfig {
            max_workspaces: 8,
            default_template: String::from_str("basic"),
            state_path: String::from_str("~/.config/wezterm-multi-dev/workspaces.json"),
            auto_save_interval: 30,
            templates_dir: String::from_str("~/.config/wezterm-multi-dev/templates"),
        }
    }
}

impl Default for ProcessConfig {
    fn default() -> (r: Self)
        ensures
            r.max_processes_per_workspace == 16,
            r.startup_timeout == 60,
            r.health_check_interval == 5,
            r.auto_restart,
            r.max_restart_attempts == 3,
            r.environment@ == Map::<String, String>::empty(),
            r.working_dir_template@ == "~/projects/{{workspace_name}}"@,
    {
        ProcessConfig {
            max_processes_per_workspace: 16,
            startup_timeout: 60,
            health_check_interval: 5,
            auto_restart: true,
            max_restart_attempts: 3,
            environment: HashMap::new(),
            working_dir_template: String::from_str("~/projects/{{workspace_name}}"),
        }
    }
}

impl Default for DashboardConfig {
    fn default() -> (r: Self)
        ensures
            r.update_interval_ms == 2000,
            r.width_percentage == 30,
            r.position@ == "right"@,
            r.real_time_updates,
            r.max_log_entries == 100,
    {
        DashboardConfig {
            update_interval_ms: 2000,
            width_percentage: 30,
            position: String::from_str("right"),
            real_time_updates: true,
            max_log_entries: 100,
        }
    }
}

/// Whether a theme holds the default colours.
pub open spec fn default_theme(t: ThemeConfig) -> bool {
    &&& t.background@ == "#1e1e2e"@
    &&& t.foreground@ == "#cdd6f4"@
    &&& t.border@ == "#45475a"@
    &&& t.header@ == "#89b4fa"@
    &&& t.success@ == "#a6e3a1"@
    &&& t.warning@ == "#f9e2af"@
    &&& t.error@ == "#f38ba8"@
    &&& t.info@ == "#89dceb"@
}

/// Whether key bindings are the default ones.
pub open spec fn default_keybindings(k: KeybindingConfig) -> bool {
    &&& k.leader_key@ == "CTRL|SHIFT+Space"@
    &&& k.workspace_prefix@ == "CTRL|SHIFT"@
    &&& k.process_prefix@ == "CTRL|ALT"@
    &&& k.pane_prefix@ == "ALT"@
    &&& k.dashboard_prefix@ == "CTRL|SHIFT"@
}

impl Default for ThemeConfig {
    fn default() -> (r: Self)
        ensures
            r.background@ == "#1e1e2e"@,
            r.foreground@ == "#cdd6f4"@,
            r.border@ == "#45475a"@,
            r.header@ == "#89b4fa"@,
            r.success@ == "#a6e3a1"@,
            r.warning@ == "#f9e2af"@,
            r.error@ == "#f38ba8"@,
            r.info@ == "#89dceb"@,
    {
        ThemeConfig {
            background: String::from_str("#1e1e2e"),
            foreground: String::from_str("#cdd6f4"),
            border: String::from_str("#45475a"),
            header: String::from_str("#89b4fa"),
            success: String::from_str("#a6e3a1"),
            warning: String::from_str("#f9e2af"),
            error: String::from_str("#f38ba8"),
            info: String::from_str("#89dceb"),
        }
    }
}

impl Default for KeybindingConfig {
    fn default() -> (r: Self)
        ensures
            r.leader_key@ == "CTRL|SHIFT+Space"@,
            r.workspace_prefix@ == "CTRL|SHIFT"@,
            r.process_prefix@ == "CTRL|ALT"@,
            r.pane_prefix@ == "ALT"@,
            r.dashboard_prefix@ == "CTRL|SHIFT"@,
    {
        KeybindingConfig {
            leader_key: String::from_str("CTRL|SHIFT+Space"),
            workspace_prefix: String::from_str("CTRL|SHIFT"),
            process_prefix: String::from_str("CTRL|ALT"),
            pane_prefix: String::from_str("ALT"),
            dashboard_prefix: String::from_str("CTRL|SHIFT"),
        }
    }
}

impl Default for UiConfig {
    fn default() -> (r: Self)
        ensures
            r.dashboard.update_interval_ms == 2000,
            r.dashboard.width_percentage == 30,
            r.dashboard.position@ == "right"@,
            r.dashboard.real_time_updates,
            r.dashboard.max_log_entries == 100,
            r.theme.background@ == "#1e1e2e"@,
            r.keybindings.leader_key@ == "CTRL|SHIFT+Space"@,
            default_theme(r.theme),
            default_keybindings(r.keybindings),
    {
        UiConfig {
            dashboard: DashboardConfig::default(),
            theme: ThemeConfig::default(),
            keybindings: KeybindingConfig::default(),
        }
    }
}

impl Default for LoggingConfig {
    fn default() -> (r: Self)
        ensures
            r.level@ == "info"@,
            opt_text(r.file_path) == Some("~/.config/wezterm-multi-dev/logs/framework.log"@),
            r.console,
            r.max_file_size == 10,
            r.max_files == 5,
            r.format@ == "plain"@,
    {
        LoggingConfig {
            level: String::from_str("info"),
            file_path: Some(String::from_str("~/.config/wezterm-multi-dev/logs/framework.log")),
            console: true,
            max_file_size: 10,
            max_files: 5,
            format: String::from_str("plain"),
        }
    }
}

/// The configuration used when no file is found.
pub open spec fn default_config_view() -> ConfigView {
    ConfigView {
        socket_path: "/tmp/wezterm-parallel.sock"@,
        max_connections: 100,
        connection_timeout: 30,
        enable_metrics: true,
        server_health_check_interval: 10,
        max_workspaces: 8,
        default_template: "basic"@,
        state_path: "~/.config/wezterm-multi-dev/workspaces.json"@,
        auto_save_interval: 30,
        templates_dir: "~/.config/wezterm-multi-dev/templates"@,
        max_processes_per_workspace: 16,
        startup_timeout: 60,
        process_health_check_interval: 5,
        auto_restart: true,
        max_restart_attempts: 3,
        working_dir_template: "~/projects/{{workspace_name}}"@,
        update_interval_ms: 2000,
        width_percentage: 30,
        position: "right"@,
        real_time_updates: true,
        max_log_entries: 100,
        level: "info"@,
        file_path: Some("~/.config/wezterm-multi-dev/logs/framework.log"@),
        console: true,
        max_file_size: 10,
        max_files: 5,
        format: "plain"@,
    }
}

impl Default for Config {
    fn default() -> (r: Self)
        ensures
            r@ == default_config_view(),
            r.process.environment@ == Map::<String, String>::empty(),
            r.ui.theme.background@ == "#1e1e2e"@,
            r.ui.keybindings.leader_key@ == "CTRL|SHIFT+Space"@,
            default_theme(r.ui.theme),
            default_keybindings(r.ui.keybindings),
    {
        Config {
            server: ServerConfig::default(),
            workspace: WorkspaceConfig::default(),
            process: ProcessConfig::default(),
            ui: UiConfig::default(),
            logging: LoggingConfig::default(),
        }
    }
}

} // verus!
