use wezterm_parallel::config::loader::{env_mappings, last_override_per_path, ConfigError, ConfigLoader};
use wezterm_parallel::config::Config;

fn pair(a: &str, b: &str) -> (String, String) {
    (a.to_string(), b.to_string())
}

#[test]
fn test_load_default_config() {
    let loader = ConfigLoader::with_search_paths(vec![], vec![]);
    let config = loader.finish_load(None).unwrap();

    assert_eq!(config.server.socket_path, "/tmp/wezterm-parallel.sock");
    assert_eq!(config.workspace.max_workspaces, 8);
}

#[test]
fn test_env_overrides() {
    let loader = ConfigLoader::with_search_paths(
        vec![],
        vec![pair("server.socket_path", "/tmp/test.sock")],
    );
    let config = loader.finish_load(None).unwrap();

    assert_eq!(config.server.socket_path, "/tmp/test.sock");
}

#[test]
fn loaded_file_is_kept_when_no_override_applies() {
    let mut file = Config::default();
    file.server.socket_path = "/run/other.sock".to_string();
    let loader = ConfigLoader::with_search_paths(vec!["a.yaml".to_string()], vec![]);
    let config = loader.finish_load(Some(file)).unwrap();
    assert_eq!(config.server.socket_path, "/run/other.sock");
}

#[test]
fn command_line_overrides_win_over_environment() {
    let mut loader = ConfigLoader::with_search_paths(
        vec![],
        vec![pair("workspace.max_workspaces", "3"), pair("logging.level", "debug")],
    );
    loader.set_cli_overrides(vec![pair("workspace.max_workspaces", "12")]);
    let config = loader.finish_load(None).unwrap();
    assert_eq!(config.workspace.max_workspaces, 12);
    assert_eq!(config.logging.level, "debug");
}

#[test]
fn later_override_of_same_path_wins() {
    let loader = ConfigLoader::with_search_paths(
        vec![],
        vec![pair("process.max_processes_per_workspace", "2"), pair("process.max_processes_per_workspace", "9")],
    );
    let config = loader.finish_load(None).unwrap();
    assert_eq!(config.process.max_processes_per_workspace, 9);
}

#[test]
fn last_override_per_path_keeps_last_of_each() {
    let kept = last_override_per_path(vec![
        pair("a", "1"),
        pair("b", "2"),
        pair("a", "3"),
    ]);
    assert_eq!(kept, vec![pair("b", "2"), pair("a", "3")]);
}

#[test]
fn malformed_number_is_an_environment_error() {
    let loader = ConfigLoader::with_search_paths(
        vec![],
        vec![pair("server.max_connections", "many")],
    );
    match loader.finish_load(None) {
        Err(ConfigError::Environment(m)) => {
            assert_eq!(m, "Invalid value for server.max_connections: many")
        }
        other => panic!("unexpected: {:?}", other),
    }
}

#[test]
fn malformed_bool_is_an_environment_error() {
    let loader = ConfigLoader::with_search_paths(vec![], vec![pair("logging.console", "yes")]);
    match loader.finish_load(None) {
        Err(ConfigError::Environment(m)) => {
            assert_eq!(m, "Invalid value for logging.console: yes")
        }
        other => panic!("unexpected: {:?}", other),
    }
}

#[test]
fn console_override_parses_bool() {
    let loader = ConfigLoader::with_search_paths(vec![], vec![pair("logging.console", "false")]);
    let config = loader.finish_load(None).unwrap();
    assert!(!config.logging.console);
}

#[test]
fn unknown_path_changes_nothing() {
    let loader = ConfigLoader::with_search_paths(vec![], vec![pair("nothing.here", "x")]);
    let config = loader.finish_load(None).unwrap();
    assert_eq!(config.server.socket_path, "/tmp/wezterm-parallel.sock");
}

#[test]
fn invalid_level_is_a_validation_error() {
    let loader = ConfigLoader::with_search_paths(vec![], vec![pair("logging.level", "loud")]);
    match loader.finish_load(None) {
        Err(ConfigError::Validation(m)) => assert_eq!(
            m,
            "Invalid log level: loud. Valid levels: [\"error\", \"warn\", \"info\", \"debug\", \"trace\"]"
        ),
        other => panic!("unexpected: {:?}", other),
    }
}

#[test]
fn zero_workspaces_is_a_validation_error() {
    let loader = ConfigLoader::with_search_paths(vec![], vec![pair("workspace.max_workspaces", "0")]);
    match loader.finish_load(None) {
        Err(ConfigError::Validation(m)) => assert_eq!(m, "Max workspaces must be greater than 0"),
        other => panic!("unexpected: {:?}", other),
    }
}

#[test]
fn bad_dashboard_position_is_a_validation_error() {
    let mut file = Config::default();
    file.ui.dashboard.position = "middle".to_string();
    let loader = ConfigLoader::with_search_paths(vec![], vec![]);
    match loader.finish_load(Some(file)) {
        Err(ConfigError::Validation(m)) => assert_eq!(
            m,
            "Invalid dashboard position: middle. Valid positions: [\"left\", \"right\", \"top\", \"bottom\"]"
        ),
        other => panic!("unexpected: {:?}", other),
    }
}

#[test]
fn too_wide_dashboard_is_a_validation_error() {
    let mut file = Config::default();
    file.ui.dashboard.width_percentage = 101;
    let loader = ConfigLoader::with_search_paths(vec![], vec![]);
    match loader.finish_load(Some(file)) {
        Err(ConfigError::Validation(m)) => {
            assert_eq!(m, "Dashboard width percentage cannot exceed 100")
        }
        other => panic!("unexpected: {:?}", other),
    }
}

#[test]
fn select_config_file_picks_first_existing() {
    let mut loader = ConfigLoader::with_search_paths(vec!["a.yaml".to_string()], vec![]);
    loader.add_search_path("b.yaml".to_string());
    loader.add_search_path("c.yaml".to_string());
    assert_eq!(loader.select_config_file(&vec![false, true, true]).unwrap(), 1);
    match loader.select_config_file(&vec![false, false, false]) {
        Err(ConfigError::FileNotFound(p)) => assert_eq!(p, "a.yaml"),
        other => panic!("unexpected: {:?}", other),
    }
}

#[test]
fn apply_override_sets_one_field() {
    let loader = ConfigLoader::with_search_paths(vec![], vec![]);
    let mut config = Config::default();
    loader.apply_override(&mut config, "workspace.default_template", "rust").unwrap();
    assert_eq!(config.workspace.default_template, "rust");
    assert!(loader.validate_config(&config).is_ok());
}

#[test]
fn env_mappings_name_the_variables() {
    let m = env_mappings();
    assert_eq!(m.len(), 4);
    assert_eq!(m[0], pair("WEZTERM_MULTI_DEV_SOCKET_PATH", "server.socket_path"));
    assert_eq!(m[3], pair("WEZTERM_MULTI_DEV_MAX_PROCESSES", "process.max_processes_per_workspace"));
}

#[test]
fn test_hot_reloader_creation() {
    let temp_path = "/tmp/test_config.yaml";
    let reloader = wezterm_parallel::config::hot_reload::HotReloader::new(temp_path);
    assert_eq!(reloader.config_path, temp_path);
    assert!(reloader.last_modified.is_none());
}

#[test]
fn reloader_reads_again_on_each_new_modification_time() {
    let mut reloader = wezterm_parallel::config::hot_reload::HotReloader::new("c.yaml");
    assert!(!reloader.observe(None));
    assert!(reloader.observe(Some((10, 5))));
    assert!(!reloader.observe(Some((10, 5))));
    assert!(!reloader.observe(None));
    assert_eq!(reloader.last_modified, Some((10, 5)));
    assert!(reloader.observe(Some((10, 6))));
    assert!(reloader.observe(Some((9, 0))));
    assert_eq!(reloader.last_modified, Some((9, 0)));
}
