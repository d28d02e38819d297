//! Turning a configuration file, environment variables and command-line values
//! into a checked configuration.
//!
//! Finding and reading the file and reading the environment happen outside
//! this module; it receives what was found and decides the rest.

use super::validator::{config_problem, is_valid_level};
use super::{Config, ConfigView};
use crate::text::{eq_str, eq_string, parse_bool, parse_bool_spec, parse_usize, parse_usize_spec};
use vstd::prelude::*;

verus! {

/// Why a configuration could not be loaded.
#[derive(Debug, Clone)]
pub enum ConfigError {
    /// No file in the search paths exists; holds the first search path.
    FileNotFound(String),
    /// The configuration breaks a rule.
    Validation(String),
    /// An override holds a value of the wrong form.
    Environment(String),
}

/// A `ConfigError` as plain values.
pub enum ConfigFailure {
    FileNotFound(Seq<char>),
    Validation(Seq<char>),
    Environment(Seq<char>),
}

impl View for ConfigError {
    type V = ConfigFailure;

    open spec fn view(&self) -> ConfigFailure {
        match self {
            ConfigError::FileNotFound(p) => ConfigFailure::FileNotFound(p@),
            ConfigError::Validation(m) => ConfigFailure::Validation(m@),
            ConfigError::Environment(m) => ConfigFailure::Environment(m@),
        }
    }
}

/// The text of a loading error, as it is displayed.
pub open spec fn config_error_text(e: ConfigFailure) -> Seq<char> {
    match e {
        ConfigFailure::FileNotFound(p) => "Configuration file not found: "@ + p,
        ConfigFailure::Validation(m) => "Validation error: "@ + m,
        ConfigFailure::Environment(m) => "Environment error: "@ + m,
    }
}

impl ConfigError {
    /// The error as it is displayed.
    pub fn to_string(&self) -> (s: String)
        ensures
            s@ == config_error_text(self@),
    {
        let (mut s, detail) = match self {
            ConfigError::FileNotFound(p) => (String::from_str("Configuration file not found: "), p),
            ConfigError::Validation(m) => (String::from_str("Validation error: "), m),
            ConfigError::Environment(m) => (String::from_str("Environment error: "), m),
        };
        s.append(detail.as_str());
        s
    }
}

/// An override as plain values: a dotted configuration path and its new value.
pub type OverrideView = (Seq<char>, Seq<char>);

pub open spec fn override_view(p: (String, String)) -> OverrideView {
    (p.0@, p.1@)
}

pub open spec fn overrides_view(v: Seq<(String, String)>) -> Seq<OverrideView> {
    v.map_values(|p: (String, String)| override_view(p))
}

/// The message of an override whose value has the wrong form.
pub open spec fn invalid_value_message(path: Seq<char>, value: Seq<char>) -> Seq<char> {
    "Invalid value for "@ + path + ": "@ + value
}

/// What one override does to a configuration: the new configuration, or the
/// message of the error. A path that names no setting changes nothing.
pub open spec fn override_result(c: ConfigView, path: Seq<char>, value: Seq<char>) -> Result<
    ConfigView,
    Seq<char>,
> {
    if path == "server.socket_path"@ {
        Ok(ConfigView { socket_path: value, ..c })
    } else if path == "server.max_connections"@ {
        match parse_usize_spec(value) {
            Some(n) => Ok(ConfigView { max_connections: n, ..c }),
            None => Err(invalid_value_message(path, value)),
        }
    } else if path == "workspace.max_workspaces"@ {
        match parse_usize_spec(value) {
            Some(n) => Ok(ConfigView { max_workspaces: n, ..c }),
            None => Err(invalid_value_message(path, value)),
        }
    } else if path == "workspace.default_template"@ {
        Ok(ConfigView { default_template: value, ..c })
    } else if path == "process.max_processes_per_workspace"@ {
        match parse_usize_spec(value) {
            Some(n) => Ok(ConfigView { max_processes_per_workspace: n, ..c }),
            None => Err(invalid_value_message(path, value)),
        }
    } else if path == "logging.level"@ {
        Ok(ConfigView { level: value, ..c })
    } else if path == "logging.console"@ {
        match parse_bool_spec(value) {
            Some(b) => Ok(ConfigView { console: b, ..c }),
            None => Err(invalid_value_message(path, value)),
        }
    } else {
        Ok(c)
    }
}

/// What a list of overrides does, applied in order; the first error stops it.
pub open spec fn apply_all(c: ConfigView, s: Seq<OverrideView>) -> Result<ConfigView, Seq<char>>
    decreases s.len(),
{
    if s.len() == 0 {
        Ok(c)
    } else {
        match apply_all(c, s.drop_last()) {
            Ok(c2) => override_result(c2, s.last().0, s.last().1),
            Err(m) => Err(m),
        }
    }
}

/// `s` without the overrides of path `k`.
pub open spec fn without_path(s: Seq<OverrideView>, k: Seq<char>) -> Seq<OverrideView>
    decreases s.len(),
{
    if s.len() == 0 {
        s
    } else if s.last().0 == k {
        without_path(s.drop_last(), k)
    } else {
        without_path(s.drop_last(), k).push(s.last())
    }
}

/// `s` with only the last override of each path, in the order of those last overrides.
pub open spec fn last_per_path(s: Seq<OverrideView>) -> Seq<OverrideView>
    decreases s.len(),
{
    if s.len() == 0 {
        s
    } else {
        without_path(last_per_path(s.drop_last()), s.last().0).push(s.last())
    }
}

/// The value that the last override of path `k` in `s` sets, if any.
pub open spec fn last_value(s: Seq<OverrideView>, k: Seq<char>) -> Option<Seq<char>>
    decreases s.len(),
{
    if s.len() == 0 {
        None
    } else if s.last().0 == k {
        Some(s.last().1)
    } else {
        last_value(s.drop_last(), k)
    }
}

/// No path occurs twice.
pub open spec fn distinct_paths(s: Seq<OverrideView>) -> bool {
    forall|i: int, j: int| 0 <= i < j < s.len() ==> #[trigger] s[i].0 != #[trigger] s[j].0
}

/// The first problem that the loader finds in a configuration, if any.
pub open spec fn load_problem(c: ConfigView) -> Option<Seq<char>> {
    if c.socket_path.len() == 0 {
        Some("Socket path cannot be empty"@)
    } else if c.max_connections == 0 {
        Some("Max connections must be greater than 0"@)
    } else if c.max_workspaces == 0 {
        Some("Max workspaces must be greater than 0"@)
    } else if c.default_template.len() == 0 {
        Some("Default template cannot be empty"@)
    } else if c.max_processes_per_workspace == 0 {
        Some("Max processes per workspace must be greater than 0"@)
    } else if !is_valid_level(c.level) {
        Some(
            "Invalid log level: "@ + c.level
                + ". Valid levels: [\"error\", \"warn\", \"info\", \"debug\", \"trace\"]"@,
        )
    } else if c.width_percentage > 100 {
        Some("Dashboard width percentage cannot exceed 100"@)
    } else if !is_valid_position(c.position) {
        Some(
            "Invalid dashboard position: "@ + c.position
                + ". Valid positions: [\"left\", \"right\", \"top\", \"bottom\"]"@,
        )
    } else {
        None
    }
}

/// The dashboard positions that a configuration may name.
pub open spec fn is_valid_position(p: Seq<char>) -> bool {
    p == "left"@ || p == "right"@ || p == "top"@ || p == "bottom"@
}

/// The outcome of loading: the configuration that was read (or the default one
/// when none was found), with the environment overrides and then the command-line
/// overrides applied, then checked.
pub open spec fn load_outcome(
    file: ConfigView,
    env: Seq<OverrideView>,
    cli: Seq<OverrideView>,
) -> Result<ConfigView, ConfigFailure> {
    match apply_all(file, env) {
        Err(m) => Err(ConfigFailure::Environment(m)),
        Ok(c1) => match apply_all(c1, cli) {
            Err(m) => Err(ConfigFailure::Environment(m)),
            Ok(c2) => match load_problem(c2) {
                Some(m) => Err(ConfigFailure::Validation(m)),
                None => Ok(c2),
            },
        },
    }
}

/// The environment variables that override settings, each with the path it sets.
pub open spec fn env_mapping_view() -> Seq<OverrideView> {
    seq![
        ("WEZTERM_MULTI_DEV_SOCKET_PATH"@, "server.socket_path"@),
        ("WEZTERM_MULTI_DEV_MAX_WORKSPACES"@, "workspace.max_workspaces"@),
        ("WEZTERM_MULTI_DEV_LOG_LEVEL"@, "logging.level"@),
        ("WEZTERM_MULTI_DEV_MAX_PROCESSES"@, "process.max_processes_per_workspace"@),
    ]
}

/// The environment variables that override settings, each with the path it sets.
pub fn env_mappings() -> (r: Vec<(String, String)>)
    ensures
        overrides_view(r@) == env_mapping_view(),
{
    let mut r: Vec<(String, String)> = Vec::new();
    r.push(
        (
            String::from_str("WEZTERM_MULTI_DEV_SOCKET_PATH"),
            String::from_str("server.socket_path"),
        ),
    );
    r.push(
        (
            String::from_str("WEZTERM_MULTI_DEV_MAX_WORKSPACES"),
            String::from_str("workspace.max_workspaces"),
        ),
    );
    r.push((String::from_str("WEZTERM_MULTI_DEV_LOG_LEVEL"), String::from_str("logging.level")));
    r.push(
        (
            String::from_str("WEZTERM_MULTI_DEV_MAX_PROCESSES"),
            String::from_str("process.max_processes_per_workspace"),
        ),
    );
    assert(overrides_view(r@) =~= env_mapping_view());
    r
}

/// `v` without the overrides of path `key`.
fn remove_path(v: &Vec<(String, String)>, key: &String) -> (r: Vec<(String, String)>)
    ensures
        overrides_view(r@) == without_path(overrides_view(v@), key@),
{
    let mut r: Vec<(String, String)> = Vec::new();
    let mut i: usize = 0;
    while i < v.len()
        invariant
            0 <= i <= v.len(),
            overrides_view(r@) == without_path(overrides_view(v@).take(i as int), key@),
        decreases v.len() - i,
    {
        let ghost s = overrides_view(v@);
        assert(s.take(i + 1).drop_last() =~= s.take(i as int));
        if !eq_string(&v[i].0, key) {
            r.push((v[i].0.clone(), v[i].1.clone()));
            assert(overrides_view(r@) =~= without_path(s.take(i as int), key@).push(s[i as int]));
        }
        i = i + 1;
    }
    assert(overrides_view(v@).take(v.len() as int) =~= overrides_view(v@));
    r
}

/// Keeps only the last override of each path, as a map keyed by path would.
pub fn last_override_per_path(v: Vec<(String, String)>) -> (r: Vec<(String, String)>)
    ensures
        overrides_view(r@) == last_per_path(overrides_view(v@)),
{
    let mut r: Vec<(String, String)> = Vec::new();
    let mut i: usize = 0;
    while i < v.len()
        invariant
            0 <= i <= v.len(),
            overrides_view(r@) == last_per_path(overrides_view(v@).take(i as int)),
        decreases v.len() - i,
    {
        let ghost s = overrides_view(v@);
        assert(s.take(i + 1).drop_last() =~= s.take(i as int));
        let mut kept = remove_path(&r, &v[i].0);
        kept.push((v[i].0.clone(), v[i].1.clone()));
        assert(overrides_view(kept@) =~= without_path(
            last_per_path(s.take(i as int)),
            s[i as int].0,
        ).push(s[i as int]));
        r = kept;
        i = i + 1;
    }
    assert(overrides_view(v@).take(v.len() as int) =~= overrides_view(v@));
    r
}

/// `rel` (a relative path) under the directory `base`, as `PathBuf::join`
/// puts them together on Unix.
pub open spec fn joined_path(base: Seq<char>, rel: Seq<char>) -> Seq<char> {
    if base.len() == 0 {
        rel
    } else if base.last() == '/' {
        base + rel
    } else {
        base + "/"@ + rel
    }
}

fn join_path(base: &str, rel: &str) -> (p: String)
    ensures
        p@ == joined_path(base@, rel@),
{
    let n = base.unicode_len();
    if n == 0 {
        String::from_str(rel)
    } else {
        let mut p = String::from_str(base);
        if base.get_char(n - 1) != '/' {
            p.append("/");
        }
        p.append(rel);
        p
    }
}

/// The files looked for by default, in order: two under the home directory
/// (when it is known), two in the current directory, and one system-wide.
pub open spec fn default_paths_view(home: Option<Seq<char>>) -> Seq<Seq<char>> {
    (match home {
        Some(h) => seq![
            joined_path(h, ".config/wezterm-parallel/config.yaml"@),
            joined_path(h, ".wezterm-parallel.yaml"@),
        ],
        None => Seq::empty(),
    }) + seq![
        "./wezterm-parallel.yaml"@,
        "./config.yaml"@,
        "/etc/wezterm-parallel/config.yaml"@,
    ]
}

/// The files looked for by default, given the home directory if it is known.
pub fn default_search_paths(home: Option<&str>) -> (r: Vec<String>)
    ensures
        r@.map_values(|p: String| p@) == default_paths_view(
            match home {
                Some(h) => Some(h@),
                None => None,
            },
        ),
{
    let mut r: Vec<String> = Vec::new();
    match home {
        Some(h) => {
            r.push(join_path(h, ".config/wezterm-parallel/config.yaml"));
            r.push(join_path(h, ".wezterm-parallel.yaml"));
        },
        None => {},
    }
    r.push(String::from_str("./wezterm-parallel.yaml"));
    r.push(String::from_str("./config.yaml"));
    r.push(String::from_str("/etc/wezterm-parallel/config.yaml"));
    assert(r@.map_values(|p: String| p@) =~= default_paths_view(
        match home {
            Some(h) => Some(h@),
            None => None,
        },
    ));
    r
}

/// Loads a configuration from several sources.
pub struct ConfigLoader {
    /// Files tried in order; the first that exists is used.
    search_paths: Vec<String>,
    /// Overrides from environment variables.
    env_overrides: Vec<(String, String)>,
    /// Overrides from the command line.
    cli_overrides: Vec<(String, String)>,
}

impl ConfigLoader {
    pub closed spec fn search_paths_view(&self) -> Seq<Seq<char>> {
        self.search_paths@.map_values(|p: String| p@)
    }

    pub closed spec fn env_view(&self) -> Seq<OverrideView> {
        overrides_view(self.env_overrides@)
    }

    pub closed spec fn cli_view(&self) -> Seq<OverrideView> {
        overrides_view(self.cli_overrides@)
    }

    /// A loader that tries the default files (see `default_search_paths`),
    /// with the overrides read from the environment.
    pub fn new(home: Option<&str>, env_overrides: Vec<(String, String)>) -> (r: Self)
        ensures
            r.search_paths_view() == default_paths_view(
                match home {
                    Some(h) => Some(h@),
                    None => None,
                },
            ),
            r.env_view() == last_per_path(overrides_view(env_overrides@)),
            r.cli_view() == Seq::<OverrideView>::empty(),
    {
        Self::with_search_paths(default_search_paths(home), env_overrides)
    }

    /// A loader that tries `paths` in order, with the overrides read from the
    /// environment (pairs of path and value; for a path given twice the last wins).
    pub fn with_search_paths(paths: Vec<String>, env_overrides: Vec<(String, String)>) -> (r: Self)
        ensures
            r.search_paths_view() == paths@.map_values(|p: String| p@),
            r.env_view() == last_per_path(overrides_view(env_overrides@)),
            r.cli_view() == Seq::<OverrideView>::empty(),
    {
        let r = ConfigLoader {
            search_paths: paths,
            env_overrides: last_override_per_path(env_overrides),
            cli_overrides: Vec::new(),
        };
        assert(r.cli_view() =~= Seq::<OverrideView>::empty());
        r
    }

    /// Adds a file to try after the others.
    pub fn add_search_path(&mut self, path: String)
        ensures
            final(self).search_paths_view() == old(self).search_paths_view().push(path@),
            final(self).env_view() == old(self).env_view(),
            final(self).cli_view() == old(self).cli_view(),
    {
        self.search_paths.push(path);
        assert(self.search_paths_view() =~= old(self).search_paths_view().push(path@));
    }

    /// Replaces the command-line overrides; for a path given twice the last wins.
    pub fn set_cli_overrides(&mut self, overrides: Vec<(String, String)>)
        ensures
            final(self).cli_view() == last_per_path(overrides_view(overrides@)),
            final(self).search_paths_view() == old(self).search_paths_view(),
            final(self).env_view() == old(self).env_view(),
    {
        self.cli_overrides = last_override_per_path(overrides);
    }

    /// The index of the first search path that exists, given for each path
    /// whether it exists; otherwise the error that names the first search path
    /// (an empty path when there is none).
    pub fn select_config_file(&self, exists: &Vec<bool>) -> (r: Result<usize, ConfigError>)
        requires
            exists@.len() == self.search_paths_view().len(),
        ensures
            match r {
                Ok(i) => i < exists@.len() && exists@[i as int] && forall|j: int|
                    0 <= j < i ==> !exists@[j],
                Err(e) => (forall|j: int| 0 <= j < exists@.len() ==> !exists@[j]) && e@
                    == ConfigFailure::FileNotFound(
                    if self.search_paths_view().len() > 0 {
                        self.search_paths_view()[0]
                    } else {
                        Seq::<char>::empty()
                    },
                ),
            },
    {
        let mut i: usize = 0;
        while i < exists.len()
            invariant
                0 <= i <= exists@.len(),
                forall|j: int| 0 <= j < i ==> !exists@[j],
            decreases exists.len() - i,
        {
            if exists[i] {
                return Ok(i);
            }
            i = i + 1;
        }
        if self.search_paths.len() > 0 {
            Err(ConfigError::FileNotFound(self.search_paths[0].clone()))
        } else {
            Err(ConfigError::FileNotFound(String::new()))
        }
    }

    /// Applies one override to `config`.
    pub fn apply_override(&self, config: &mut Config, path: &str, value: &str) -> (r: Result<
        (),
        ConfigError,
    >)
        ensures
            match r {
                Ok(()) => override_result(old(config)@, path@, value@) == Ok::<
                    ConfigView,
                    Seq<char>,
                >(final(config)@),
                Err(e) => exists|m: Seq<char>|
                    override_result(old(config)@, path@, value@) == Err::<ConfigView, Seq<char>>(m)
                        && e@ == ConfigFailure::Environment(m),
            },
            final(config).process.environment == old(config).process.environment,
            final(config).ui.theme == old(config).ui.theme,
            final(config).ui.keybindings == old(config).ui.keybindings,
    {
        let p = String::from_str(path);
        if eq_str(&p, "server.socket_path") {
            config.server.socket_path = String::from_str(value);
        } else if eq_str(&p, "server.max_connections") {
            match parse_usize(value) {
                Some(n) => config.server.max_connections = n,
                None => return Err(ConfigError::Environment(invalid_value(path, value))),
            }
        } else if eq_str(&p, "workspace.max_workspaces") {
            match parse_usize(value) {
                Some(n) => config.workspace.max_workspaces = n,
                None => return Err(ConfigError::Environment(invalid_value(path, value))),
            }
        } else if eq_str(&p, "workspace.default_template") {
            config.workspace.default_template = String::from_str(value);
        } else if eq_str(&p, "process.max_processes_per_workspace") {
            match parse_usize(value) {
                Some(n) => config.process.max_processes_per_workspace = n,
                None => return Err(ConfigError::Environment(invalid_value(path, value))),
            }
        } else if eq_str(&p, "logging.level") {
            config.logging.level = String::from_str(value);
        } else if eq_str(&p, "logging.console") {
            match parse_bool(value) {
                Some(b) => config.logging.console = b,
                None => return Err(ConfigError::Environment(invalid_value(path, value))),
            }
        }
        Ok(())
    }

    /// Applies overrides in order, stopping at the first error.
    fn apply_overrides(&self, config: &mut Config, overrides: &Vec<(String, String)>) -> (r: Result<
        (),
        ConfigError,
    >)
        ensures
            match r {
                Ok(()) => apply_all(old(config)@, overrides_view(overrides@)) == Ok::<
                    ConfigView,
                    Seq<char>,
                >(final(config)@),
                Err(e) => exists|m: Seq<char>|
                    apply_all(old(config)@, overrides_view(overrides@)) == Err::<
                        ConfigView,
                        Seq<char>,
                    >(m) && e@ == ConfigFailure::Environment(m),
            },
            final(config).process.environment == old(config).process.environment,
            final(config).ui.theme == old(config).ui.theme,
            final(config).ui.keybindings == old(config).ui.keybindings,
    {
        let ghost start = config@;
        let mut i: usize = 0;
        while i < overrides.len()
            invariant
                0 <= i <= overrides@.len(),
                start == old(config)@,
                config.process.environment == old(config).process.environment,
                config.ui.theme == old(config).ui.theme,
                config.ui.keybindings == old(config).ui.keybindings,
                apply_all(start, overrides_view(overrides@).take(i as int)) == Ok::<
                    ConfigView,
                    Seq<char>,
                >(config@),
            decreases overrides.len() - i,
        {
            let ghost s = overrides_view(overrides@);
            assert(s.take(i + 1).drop_last() =~= s.take(i as int));
            let res = self.apply_override(config, overrides[i].0.as_str(), overrides[i].1.as_str());
            if let Err(e) = res {
                proof {
                    let m = choose|m: Seq<char>|
                        override_result(
                            apply_all(start, s.take(i as int))->Ok_0,
                            s[i as int].0,
                            s[i as int].1,
                        ) == Err::<ConfigView, Seq<char>>(m) && e@ == ConfigFailure::Environment(m);
                    lemma_apply_all_stops(start, s, i as int, m);
                    assert(apply_all(start, s) == Err::<ConfigView, Seq<char>>(m)
                        && e@ == ConfigFailure::Environment(m));
                }
                return Err(e);
            }
            i = i + 1;
        }
        assert(overrides_view(overrides@).take(overrides.len() as int) =~= overrides_view(
            overrides@,
        ));
        Ok(())
    }

    /// Checks the rules that a loaded configuration must meet.
    pub fn validate_config(&self, config: &Config) -> (r: Result<(), ConfigError>)
        ensures
            match r {
                Ok(()) => load_problem(config@) is None,
                Err(e) => exists|m: Seq<char>|
                    load_problem(config@) == Some(m) && e@ == ConfigFailure::Validation(m),
            },
    {
        if config.server.socket_path.as_str().is_empty() {
            return Err(ConfigError::Validation(String::from_str("Socket path cannot be empty")));
        }
        if config.server.max_connections == 0 {
            return Err(
                ConfigError::Validation(String::from_str("Max connections must be greater than 0")),
            );
        }
        if config.workspace.max_workspaces == 0 {
            return Err(
                ConfigError::Validation(String::from_str("Max workspaces must be greater than 0")),
            );
        }
        if config.workspace.default_template.as_str().is_empty() {
            return Err(
                ConfigError::Validation(String::from_str("Default template cannot be empty")),
            );
        }
        if config.process.max_processes_per_workspace == 0 {
            return Err(
                ConfigError::Validation(
                    String::from_str("Max processes per workspace must be greater than 0"),
                ),
            );
        }
        let level = &config.logging.level;
        if !(eq_str(level, "error") || eq_str(level, "warn") || eq_str(level, "info") || eq_str(
            level,
            "debug",
        ) || eq_str(level, "trace")) {
            let mut m = String::from_str("Invalid log level: ");
            m.append(level.as_str());
            m.append(". Valid levels: [\"error\", \"warn\", \"info\", \"debug\", \"trace\"]");
            return Err(ConfigError::Validation(m));
        }
        if config.ui.dashboard.width_percentage > 100 {
            return Err(
                ConfigError::Validation(
                    String::from_str("Dashboard width percentage cannot exceed 100"),
                ),
            );
        }
        let pos = &config.ui.dashboard.position;
        if !(eq_str(pos, "left") || eq_str(pos, "right") || eq_str(pos, "top") || eq_str(
            pos,
            "bottom",
        )) {
            let mut m = String::from_str("Invalid dashboard position: ");
            m.append(pos.as_str());
            m.append(". Valid positions: [\"left\", \"right\", \"top\", \"bottom\"]");
            return Err(ConfigError::Validation(m));
        }
        Ok(())
    }

    /// Finishes loading once the file has been looked for: `found` is the
    /// configuration read from the first existing file, or `None` when no file
    /// exists, in which case the defaults are used.
    pub fn finish_load(&self, found: Option<Config>) -> (r: Result<Config, ConfigError>)
        ensures
            match r {
                Ok(c) => load_outcome(
                    match found {
                        Some(f) => f@,
                        None => crate::config::default_config_view(),
                    },
                    self.env_view(),
                    self.cli_view(),
                ) == Ok::<ConfigView, ConfigFailure>(c@),
                Err(e) => load_outcome(
                    match found {
                        Some(f) => f@,
                        None => crate::config::default_config_view(),
                    },
                    self.env_view(),
                    self.cli_view(),
                ) == Err::<ConfigView, ConfigFailure>(e@),
            },
            r matches Ok(c) ==> match found {
                Some(f) => c.process.environment == f.process.environment && c.ui.theme == f.ui.theme
                    && c.ui.keybindings == f.ui.keybindings,
                None => c.process.environment@ == Map::<String, String>::empty()
                    && crate::config::default_theme(c.ui.theme) && crate::config::default_keybindings(
                    c.ui.keybindings,
                ),
            },
    {
        let mut config = match found {
            Some(c) => c,
            None => Config::default(),
        };
        self.apply_overrides(&mut config, &self.env_overrides)?;
        self.apply_overrides(&mut config, &self.cli_overrides)?;
        self.validate_config(&config)?;
        Ok(config)
    }
}

/// The message `Invalid value for {path}: {value}`.
fn invalid_value(path: &str, value: &str) -> (m: String)
    ensures
        m@ == invalid_value_message(path@, value@),
{
    let mut m = String::from_str("Invalid value for ");
    m.append(path);
    m.append(": ");
    m.append(value);
    m
}

/// Once an override fails, the whole list fails with that message.
proof fn lemma_apply_all_stops(c: ConfigView, s: Seq<OverrideView>, i: int, m: Seq<char>)
    requires
        0 <= i < s.len(),
        apply_all(c, s.take(i)) is Ok,
        override_result(apply_all(c, s.take(i))->Ok_0, s[i].0, s[i].1) == Err::<
            ConfigView,
            Seq<char>,
        >(m),
    ensures
        apply_all(c, s) == Err::<ConfigView, Seq<char>>(m),
    decreases s.len(),
{
    if i == s.len() - 1 {
        assert(s.drop_last() =~= s.take(i));
    } else {
        assert(s.drop_last().take(i) =~= s.take(i));
        lemma_apply_all_stops(c, s.drop_last(), i, m);
    }
}

/// Whatever the loader accepts also passes `ConfigValidator::validate`: the
/// loader's rules include every rule of the validator.
pub proof fn loader_rules_include_validator_rules(c: ConfigView)
    ensures
        load_problem(c) is None ==> config_problem(c) is None,
{
}

/// The dashboard may stand on the left, on the right, at the top or at the
/// bottom: a configuration that passes the checks still passes with the
/// dashboard moved to any of these four places, and fails, naming the
/// position, with it moved anywhere else.
pub proof fn dashboard_positions(c: ConfigView, p: Seq<char>)
    requires
        load_problem(c) is None,
    ensures
        (p == "left"@ || p == "right"@ || p == "top"@ || p == "bottom"@) ==> load_problem(
            ConfigView { position: p, ..c },
        ) is None,
        !(p == "left"@ || p == "right"@ || p == "top"@ || p == "bottom"@) ==> load_problem(
            ConfigView { position: p, ..c },
        ) == Some(
            "Invalid dashboard position: "@ + p
                + ". Valid positions: [\"left\", \"right\", \"top\", \"bottom\"]"@,
        ),
{
}

/// Loading with no file and no overrides gives the default configuration.
pub proof fn default_load_is_default()
    ensures
        load_outcome(
            crate::config::default_config_view(),
            Seq::<OverrideView>::empty(),
            Seq::<OverrideView>::empty(),
        ) == Ok::<ConfigView, ConfigFailure>(crate::config::default_config_view()),
{
    reveal_strlit("/tmp/wezterm-parallel.sock");
    reveal_strlit("basic");
}

proof fn lemma_without_path(s: Seq<OverrideView>, k: Seq<char>)
    ensures
        forall|i: int| 0 <= i < without_path(s, k).len() ==> #[trigger] without_path(s, k)[i].0 != k,
        forall|i: int| 0 <= i < without_path(s, k).len() ==> s.contains(#[trigger] without_path(s, k)[i]),
        forall|j: Seq<char>| j != k ==> last_value(#[trigger] without_path(s, k), j) == last_value(s, j),
        last_value(without_path(s, k), k) is None,
        distinct_paths(s) ==> distinct_paths(without_path(s, k)),
    decreases s.len(),
{
    if s.len() > 0 {
        let init = s.drop_last();
        lemma_without_path(init, k);
        let w = without_path(init, k);
        if s.last().0 != k {
            assert(without_path(s, k) == w.push(s.last()));
            assert(w.push(s.last()).drop_last() =~= w);
            assert forall|j: Seq<char>| j != k implies last_value(
                #[trigger] without_path(s, k),
                j,
            ) == last_value(s, j) by {
                assert(last_value(w, j) == last_value(init, j));
            }
            assert forall|i: int| 0 <= i < w.push(s.last()).len() implies s.contains(
                #[trigger] w.push(s.last())[i],
            ) by {
                if i < w.len() {
                    let t = choose|t: int| 0 <= t < init.len() && init[t] == w[i];
                    assert(s[t] == w[i]);
                } else {
                    assert(s[s.len() - 1] == s.last());
                }
            }
            if distinct_paths(s) {
                assert forall|a: int, b: int| 0 <= a < b < w.push(s.last()).len() implies #[trigger] w.push(
                    s.last(),
                )[a].0 != #[trigger] w.push(s.last())[b].0 by {
                    if b < w.len() {
                        assert(w[a] == w.push(s.last())[a]);
                        assert(w[b] == w.push(s.last())[b]);
                    } else {
                        assert(init.contains(w[a]));
                        let t = choose|t: int| 0 <= t < init.len() && init[t] == w[a];
                        assert(s[t] == init[t]);
                        assert(s[s.len() - 1] == s.last());
                    }
                }
            }
        } else {
            assert(without_path(s, k) == w);
            assert forall|j: Seq<char>| j != k implies last_value(
                #[trigger] without_path(s, k),
                j,
            ) == last_value(s, j) by {
                assert(last_value(w, j) == last_value(init, j));
            }
            assert forall|i: int| 0 <= i < w.len() implies s.contains(#[trigger] w[i]) by {
                let t = choose|t: int| 0 <= t < init.len() && init[t] == w[i];
                assert(s[t] == w[i]);
            }
        }
        if distinct_paths(s) {
            assert(distinct_paths(init)) by {
                assert forall|a: int, b: int| 0 <= a < b < init.len() implies #[trigger] init[a].0
                    != #[trigger] init[b].0 by {
                    assert(s[a] == init[a]);
                    assert(s[b] == init[b]);
                }
            }
        }
    }
}

/// Keeping the last override of each path leaves no path twice, and every path
/// keeps the value of its last override: the list behaves as a map keyed by path.
pub proof fn last_per_path_is_a_map(s: Seq<OverrideView>)
    ensures
        distinct_paths(last_per_path(s)),
        forall|k: Seq<char>| last_value(#[trigger] last_per_path(s), k) == last_value(s, k),
    decreases s.len(),
{
    if s.len() > 0 {
        let init = s.drop_last();
        last_per_path_is_a_map(init);
        let l = last_per_path(init);
        lemma_without_path(l, s.last().0);
        let w = without_path(l, s.last().0);
        assert forall|a: int, b: int| 0 <= a < b < w.push(s.last()).len() implies #[trigger] w.push(
            s.last(),
        )[a].0 != #[trigger] w.push(s.last())[b].0 by {
            if b < w.len() {
                assert(w[a] == w.push(s.last())[a]);
                assert(w[b] == w.push(s.last())[b]);
            } else {
                assert(w[a] == w.push(s.last())[a]);
            }
        }
        assert(last_per_path(s) == w.push(s.last()));
        assert(w.push(s.last()).drop_last() =~= w);
        assert forall|k: Seq<char>| last_value(#[trigger] last_per_path(s), k) == last_value(s, k) by {
            if k != s.last().0 {
                assert(last_value(w, k) == last_value(l, k));
                assert(last_value(l, k) == last_value(init, k));
            }
        }
    }
}

} // verus!
