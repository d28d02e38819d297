//! Which entries are logged: a level per component, limits on frequent
//! entries, and which operations are timed.

use super::level::{UnifiedLogLevel, level_rank, passes};
use super::{LogContext, LogRecord};
use crate::assoc::{get_value, keys_distinct, lookup, pairs_view, set_value};
use crate::text::{eq_str, has_prefix, starts_with_str};
use vstd::prelude::*;

verus! {

/// A limit on how often entries of a target are logged.
#[derive(Debug, Clone)]
pub struct RateLimit {
    /// `component.operation`, a component, or an operation
    pub target: String,
    /// Length of the window, in seconds
    pub window_seconds: u64,
    /// Entries allowed in a window
    pub max_logs: u32,
    /// Share of entries kept beyond the limit, in percent
    pub sampling_percent: u8,
}

/// Where entries are written.
#[derive(Debug, Clone)]
pub enum LogOutput {
    Stdout,
    Stderr,
    File { path: String, max_size_mb: u64, max_files: u32 },
    System,
    StructuredFile { path: String, max_size_mb: u64, max_files: u32 },
}

/// What is logged, per component.
#[derive(Debug)]
pub struct LoggingStrategy {
    pub default_level: UnifiedLogLevel,
    /// Level per component; no component occurs twice.
    pub component_levels: Vec<(String, UnifiedLogLevel)>,
    /// Limits by name; no name occurs twice.
    pub rate_limits: Vec<(String, RateLimit)>,
    /// `component.operation` names of timed operations
    pub performance_targets: Vec<String>,
    pub structured_output: bool,
    pub outputs: Vec<LogOutput>,
}

/// The level of each component by default.
pub open spec fn default_component_levels() -> Seq<(Seq<char>, UnifiedLogLevel)> {
    seq![
        ("process"@, UnifiedLogLevel::Info),
        ("room"@, UnifiedLogLevel::Info),
        ("config"@, UnifiedLogLevel::Info),
        ("ipc"@, UnifiedLogLevel::Debug),
        ("sync"@, UnifiedLogLevel::Debug),
        ("monitoring"@, UnifiedLogLevel::Warn),
        ("performance"@, UnifiedLogLevel::Info),
        ("error"@, UnifiedLogLevel::Error),
        ("task"@, UnifiedLogLevel::Info),
        ("dashboard"@, UnifiedLogLevel::Warn),
    ]
}

/// `component.operation`
pub open spec fn target_of(c: LogContext) -> Seq<char> {
    c.component@ + "."@ + c.operation@
}

/// Whether a timing target covers an operation: it names it exactly, or it
/// ends in `*` and the operation begins with what comes before the `*`.
pub open spec fn target_matches(t: Seq<char>, op: Seq<char>) -> bool {
    t == op || (t.len() > 0 && t.last() == '*' && has_prefix(op, t.drop_last()))
}

/// Whether the timing target `t` covers the operation `op`.
fn matches_target(t: &str, op: &str) -> (b: bool)
    ensures
        b == target_matches(t@, op@),
{
    if eq_str(&String::from_str(t), op) {
        return true;
    }
    let n = t.unicode_len();
    if n == 0 || t.get_char(n - 1) != '*' {
        return false;
    }
    let head = t.substring_char(0, n - 1);
    assert(head@ =~= t@.drop_last());
    starts_with_str(op, head)
}

/// The default component names are all different.
proof fn lemma_default_names_distinct()
    ensures
        keys_distinct(default_component_levels()),
        "process"@ != "room"@,
        "process"@ != "config"@,
        "process"@ != "ipc"@,
        "process"@ != "error"@,
        "room"@ != "config"@,
        "room"@ != "ipc"@,
        "room"@ != "error"@,
        "config"@ != "ipc"@,
        "config"@ != "error"@,
        "process"@ != "sync"@,
        "process"@ != "monitoring"@,
        "process"@ != "task"@,
        "room"@ != "sync"@,
        "room"@ != "monitoring"@,
        "room"@ != "task"@,
        "config"@ != "sync"@,
        "config"@ != "monitoring"@,
        "config"@ != "task"@,
        "ipc"@ != "sync"@,
        "ipc"@ != "monitoring"@,
        "ipc"@ != "task"@,
        "sync"@ != "monitoring"@,
        "sync"@ != "task"@,
        "monitoring"@ != "task"@,
        "ipc"@ != "error"@,
{
    reveal_strlit("process");
    reveal_strlit("room");
    reveal_strlit("config");
    reveal_strlit("ipc");
    reveal_strlit("sync");
    reveal_strlit("monitoring");
    reveal_strlit("performance");
    reveal_strlit("error");
    reveal_strlit("task");
    reveal_strlit("dashboard");
    assert("process"@.len() == 7);
    assert("room"@.len() == 4);
    assert("config"@.len() == 6);
    assert("ipc"@.len() == 3);
    assert("sync"@.len() == 4);
    assert("monitoring"@.len() == 10);
    assert("error"@.len() == 5);
    assert("task"@.len() == 4);
    let d = default_component_levels();
    assert forall|i: int, j: int| 0 <= i < j < d.len() implies #[trigger] d[i].0 != #[trigger] d[j].0 by {
        if d[i].0.len() == d[j].0.len() {
            assert(d[i].0[0] != d[j].0[0]);
        }
    }
    assert("room"@[0] != "sync"@[0]);
    assert("room"@[0] != "task"@[0]);
    assert("sync"@[0] != "task"@[0]);
}

fn levels_vec(levels: &[(&str, UnifiedLogLevel)]) -> (r: Vec<(String, UnifiedLogLevel)>)
    ensures
        pairs_view(r@) == levels@.map_values(|p: (&str, UnifiedLogLevel)| (p.0@, p.1)),
{
    let mut r: Vec<(String, UnifiedLogLevel)> = Vec::new();
    let mut i: usize = 0;
    while i < levels.len()
        invariant
            0 <= i <= levels@.len(),
            r@.len() == i,
            forall|j: int| 0 <= j < i ==> (#[trigger] r@[j]).0@ == levels@[j].0@ && r@[j].1 == levels@[j].1,
        decreases levels.len() - i,
    {
        r.push((String::from_str(levels[i].0), levels[i].1));
        i = i + 1;
    }
    assert(pairs_view(r@) =~= levels@.map_values(|p: (&str, UnifiedLogLevel)| (p.0@, p.1)));
    r
}

fn strings_vec(items: &[&str]) -> (r: Vec<String>)
    ensures
        r@.map_values(|s: String| s@) == items@.map_values(|s: &str| s@),
{
    let mut r: Vec<String> = Vec::new();
    let mut i: usize = 0;
    while i < items.len()
        invariant
            0 <= i <= items@.len(),
            r@.len() == i,
            forall|j: int| 0 <= j < i ==> (#[trigger] r@[j])@ == items@[j]@,
        decreases items.len() - i,
    {
        r.push(String::from_str(items[i]));
        i = i + 1;
    }
    assert(r@.map_values(|s: String| s@) =~= items@.map_values(|s: &str| s@));
    r
}

/// The kinds of logging strategy.
#[derive(Debug, Clone, Copy, PartialEq, Eq, Structural)]
pub enum LogMode {
    Standard,
    Development,
    Production,
    Debug,
}

/// The level of a component under the default component levels, or `fallback`
/// for a component that has none.
pub open spec fn default_level_or(k: Seq<char>, fallback: UnifiedLogLevel) -> UnifiedLogLevel {
    match lookup(default_component_levels(), k) {
        Some(l) => l,
        None => fallback,
    }
}

/// The level that a strategy of each kind gives a component.
pub open spec fn mode_level(mode: LogMode, k: Seq<char>) -> UnifiedLogLevel {
    match mode {
        LogMode::Standard => default_level_or(k, UnifiedLogLevel::Info),
        LogMode::Development => if k == "process"@ || k == "room"@ || k == "config"@ {
            UnifiedLogLevel::Debug
        } else if k == "ipc"@ {
            UnifiedLogLevel::Trace
        } else {
            default_level_or(k, UnifiedLogLevel::Debug)
        },
        LogMode::Production => if k == "process"@ || k == "room"@ {
            UnifiedLogLevel::Info
        } else if k == "config"@ {
            UnifiedLogLevel::Warn
        } else if k == "error"@ {
            UnifiedLogLevel::Error
        } else {
            default_level_or(k, UnifiedLogLevel::Warn)
        },
        LogMode::Debug => if k == "process"@ || k == "room"@ || k == "config"@ || k == "ipc"@ || k
            == "sync"@ || k == "monitoring"@ || k == "task"@ {
            UnifiedLogLevel::Trace
        } else {
            default_level_or(k, UnifiedLogLevel::Trace)
        },
    }
}

/// The default level of a strategy of each kind.
pub open spec fn mode_default(mode: LogMode) -> UnifiedLogLevel {
    match mode {
        LogMode::Standard => UnifiedLogLevel::Info,
        LogMode::Development => UnifiedLogLevel::Debug,
        LogMode::Production => UnifiedLogLevel::Warn,
        LogMode::Debug => UnifiedLogLevel::Trace,
    }
}

/// The kind that the `WEZTERM_LOG_MODE` setting names.
pub open spec fn mode_of_setting(setting: Option<Seq<char>>) -> LogMode {
    match setting {
        Some(v) => if v == "development"@ || v == "dev"@ {
            LogMode::Development
        } else if v == "production"@ || v == "prod"@ {
            LogMode::Production
        } else if v == "debug"@ {
            LogMode::Debug
        } else {
            LogMode::Standard
        },
        None => LogMode::Standard,
    }
}

impl LoggingStrategy {
    pub open spec fn levels_view(&self) -> Seq<(Seq<char>, UnifiedLogLevel)> {
        pairs_view(self.component_levels@)
    }

    pub open spec fn wf(&self) -> bool {
        keys_distinct(self.levels_view())
    }

    /// The level that applies to a component: its own, or the default.
    pub open spec fn level_for(&self, component: Seq<char>) -> UnifiedLogLevel {
        match lookup(self.levels_view(), component) {
            Some(l) => l,
            None => self.default_level,
        }
    }

    pub open spec fn targets_view(&self) -> Seq<Seq<char>> {
        self.performance_targets@.map_values(|s: String| s@)
    }

    /// Info by default, with a level per component, two rate limits, seven
    /// timed operations, and structured output to stdout and a JSON file.
    pub fn default() -> (r: Self)
        ensures
            r.wf(),
            r.default_level == UnifiedLogLevel::Info,
            r.levels_view() == default_component_levels(),
            r.targets_view() == seq![
                "process.start"@,
                "process.stop"@,
                "room.create"@,
                "room.switch"@,
                "config.load"@,
                "sync.apply_change"@,
                "task.execute"@,
            ],
            r.structured_output,
            forall|k: Seq<char>| #[trigger] r.level_for(k) == mode_level(LogMode::Standard, k),
    {
        let levels = [
            ("process", UnifiedLogLevel::Info),
            ("room", UnifiedLogLevel::Info),
            ("config", UnifiedLogLevel::Info),
            ("ipc", UnifiedLogLevel::Debug),
            ("sync", UnifiedLogLevel::Debug),
            ("monitoring", UnifiedLogLevel::Warn),
            ("performance", UnifiedLogLevel::Info),
            ("error", UnifiedLogLevel::Error),
            ("task", UnifiedLogLevel::Info),
            ("dashboard", UnifiedLogLevel::Warn),
        ];
        let component_levels = levels_vec(&levels);
        assert(pairs_view(component_levels@) =~= default_component_levels());
        proof {
            lemma_default_names_distinct();
        }
        let mut rate_limits: Vec<(String, RateLimit)> = Vec::new();
        rate_limits.push(
            (
                String::from_str("heartbeat"),
                RateLimit {
                    target: String::from_str("process.heartbeat"),
                    window_seconds: 60,
                    max_logs: 5,
                    sampling_percent: 10,
                },
            ),
        );
        rate_limits.push(
            (
                String::from_str("file_watch"),
                RateLimit {
                    target: String::from_str("sync.file_watch"),
                    window_seconds: 30,
                    max_logs: 10,
                    sampling_percent: 20,
                },
            ),
        );
        let targets = [
            "process.start",
            "process.stop",
            "room.create",
            "room.switch",
            "config.load",
            "sync.apply_change",
            "task.execute",
        ];
        let performance_targets = strings_vec(&targets);
        let r = LoggingStrategy {
            default_level: UnifiedLogLevel::Info,
            component_levels,
            rate_limits,
            performance_targets,
            structured_output: true,
            outputs: vec![
                LogOutput::Stdout,
                LogOutput::StructuredFile {
                    path: String::from_str("logs/wezterm-parallel.json"),
                    max_size_mb: 100,
                    max_files: 10,
                },
            ],
        };
        assert(r.targets_view() =~= seq![
            "process.start"@,
            "process.stop"@,
            "room.create"@,
            "room.switch"@,
            "config.load"@,
            "sync.apply_change"@,
            "task.execute"@,
        ]);
        r
    }

    /// The level that applies to a component: its own, or the default.
    pub fn get_log_level(&self, component: &str) -> (l: UnifiedLogLevel)
        requires
            self.wf(),
        ensures
            l == self.level_for(component@),
    {
        match get_value(&self.component_levels, component) {
            Some(l) => l,
            None => self.default_level,
        }
    }

    /// Whether an entry is held back by a rate limit. Limits are matched by
    /// target but not yet enforced, so no entry is held back.
    pub fn should_rate_limit(&self, context: &LogContext) -> (b: bool)
        ensures
            !b,
    {
        false
    }

    /// Whether the operation of the context is timed: a target names it as
    /// `component.operation`, or a target ending in `*` (such as `process.*`)
    /// begins the same way.
    pub fn should_measure_performance(&self, context: &LogContext) -> (b: bool)
        ensures
            b == exists|j: int|
                0 <= j < self.targets_view().len() && #[trigger] target_matches(
                    self.targets_view()[j],
                    target_of(*context),
                ),
    {
        let mut target = context.component.clone();
        target.append(".");
        target.append(context.operation.as_str());
        let mut i: usize = 0;
        while i < self.performance_targets.len()
            invariant
                0 <= i <= self.performance_targets@.len(),
                target@ == target_of(*context),
                forall|j: int| 0 <= j < i ==> !target_matches(#[trigger] self.targets_view()[j], target@),
            decreases self.performance_targets.len() - i,
        {
            let t = self.performance_targets[i].as_str();
            assert(self.targets_view()[i as int] == t@);
            if matches_target(t, target.as_str()) {
                return true;
            }
            i = i + 1;
        }
        false
    }

    /// Whether a record is logged: its level reaches the level of its
    /// component, and no rate limit holds it back.
    pub fn admits(&self, record: &LogRecord) -> (b: bool)
        requires
            self.wf(),
        ensures
            b == (level_rank(record.level) >= level_rank(self.level_for(record.context.component@))),
    {
        let threshold = self.get_log_level(record.context.component.as_str());
        passes(record.level, threshold) && !self.should_rate_limit(&record.context)
    }

    /// Sets the level of one component.
    pub fn set_level(&mut self, component: &str, level: UnifiedLogLevel)
        requires
            old(self).wf(),
        ensures
            final(self).wf(),
            final(self).default_level == old(self).default_level,
            final(self).level_for(component@) == level,
            forall|k: Seq<char>|
                k != component@ ==> #[trigger] final(self).level_for(k) == old(self).level_for(k),
            final(self).targets_view() == old(self).targets_view(),
            final(self).structured_output == old(self).structured_output,
            final(self).rate_limits == old(self).rate_limits,
    {
        set_value(&mut self.component_levels, String::from_str(component), level);
    }

    /// For development: debug by default, process, room and config at debug,
    /// IPC at trace, output also to plain and structured files.
    pub fn development() -> (r: Self)
        ensures
            r.wf(),
            r.default_level == UnifiedLogLevel::Debug,
            r.level_for("process"@) == UnifiedLogLevel::Debug,
            r.level_for("room"@) == UnifiedLogLevel::Debug,
            r.level_for("config"@) == UnifiedLogLevel::Debug,
            r.level_for("ipc"@) == UnifiedLogLevel::Trace,
            forall|k: Seq<char>|
                k != "process"@ && k != "room"@ && k != "config"@ && k != "ipc"@ ==> #[trigger] r.level_for(k)
                    == match lookup(default_component_levels(), k) {
                    Some(l) => l,
                    None => UnifiedLogLevel::Debug,
                },
            forall|k: Seq<char>| #[trigger] r.level_for(k) == mode_level(LogMode::Development, k),
    {
        proof {
            lemma_default_names_distinct();
        }
        let mut s = Self::default();
        s.default_level = UnifiedLogLevel::Debug;
        s.outputs = vec![
            LogOutput::Stdout,
            LogOutput::File { path: String::from_str("logs/dev.log"), max_size_mb: 50, max_files: 5 },
            LogOutput::StructuredFile {
                path: String::from_str("logs/dev-structured.json"),
                max_size_mb: 50,
                max_files: 5,
            },
        ];
        s.set_level("process", UnifiedLogLevel::Debug);
        s.set_level("room", UnifiedLogLevel::Debug);
        s.set_level("config", UnifiedLogLevel::Debug);
        s.set_level("ipc", UnifiedLogLevel::Trace);
        s
    }

    /// For production: warn by default, process and room at info, config at
    /// warn, errors at error, output to the system log and a JSON file.
    pub fn production() -> (r: Self)
        ensures
            r.wf(),
            r.default_level == UnifiedLogLevel::Warn,
            r.level_for("process"@) == UnifiedLogLevel::Info,
            r.level_for("room"@) == UnifiedLogLevel::Info,
            r.level_for("config"@) == UnifiedLogLevel::Warn,
            r.level_for("error"@) == UnifiedLogLevel::Error,
            forall|k: Seq<char>|
                k != "process"@ && k != "room"@ && k != "config"@ && k != "error"@ ==> #[trigger] r.level_for(k)
                    == match lookup(default_component_levels(), k) {
                    Some(l) => l,
                    None => UnifiedLogLevel::Warn,
                },
            forall|k: Seq<char>| #[trigger] r.level_for(k) == mode_level(LogMode::Production, k),
    {
        proof {
            lemma_default_names_distinct();
        }
        let mut s = Self::default();
        s.default_level = UnifiedLogLevel::Warn;
        s.outputs = vec![
            LogOutput::System,
            LogOutput::StructuredFile {
                path: String::from_str("/var/log/wezterm-parallel/app.json"),
                max_size_mb: 200,
                max_files: 20,
            },
        ];
        s.set_level("process", UnifiedLogLevel::Info);
        s.set_level("room", UnifiedLogLevel::Info);
        s.set_level("config", UnifiedLogLevel::Warn);
        s.set_level("error", UnifiedLogLevel::Error);
        s
    }

    /// For debugging: trace by default and for the main components, no rate
    /// limits, every operation of the main components timed.
    pub fn debug() -> (r: Self)
        ensures
            r.wf(),
            r.default_level == UnifiedLogLevel::Trace,
            r.level_for("process"@) == UnifiedLogLevel::Trace,
            r.level_for("room"@) == UnifiedLogLevel::Trace,
            r.level_for("config"@) == UnifiedLogLevel::Trace,
            r.level_for("ipc"@) == UnifiedLogLevel::Trace,
            r.level_for("sync"@) == UnifiedLogLevel::Trace,
            r.level_for("monitoring"@) == UnifiedLogLevel::Trace,
            r.level_for("task"@) == UnifiedLogLevel::Trace,
            forall|k: Seq<char>| #[trigger] r.level_for(k) == mode_level(LogMode::Debug, k),
            r.rate_limits@.len() == 0,
            r.targets_view() == seq![
                "process.*"@,
                "room.*"@,
                "config.*"@,
                "ipc.*"@,
                "sync.*"@,
                "task.*"@,
            ],
    {
        proof {
            lemma_default_names_distinct();
        }
        let mut s = Self::default();
        s.default_level = UnifiedLogLevel::Trace;
        s.outputs = vec![
            LogOutput::Stdout,
            LogOutput::StructuredFile {
                path: String::from_str("logs/debug-trace.json"),
                max_size_mb: 500,
                max_files: 3,
            },
        ];
        s.rate_limits = Vec::new();
        let targets = ["process.*", "room.*", "config.*", "ipc.*", "sync.*", "task.*"];
        s.performance_targets = strings_vec(&targets);
        assert(s.targets_view() =~= seq![
            "process.*"@,
            "room.*"@,
            "config.*"@,
            "ipc.*"@,
            "sync.*"@,
            "task.*"@,
        ]);
        s.set_level("process", UnifiedLogLevel::Trace);
        s.set_level("room", UnifiedLogLevel::Trace);
        s.set_level("config", UnifiedLogLevel::Trace);
        s.set_level("ipc", UnifiedLogLevel::Trace);
        s.set_level("sync", UnifiedLogLevel::Trace);
        s.set_level("monitoring", UnifiedLogLevel::Trace);
        s.set_level("task", UnifiedLogLevel::Trace);
        s
    }
}

/// Holds the strategy in force.
#[derive(Debug)]
pub struct StrategyManager {
    current_strategy: LoggingStrategy,
}

impl StrategyManager {
    pub closed spec fn strategy(&self) -> LoggingStrategy {
        self.current_strategy
    }

    pub fn new(strategy: LoggingStrategy) -> (m: Self)
        ensures
            m.strategy() == strategy,
    {
        StrategyManager { current_strategy: strategy }
    }

    /// The strategy in force.
    pub fn get_strategy(&self) -> (s: &LoggingStrategy)
        ensures
            *s == self.strategy(),
    {
        &self.current_strategy
    }

    /// Sets the level of one component in the strategy in force.
    pub fn set_component_level(&mut self, component: &str, level: UnifiedLogLevel)
        requires
            old(self).strategy().wf(),
        ensures
            final(self).strategy().wf(),
            final(self).strategy().default_level == old(self).strategy().default_level,
            final(self).strategy().level_for(component@) == level,
            forall|k: Seq<char>|
                k != component@ ==> #[trigger] final(self).strategy().level_for(k) == old(
                    self,
                ).strategy().level_for(k),
    {
        self.current_strategy.set_level(component, level);
    }

    /// Puts another strategy in force.
    pub fn update_strategy(&mut self, strategy: LoggingStrategy)
        ensures
            final(self).strategy() == strategy,
    {
        self.current_strategy = strategy;
    }

    /// The strategy that the `WEZTERM_LOG_MODE` setting names: `development`
    /// or `dev`, `production` or `prod`, `debug`; the default one otherwise.
    pub fn from_environment(setting: Option<&str>) -> (m: Self)
        ensures
            m.strategy().wf(),
            m.strategy().default_level == mode_default(
                mode_of_setting(
                    match setting {
                        Some(v) => Some(v@),
                        None => None,
                    },
                ),
            ),
            forall|k: Seq<char>|
                #[trigger] m.strategy().level_for(k) == mode_level(
                    mode_of_setting(
                        match setting {
                            Some(v) => Some(v@),
                            None => None,
                        },
                    ),
                    k,
                ),
    {
        let strategy = match setting {
            Some(v) => {
                let s = String::from_str(v);
                if eq_str(&s, "development") || eq_str(&s, "dev") {
                    LoggingStrategy::development()
                } else if eq_str(&s, "production") || eq_str(&s, "prod") {
                    LoggingStrategy::production()
                } else if eq_str(&s, "debug") {
                    LoggingStrategy::debug()
                } else {
                    LoggingStrategy::default()
                }
            },
            None => LoggingStrategy::default(),
        };
        Self::new(strategy)
    }
}

} // verus!
