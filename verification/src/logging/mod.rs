//! Structured logging: levels, the context of an entry, the entries the
//! framework's components produce, how they are formatted and which are kept.
//!
//! Writing an entry out (to the console or a file) happens outside.

pub mod enhancer;
pub mod formatter;
pub mod level;
pub mod strategy;

pub use level::UnifiedLogLevel;

use crate::assoc::{keys_distinct, lookup, pairs_view, set_value};
use crate::monitoring::health::{DetailValue, DetailView};
use crate::text::{decimal, push_decimal, signed_decimal, signed_decimal_string};
use vstd::prelude::*;

verus! {

/// The upper-case form of a text, as `str::to_uppercase` gives it.
pub uninterp spec fn uppercase(s: Seq<char>) -> Seq<char>;

/// Upper-cases a text through `str::to_uppercase`; the result is claimed to be a
/// function of the text alone, and nothing more.
#[verifier::external_body]
fn to_uppercase(s: &str) -> (r: String)
    ensures
        r@ == uppercase(s@),
{
    s.to_uppercase()
}

/// The upper-case name of a level.
pub open spec fn level_name(l: UnifiedLogLevel) -> Seq<char> {
    match l {
        UnifiedLogLevel::Trace => "TRACE"@,
        UnifiedLogLevel::Debug => "DEBUG"@,
        UnifiedLogLevel::Info => "INFO"@,
        UnifiedLogLevel::Warn => "WARN"@,
        UnifiedLogLevel::Error => "ERROR"@,
    }
}

/// The level named by an upper-case name.
pub open spec fn level_of_name(s: Seq<char>) -> Option<UnifiedLogLevel> {
    if s == "TRACE"@ {
        Some(UnifiedLogLevel::Trace)
    } else if s == "DEBUG"@ {
        Some(UnifiedLogLevel::Debug)
    } else if s == "INFO"@ {
        Some(UnifiedLogLevel::Info)
    } else if s == "WARN"@ {
        Some(UnifiedLogLevel::Warn)
    } else if s == "ERROR"@ {
        Some(UnifiedLogLevel::Error)
    } else {
        None
    }
}

impl UnifiedLogLevel {
    /// The upper-case name of the level.
    pub fn as_str(&self) -> (s: &'static str)
        ensures
            s@ == level_name(*self),
    {
        match self {
            UnifiedLogLevel::Trace => "TRACE",
            UnifiedLogLevel::Debug => "DEBUG",
            UnifiedLogLevel::Info => "INFO",
            UnifiedLogLevel::Warn => "WARN",
            UnifiedLogLevel::Error => "ERROR",
        }
    }

    /// The level whose name is `s` in any case.
    pub fn from_str(s: &str) -> (r: Option<Self>)
        ensures
            r == level_of_name(uppercase(s@)),
    {
        let u = to_uppercase(s);
        level_of_upper_name(u.as_str())
    }
}

/// The level whose upper-case name is `u`.
pub fn level_of_upper_name(u: &str) -> (r: Option<UnifiedLogLevel>)
    ensures
        r == level_of_name(u@),
{
    let u = String::from_str(u);
    if crate::text::eq_str(&u, "TRACE") {
        Some(UnifiedLogLevel::Trace)
    } else if crate::text::eq_str(&u, "DEBUG") {
        Some(UnifiedLogLevel::Debug)
    } else if crate::text::eq_str(&u, "INFO") {
        Some(UnifiedLogLevel::Info)
    } else if crate::text::eq_str(&u, "WARN") {
        Some(UnifiedLogLevel::Warn)
    } else if crate::text::eq_str(&u, "ERROR") {
        Some(UnifiedLogLevel::Error)
    } else {
        None
    }
}

/// Reading back the name of a level gives the level, whatever the case
/// conversion does to a name that is already upper case.
pub proof fn level_name_round_trip(l: UnifiedLogLevel)
    ensures
        level_of_name(level_name(l)) == Some(l),
{
    reveal_strlit("TRACE");
    reveal_strlit("DEBUG");
    reveal_strlit("INFO");
    reveal_strlit("WARN");
    reveal_strlit("ERROR");
    assert("DEBUG"@[0] != "TRACE"@[0]);
    assert("INFO"@[0] != "TRACE"@[0] && "INFO"@[0] != "DEBUG"@[0]);
    assert("WARN"@[0] != "TRACE"@[0] && "WARN"@[0] != "DEBUG"@[0] && "WARN"@[0] != "INFO"@[0]);
    assert("ERROR"@[0] != "TRACE"@[0] && "ERROR"@[0] != "DEBUG"@[0] && "ERROR"@[0] != "INFO"@[0]
        && "ERROR"@[0] != "WARN"@[0]);
}

/// Where an entry comes from and what it is about.
#[derive(Debug)]
pub struct LogContext {
    /// Component name (process, room, config, ipc, ...)
    pub component: String,
    /// Operation name (start, stop, create, send, ...)
    pub operation: String,
    pub entity_id: Option<String>,
    pub user_id: Option<String>,
    pub session_id: Option<String>,
    /// Further named values; no name occurs twice.
    pub metadata: Vec<(String, DetailValue)>,
}

pub open spec fn opt_text(o: Option<String>) -> Option<Seq<char>> {
    match o {
        Some(s) => Some(s@),
        None => None,
    }
}

/// The metadata as plain values.
pub open spec fn metadata_view(m: Seq<(String, DetailValue)>) -> Seq<(Seq<char>, DetailView)> {
    m.map_values(|p: (String, DetailValue)| (p.0@, p.1@))
}

impl LogContext {
    pub open spec fn wf(&self) -> bool {
        keys_distinct(pairs_view(self.metadata@))
    }

    /// A context for `operation` of `component`, with nothing else set.
    pub fn new(component: &str, operation: &str) -> (c: Self)
        ensures
            c.wf(),
            c.component@ == component@,
            c.operation@ == operation@,
            c.entity_id is None,
            c.user_id is None,
            c.session_id is None,
            c.metadata@.len() == 0,
    {
        let c = LogContext {
            component: String::from_str(component),
            operation: String::from_str(operation),
            entity_id: None,
            user_id: None,
            session_id: None,
            metadata: Vec::new(),
        };
        assert(pairs_view(c.metadata@) =~= Seq::<(Seq<char>, DetailValue)>::empty());
        c
    }

    /// The context with its entity set.
    pub fn with_entity_id(self, entity_id: &str) -> (c: Self)
        ensures
            c.component == self.component,
            c.operation == self.operation,
            opt_text(c.entity_id) == Some(entity_id@),
            c.user_id == self.user_id,
            c.session_id == self.session_id,
            c.metadata == self.metadata,
    {
        let mut c = self;
        c.entity_id = Some(String::from_str(entity_id));
        c
    }

    /// The context with its session set.
    pub fn with_session_id(self, session_id: &str) -> (c: Self)
        ensures
            c.component == self.component,
            c.operation == self.operation,
            c.entity_id == self.entity_id,
            c.user_id == self.user_id,
            opt_text(c.session_id) == Some(session_id@),
            c.metadata == self.metadata,
    {
        let mut c = self;
        c.session_id = Some(String::from_str(session_id));
        c
    }

    /// The context with `key` set to `value`, replacing an earlier value of `key`.
    pub fn with_metadata(self, key: &str, value: DetailValue) -> (c: Self)
        requires
            self.wf(),
        ensures
            c.wf(),
            c.component == self.component,
            c.operation == self.operation,
            c.entity_id == self.entity_id,
            c.session_id == self.session_id,
            lookup(pairs_view(c.metadata@), key@) == Some(value),
            forall|k: Seq<char>|
                k != key@ ==> lookup(#[trigger] pairs_view(c.metadata@), k) == lookup(
                    pairs_view(self.metadata@),
                    k,
                ),
    {
        let mut c = self;
        set_value(&mut c.metadata, String::from_str(key), value);
        c
    }
}

/// A log entry.
#[derive(Debug)]
pub struct UnifiedLogEntry {
    /// When, in ISO 8601
    pub timestamp: String,
    pub level: UnifiedLogLevel,
    pub context: LogContext,
    pub message: String,
    pub error: Option<String>,
    /// How long the logged work took
    pub duration_ms: Option<u64>,
    /// Source file and line, for debugging
    pub location: Option<String>,
}

/// An entry that a component asks to log, before it is stamped with the time.
#[derive(Debug)]
pub struct LogRecord {
    pub level: UnifiedLogLevel,
    pub context: LogContext,
    pub message: String,
    pub error: Option<String>,
    pub duration_ms: Option<u64>,
}

/// An error of a process.
pub fn log_process_error(process_id: &str, error: &str) -> (r: LogRecord)
    ensures
        r.level == UnifiedLogLevel::Error,
        r.context.component@ == "process"@,
        r.context.operation@ == "error"@,
        opt_text(r.context.entity_id) == Some(process_id@),
        r.context.metadata@.len() == 0,
        r.message@ == "Process error occurred"@,
        opt_text(r.error) == Some(error@),
        r.duration_ms is None,
{
    LogRecord {
        level: UnifiedLogLevel::Error,
        context: LogContext::new("process", "error").with_entity_id(process_id),
        message: String::from_str("Process error occurred"),
        error: Some(String::from_str(error)),
        duration_ms: None,
    }
}

/// A failed IPC connection.
pub fn log_connection_error(endpoint: &str, error: &str) -> (r: LogRecord)
    ensures
        r.level == UnifiedLogLevel::Error,
        r.context.component@ == "ipc"@,
        r.context.operation@ == "connection_error"@,
        opt_text(r.context.entity_id) == Some(endpoint@),
        r.context.metadata@.len() == 0,
        r.message@ == "IPC connection error to "@ + endpoint@,
        opt_text(r.error) == Some(error@),
        r.duration_ms is None,
{
    let mut m = String::from_str("IPC connection error to ");
    m.append(endpoint);
    LogRecord {
        level: UnifiedLogLevel::Error,
        context: LogContext::new("ipc", "connection_error").with_entity_id(endpoint),
        message: m,
        error: Some(String::from_str(error)),
        duration_ms: None,
    }
}

/// A configuration file that was loaded, and how long it took.
pub fn log_config_load(file_path: &str, load_time_ms: u64) -> (r: LogRecord)
    ensures
        r.level == UnifiedLogLevel::Info,
        r.context.component@ == "config"@,
        r.context.operation@ == "load"@,
        opt_text(r.context.entity_id) == Some(file_path@),
        r.context.metadata@.len() == 0,
        r.message@ == "Loaded configuration from "@ + file_path@,
        r.error is None,
        r.duration_ms == Some(load_time_ms),
{
    let mut m = String::from_str("Loaded configuration from ");
    m.append(file_path);
    LogRecord {
        level: UnifiedLogLevel::Info,
        context: LogContext::new("config", "load").with_entity_id(file_path),
        message: m,
        error: None,
        duration_ms: Some(load_time_ms),
    }
}

/// An error in a configuration file.
pub fn log_config_error(file_path: &str, error: &str) -> (r: LogRecord)
    ensures
        r.level == UnifiedLogLevel::Error,
        r.context.component@ == "config"@,
        r.context.operation@ == "error"@,
        opt_text(r.context.entity_id) == Some(file_path@),
        r.context.metadata@.len() == 0,
        r.message@ == "Configuration error in "@ + file_path@,
        opt_text(r.error) == Some(error@),
        r.duration_ms is None,
{
    let mut m = String::from_str("Configuration error in ");
    m.append(file_path);
    LogRecord {
        level: UnifiedLogLevel::Error,
        context: LogContext::new("config", "error").with_entity_id(file_path),
        message: m,
        error: Some(String::from_str(error)),
        duration_ms: None,
    }
}

fn meta(key: &str, value: DetailValue) -> (p: (String, DetailValue))
    ensures
        p.0@ == key@,
        p.1 == value,
{
    (String::from_str(key), value)
}

/// A process being started with `command`.
pub fn log_process_start(process_id: &str, command: &str) -> (r: LogRecord)
    ensures
        r.level == UnifiedLogLevel::Info,
        r.context.component@ == "process"@,
        r.context.operation@ == "start"@,
        opt_text(r.context.entity_id) == Some(process_id@),
        metadata_view(r.context.metadata@) == seq![("command"@, DetailView::Text(command@))],
        r.message@ == "Starting process: "@ + command@,
        r.error is None,
        r.duration_ms is None,
{
    let mut context = LogContext::new("process", "start").with_entity_id(process_id);
    context.metadata = vec![meta("command", DetailValue::Text(String::from_str(command)))];
    let mut m = String::from_str("Starting process: ");
    m.append(command);
    let r = LogRecord { level: UnifiedLogLevel::Info, context, message: m, error: None, duration_ms: None };
    assert(metadata_view(r.context.metadata@) =~= seq![("command"@, DetailView::Text(command@))]);
    r
}

/// The message for a process that stopped with an exit code, or was terminated.
pub open spec fn stop_message(exit_code: Option<i32>) -> Seq<char> {
    match exit_code {
        Some(c) => if c == 0 {
            "Process stopped successfully"@
        } else {
            "Process stopped with exit code: "@ + signed_decimal(c as int)
        },
        None => "Process terminated"@,
    }
}

/// A process that stopped, with its exit code if it had one.
pub fn log_process_stop(process_id: &str, exit_code: Option<i32>) -> (r: LogRecord)
    ensures
        r.level == UnifiedLogLevel::Info,
        r.context.component@ == "process"@,
        r.context.operation@ == "stop"@,
        opt_text(r.context.entity_id) == Some(process_id@),
        metadata_view(r.context.metadata@) == seq![
            (
                "exit_code"@,
                match exit_code {
                    Some(c) => DetailView::Signed(c as int),
                    None => DetailView::Null,
                },
            ),
        ],
        r.message@ == stop_message(exit_code),
        r.error is None,
        r.duration_ms is None,
{
    let mut context = LogContext::new("process", "stop").with_entity_id(process_id);
    let value = match exit_code {
        Some(c) => DetailValue::Signed(c as i64),
        None => DetailValue::Null,
    };
    context.metadata = vec![meta("exit_code", value)];
    let message = match exit_code {
        Some(c) => if c == 0 {
            String::from_str("Process stopped successfully")
        } else {
            let mut m = String::from_str("Process stopped with exit code: ");
            let t = signed_decimal_string(c as i64);
            m.append(t.as_str());
            m
        },
        None => String::from_str("Process terminated"),
    };
    let r = LogRecord { level: UnifiedLogLevel::Info, context, message, error: None, duration_ms: None };
    assert(metadata_view(r.context.metadata@) =~= seq![
        (
            "exit_code"@,
            match exit_code {
                Some(c) => DetailView::Signed(c as int),
                None => DetailView::Null,
            },
        ),
    ]);
    r
}

/// A heartbeat of a process, with its status.
pub fn log_process_heartbeat(process_id: &str, status: &str) -> (r: LogRecord)
    ensures
        r.level == UnifiedLogLevel::Debug,
        r.context.component@ == "process"@,
        r.context.operation@ == "heartbeat"@,
        opt_text(r.context.entity_id) == Some(process_id@),
        metadata_view(r.context.metadata@) == seq![("status"@, DetailView::Text(status@))],
        r.message@ == "Process heartbeat: "@ + status@,
        r.error is None,
        r.duration_ms is None,
{
    let mut context = LogContext::new("process", "heartbeat").with_entity_id(process_id);
    context.metadata = vec![meta("status", DetailValue::Text(String::from_str(status)))];
    let mut m = String::from_str("Process heartbeat: ");
    m.append(status);
    let r = LogRecord { level: UnifiedLogLevel::Debug, context, message: m, error: None, duration_ms: None };
    assert(metadata_view(r.context.metadata@) =~= seq![("status"@, DetailView::Text(status@))]);
    r
}

/// An IPC message being sent.
pub fn log_message_send(from: &str, to: &str, message_type: &str, size_bytes: usize) -> (r: LogRecord)
    ensures
        r.level == UnifiedLogLevel::Debug,
        r.context.component@ == "ipc"@,
        r.context.operation@ == "send"@,
        opt_text(r.context.entity_id) == Some(from@),
        metadata_view(r.context.metadata@) == seq![
            ("to"@, DetailView::Text(to@)),
            ("message_type"@, DetailView::Text(message_type@)),
            ("size_bytes"@, DetailView::Number(size_bytes as nat)),
        ],
        r.message@ == "Sending "@ + message_type@ + " message to "@ + to@ + " ("@ + decimal(
            size_bytes as nat,
        ) + " bytes)"@,
        r.error is None,
        r.duration_ms is None,
{
    let mut context = LogContext::new("ipc", "send").with_entity_id(from);
    context.metadata = vec![
        meta("to", DetailValue::Text(String::from_str(to))),
        meta("message_type", DetailValue::Text(String::from_str(message_type))),
        meta("size_bytes", DetailValue::Number(size_bytes as u64)),
    ];
    let mut m = String::from_str("Sending ");
    m.append(message_type);
    m.append(" message to ");
    m.append(to);
    m.append(" (");
    push_decimal(&mut m, size_bytes as u64);
    m.append(" bytes)");
    let r = LogRecord { level: UnifiedLogLevel::Debug, context, message: m, error: None, duration_ms: None };
    assert(metadata_view(r.context.metadata@) =~= seq![
        ("to"@, DetailView::Text(to@)),
        ("message_type"@, DetailView::Text(message_type@)),
        ("size_bytes"@, DetailView::Number(size_bytes as nat)),
    ]);
    r
}

/// An IPC message that was received, and how long handling it took.
pub fn log_message_receive(from: &str, to: &str, message_type: &str, processing_time_ms: u64) -> (r:
    LogRecord)
    ensures
        r.level == UnifiedLogLevel::Debug,
        r.context.component@ == "ipc"@,
        r.context.operation@ == "receive"@,
        opt_text(r.context.entity_id) == Some(to@),
        metadata_view(r.context.metadata@) == seq![
            ("from"@, DetailView::Text(from@)),
            ("message_type"@, DetailView::Text(message_type@)),
        ],
        r.message@ == "Received "@ + message_type@ + " message from "@ + from@,
        r.error is None,
        r.duration_ms == Some(processing_time_ms),
{
    let mut context = LogContext::new("ipc", "receive").with_entity_id(to);
    context.metadata = vec![
        meta("from", DetailValue::Text(String::from_str(from))),
        meta("message_type", DetailValue::Text(String::from_str(message_type))),
    ];
    let mut m = String::from_str("Received ");
    m.append(message_type);
    m.append(" message from ");
    m.append(from);
    let r = LogRecord {
        level: UnifiedLogLevel::Debug,
        context,
        message: m,
        error: None,
        duration_ms: Some(processing_time_ms),
    };
    assert(metadata_view(r.context.metadata@) =~= seq![
        ("from"@, DetailView::Text(from@)),
        ("message_type"@, DetailView::Text(message_type@)),
    ]);
    r
}

/// A configuration file that was read again, and how many settings changed.
pub fn log_config_reload(file_path: &str, changes: usize) -> (r: LogRecord)
    ensures
        r.level == UnifiedLogLevel::Info,
        r.context.component@ == "config"@,
        r.context.operation@ == "reload"@,
        opt_text(r.context.entity_id) == Some(file_path@),
        metadata_view(r.context.metadata@) == seq![("changes"@, DetailView::Number(changes as nat))],
        r.message@ == "Reloaded configuration from "@ + file_path@ + " ("@ + decimal(changes as nat)
            + " changes)"@,
        r.error is None,
        r.duration_ms is None,
{
    let mut context = LogContext::new("config", "reload").with_entity_id(file_path);
    context.metadata = vec![meta("changes", DetailValue::Number(changes as u64))];
    let mut m = String::from_str("Reloaded configuration from ");
    m.append(file_path);
    m.append(" (");
    push_decimal(&mut m, changes as u64);
    m.append(" changes)");
    let r = LogRecord { level: UnifiedLogLevel::Info, context, message: m, error: None, duration_ms: None };
    assert(metadata_view(r.context.metadata@) =~= seq![("changes"@, DetailView::Number(changes as nat))]);
    r
}

/// The outcome of checking a configuration file: an error when it failed.
pub fn log_config_validation(file_path: &str, is_valid: bool, warnings: usize) -> (r: LogRecord)
    ensures
        r.level == if is_valid {
            UnifiedLogLevel::Info
        } else {
            UnifiedLogLevel::Error
        },
        r.context.component@ == "config"@,
        r.context.operation@ == "validation"@,
        opt_text(r.context.entity_id) == Some(file_path@),
        metadata_view(r.context.metadata@) == seq![
            ("is_valid"@, DetailView::Flag(is_valid)),
            ("warnings"@, DetailView::Number(warnings as nat)),
        ],
        r.message@ == if is_valid {
            "Configuration validation passed ("@ + decimal(warnings as nat) + " warnings)"@
        } else {
            "Configuration validation failed"@
        },
        r.error is None,
        r.duration_ms is None,
{
    let mut context = LogContext::new("config", "validation").with_entity_id(file_path);
    context.metadata = vec![
        meta("is_valid", DetailValue::Flag(is_valid)),
        meta("warnings", DetailValue::Number(warnings as u64)),
    ];
    let level = if is_valid {
        UnifiedLogLevel::Info
    } else {
        UnifiedLogLevel::Error
    };
    let message = if is_valid {
        let mut m = String::from_str("Configuration validation passed (");
        push_decimal(&mut m, warnings as u64);
        m.append(" warnings)");
        m
    } else {
        String::from_str("Configuration validation failed")
    };
    let r = LogRecord { level, context, message, error: None, duration_ms: None };
    assert(metadata_view(r.context.metadata@) =~= seq![
        ("is_valid"@, DetailView::Flag(is_valid)),
        ("warnings"@, DetailView::Number(warnings as nat)),
    ]);
    r
}

} // verus!
