//! Turning what a component asks to log into stamped entries, and the plain
//! one-line form in which entries are written.
//!
//! Reading the clock and writing entries out happen outside.

use super::level::level_rank;
use super::strategy::StrategyManager;
use super::{
    LogContext, LogRecord, UnifiedLogEntry, UnifiedLogLevel, level_name, metadata_view, opt_text,
};
use crate::monitoring::health::{DetailValue, DetailView};
use crate::text::{
    bool_text, decimal, join, join_strings, push_bool, push_decimal, signed_decimal,
    signed_decimal_string, strings_view,
};
use vstd::prelude::*;

verus! {

/// The hexadecimal digit of `n` (below 16), in lower case.
pub open spec fn hex_digit(n: nat) -> char {
    if n < 10 {
        crate::text::digit_char(n)
    } else if n == 10 {
        'a'
    } else if n == 11 {
        'b'
    } else if n == 12 {
        'c'
    } else if n == 13 {
        'd'
    } else if n == 14 {
        'e'
    } else {
        'f'
    }
}

/// How a character is written inside a JSON string: quote, backslash and the
/// control characters below U+0020 are escaped, the latter as `\u00xx` unless
/// they have a short form; every other character is written as it is.
pub open spec fn json_escape_char(c: char) -> Seq<char> {
    if c == '"' {
        seq!['\\', '"']
    } else if c == '\\' {
        seq!['\\', '\\']
    } else if c == '\n' {
        seq!['\\', 'n']
    } else if c == '\r' {
        seq!['\\', 'r']
    } else if c == '\t' {
        seq!['\\', 't']
    } else if c == '\x08' {
        seq!['\\', 'b']
    } else if c == '\x0c' {
        seq!['\\', 'f']
    } else if (c as nat) < 0x20 {
        seq!['\\', 'u', '0', '0', hex_digit((c as nat) / 16), hex_digit((c as nat) % 16)]
    } else {
        seq![c]
    }
}

pub open spec fn json_escape(s: Seq<char>) -> Seq<char>
    decreases s.len(),
{
    if s.len() == 0 {
        s
    } else {
        json_escape(s.drop_last()) + json_escape_char(s.last())
    }
}

/// A text as a JSON string.
pub open spec fn json_quoted(s: Seq<char>) -> Seq<char> {
    seq!['"'] + json_escape(s) + seq!['"']
}

/// Writes a text as a JSON string through `serde_json::to_string`, which
/// escapes as `json_quoted` states and cannot fail on a `str`.
#[verifier::external_body]
pub(crate) fn json_string_text(s: &str) -> (r: String)
    ensures
        r@ == json_quoted(s@),
{
    match serde_json::to_string(s) {
        Ok(t) => t,
        Err(_) => String::new(),
    }
}

/// A metadata value as JSON text.
pub open spec fn json_value_text(v: DetailView) -> Seq<char> {
    match v {
        DetailView::Number(n) => decimal(n),
        DetailView::Signed(n) => signed_decimal(n),
        DetailView::Text(s) => json_quoted(s),
        DetailView::Flag(b) => bool_text(b),
        DetailView::Real(s) => s,
        DetailView::Null => "null"@,
    }
}

pub(crate) fn json_value_string(v: &DetailValue) -> (s: String)
    ensures
        s@ == json_value_text(v@),
{
    match v {
        DetailValue::Number(n) => crate::text::decimal_string(*n),
        DetailValue::Signed(n) => signed_decimal_string(*n),
        DetailValue::Text(t) => json_string_text(t.as_str()),
        DetailValue::Flag(b) => {
            let mut s = String::new();
            push_bool(&mut s, *b);
            s
        },
        DetailValue::Real(t) => t.clone(),
        DetailValue::Null => String::from_str("null"),
    }
}

/// `key=value` for each metadata entry, the value as JSON.
pub open spec fn json_pairs(m: Seq<(Seq<char>, DetailView)>) -> Seq<Seq<char>> {
    m.map_values(|p: (Seq<char>, DetailView)| p.0 + "="@ + json_value_text(p.1))
}

pub open spec fn opt_part(o: Option<String>, before: Seq<char>, after: Seq<char>) -> Seq<char> {
    match o {
        Some(v) => before + v@ + after,
        None => Seq::empty(),
    }
}

pub open spec fn duration_part(d: Option<u64>) -> Seq<char> {
    match d {
        Some(d) => " ("@ + decimal(d as nat) + "ms)"@,
        None => Seq::empty(),
    }
}

pub open spec fn metadata_part(m: Seq<(String, DetailValue)>) -> Seq<char> {
    if m.len() > 0 {
        " ["@ + join(json_pairs(metadata_view(m)), " "@) + "]"@
    } else {
        Seq::empty()
    }
}

/// The plain one-line form of an entry.
pub open spec fn plain_line(e: UnifiedLogEntry) -> Seq<char> {
    e.timestamp@ + " ["@ + level_name(e.level) + "] ["@ + e.context.component@ + ":"@
        + e.context.operation@ + "]"@ + opt_part(e.context.entity_id, " ["@, "]"@) + opt_part(
        e.context.session_id,
        " (session:"@,
        ")"@,
    ) + " "@ + e.message@ + duration_part(e.duration_ms) + opt_part(e.error, " ERROR: "@, ""@)
        + metadata_part(e.context.metadata@) + opt_part(e.location, " @"@, ""@)
}

fn push_opt(out: &mut String, o: &Option<String>, before: &str, after: &str)
    ensures
        final(out)@ == old(out)@ + opt_part(*o, before@, after@),
{
    match o {
        Some(v) => {
            out.append(before);
            out.append(v.as_str());
            out.append(after);
        },
        None => {},
    }
}

fn push_metadata(out: &mut String, m: &Vec<(String, DetailValue)>)
    ensures
        final(out)@ == old(out)@ + metadata_part(m@),
{
    if m.len() > 0 {
        let mut parts: Vec<String> = Vec::new();
        let mut i: usize = 0;
        while i < m.len()
            invariant
                0 <= i <= m@.len(),
                strings_view(parts@) == json_pairs(metadata_view(m@)).take(i as int),
            decreases m.len() - i,
        {
            let mut p = m[i].0.clone();
            p.append("=");
            let v = json_value_string(&m[i].1);
            p.append(v.as_str());
            let ghost before = strings_view(parts@);
            parts.push(p);
            assert(strings_view(parts@) =~= before.push(p@));
            assert(json_pairs(metadata_view(m@)).take(i + 1) =~= json_pairs(metadata_view(m@)).take(
                i as int,
            ).push(p@));
            i = i + 1;
        }
        assert(json_pairs(metadata_view(m@)).take(i as int) =~= json_pairs(metadata_view(m@)));
        let joined = join_strings(&parts, " ");
        out.append(" [");
        out.append(joined.as_str());
        out.append("]");
    }
}

/// The plain one-line form of an entry: timestamp, level, component and
/// operation, entity, session, message, duration, error, metadata as JSON
/// values, and location.
pub fn format_human_readable(entry: &UnifiedLogEntry) -> (s: String)
    ensures
        s@ == plain_line(*entry),
{
    proof {
        reveal_strlit("");
    }
    let ctx = &entry.context;
    let mut out = entry.timestamp.clone();
    out.append(" [");
    out.append(entry.level.as_str());
    out.append("] [");
    out.append(ctx.component.as_str());
    out.append(":");
    out.append(ctx.operation.as_str());
    out.append("]");
    push_opt(&mut out, &ctx.entity_id, " [", "]");
    push_opt(&mut out, &ctx.session_id, " (session:", ")");
    out.append(" ");
    out.append(entry.message.as_str());
    match entry.duration_ms {
        Some(d) => {
            out.append(" (");
            push_decimal(&mut out, d);
            out.append("ms)");
        },
        None => {},
    }
    push_opt(&mut out, &entry.error, " ERROR: ", "");
    push_metadata(&mut out, &ctx.metadata);
    push_opt(&mut out, &entry.location, " @", "");
    assert(out@ =~= plain_line(*entry));
    out
}

/// Whether entries of a level carry the place they were logged from.
pub open spec fn carries_location(l: UnifiedLogLevel) -> bool {
    l == UnifiedLogLevel::Debug || l == UnifiedLogLevel::Trace
}

/// The latest time, in seconds since the epoch, that chrono can represent
/// (the last second of the year 262142).
pub const MAX_STAMP_SECS: u64 = 8_210_266_876_799;

/// The RFC 3339 text of a time in seconds since the epoch, as chrono writes it.
pub uninterp spec fn rfc3339_text(secs: u64) -> Seq<char>;

/// Writes a time given in seconds since the epoch in RFC 3339, through
/// `chrono::DateTime::<Utc>::from_timestamp` and `to_rfc3339`; the text is
/// claimed to depend on the seconds alone. Within chrono's range, which the
/// `requires` keeps to, `from_timestamp` always gives a time.
#[verifier::external_body]
fn rfc3339_of(secs: u64) -> (s: String)
    requires
        secs <= MAX_STAMP_SECS,
    ensures
        s@ == rfc3339_text(secs),
{
    match chrono::DateTime::from_timestamp(secs as i64, 0) {
        Some(t) => t.to_rfc3339(),
        None => String::new(),
    }
}

/// The entry for a record, stamped with the time `now_secs` in RFC 3339;
/// debug and trace entries also carry `location`.
pub fn create_log_entry(record: LogRecord, now_secs: u64, location: &str) -> (e: UnifiedLogEntry)
    requires
        now_secs <= MAX_STAMP_SECS,
    ensures
        e.timestamp@ == rfc3339_text(now_secs),
        e.level == record.level,
        e.context == record.context,
        e.message == record.message,
        e.error == record.error,
        e.duration_ms == record.duration_ms,
        carries_location(record.level) ==> opt_text(e.location) == Some(location@),
        !carries_location(record.level) ==> e.location is None,
{
    let location = if record.level == UnifiedLogLevel::Debug || record.level == UnifiedLogLevel::Trace {
        Some(String::from_str(location))
    } else {
        None
    };
    UnifiedLogEntry {
        timestamp: rfc3339_of(now_secs),
        level: record.level,
        context: record.context,
        message: record.message,
        error: record.error,
        duration_ms: record.duration_ms,
        location,
    }
}

/// The entry to write for a record under the strategy in force, stamped with
/// the current time, or `None` when its level is below the level of its
/// component (no rate limit holds entries back yet). Whatever time the clock
/// gives, an entry is stamped with some time that chrono can represent, or
/// none is made.
pub fn log_with_context(manager: &StrategyManager, record: LogRecord, location: &str) -> (r: Option<
    UnifiedLogEntry,
>)
    requires
        manager.strategy().wf(),
    ensures
        level_rank(record.level) < level_rank(manager.strategy().level_for(record.context.component@))
            ==> r is None,
        match r {
            Some(e) => level_rank(record.level) >= level_rank(
                manager.strategy().level_for(record.context.component@),
            ) && (exists|t: u64| t <= MAX_STAMP_SECS && e.timestamp@ == rfc3339_text(t))
                && e.level == record.level && e.context == record.context && e.message
                == record.message && e.error == record.error && e.duration_ms == record.duration_ms
                && (carries_location(record.level) ==> opt_text(e.location) == Some(location@)) && (
            !carries_location(record.level) ==> e.location is None),
            None => true,
        },
{
    let now = crate::monitoring::current_timestamp();
    log_entry_at(manager, record, now, location)
}

/// The entry to write for a record under the strategy in force, stamped with
/// the time `now_secs`: `None` exactly when its level is below the level of
/// its component, or the time is past what chrono can represent.
pub fn log_entry_at(manager: &StrategyManager, record: LogRecord, now_secs: u64, location: &str) -> (r:
    Option<UnifiedLogEntry>)
    requires
        manager.strategy().wf(),
    ensures
        r is None <==> (level_rank(record.level) < level_rank(
            manager.strategy().level_for(record.context.component@),
        ) || now_secs > MAX_STAMP_SECS),
        match r {
            Some(e) => e.timestamp@ == rfc3339_text(now_secs) && e.level == record.level && e.context
                == record.context && e.message == record.message && e.error == record.error
                && e.duration_ms == record.duration_ms && (carries_location(record.level) ==> opt_text(
                e.location,
            ) == Some(location@)) && (!carries_location(record.level) ==> e.location is None),
            None => true,
        },
{
    let strategy = manager.get_strategy();
    if !strategy.admits(&record) {
        return None;
    }
    if now_secs > MAX_STAMP_SECS {
        return None;
    }
    Some(create_log_entry(record, now_secs, location))
}

/// Sets the level of a component in the strategy in force, and gives the
/// record that reports the change.
pub fn set_component_log_level(
    manager: &mut StrategyManager,
    component: &str,
    level: UnifiedLogLevel,
) -> (r: LogRecord)
    requires
        old(manager).strategy().wf(),
    ensures
        final(manager).strategy().wf(),
        final(manager).strategy().default_level == old(manager).strategy().default_level,
        final(manager).strategy().level_for(component@) == level,
        forall|k: Seq<char>|
            k != component@ ==> #[trigger] final(manager).strategy().level_for(k) == old(
                manager,
            ).strategy().level_for(k),
        r.level == UnifiedLogLevel::Info,
        r.context.component@ == "logging"@,
        r.context.operation@ == "level_change"@,
        r.context.entity_id is None,
        metadata_view(r.context.metadata@) == seq![
            ("component"@, DetailView::Text(component@)),
            ("level"@, DetailView::Text(level_name(level))),
        ],
        r.message@ == "Changed log level for "@ + component@ + " to "@ + level_name(level),
        r.error is None,
        r.duration_ms is None,
{
    manager.set_component_level(component, level);
    let mut context = LogContext::new("logging", "level_change");
    context.metadata = vec![
        (String::from_str("component"), DetailValue::Text(String::from_str(component))),
        (String::from_str("level"), DetailValue::Text(String::from_str(level.as_str()))),
    ];
    let mut m = String::from_str("Changed log level for ");
    m.append(component);
    m.append(" to ");
    m.append(level.as_str());
    let r = LogRecord { level: UnifiedLogLevel::Info, context, message: m, error: None, duration_ms: None };
    assert(metadata_view(r.context.metadata@) =~= seq![
        ("component"@, DetailView::Text(component@)),
        ("level"@, DetailView::Text(level_name(level))),
    ]);
    r
}

/// Puts a strategy in force, and gives the record that reports it.
pub fn update_logging_strategy(
    manager: &mut StrategyManager,
    strategy: super::strategy::LoggingStrategy,
) -> (r: LogRecord)
    ensures
        final(manager).strategy() == strategy,
        r.level == UnifiedLogLevel::Info,
        r.context.component@ == "logging"@,
        r.context.operation@ == "strategy_update"@,
        r.context.entity_id is None,
        r.context.metadata@.len() == 0,
        r.message@ == "Updated logging strategy"@,
        r.error is None,
        r.duration_ms is None,
{
    manager.update_strategy(strategy);
    LogRecord {
        level: UnifiedLogLevel::Info,
        context: LogContext::new("logging", "strategy_update"),
        message: String::from_str("Updated logging strategy"),
        error: None,
        duration_ms: None,
    }
}

} // verus!
