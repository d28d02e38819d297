//! Turning log entries into lines of text.

use super::level::UnifiedLogLevel;
use super::{LogContext, UnifiedLogEntry, level_name, metadata_view, opt_text};
use crate::text::eq_str;
use crate::monitoring::health::{DetailValue, DetailView};
use crate::logging::enhancer::{json_quoted, json_string_text, json_value_string, json_value_text};
use crate::text::{
    bool_text, decimal, decimal_string, has_char, join, join_strings, push_bool, push_decimal,
    replace_all, replace_str, seq_less, signed_decimal, str_less, strings_view,
};
use vstd::prelude::*;

verus! {

/// The clock time `%H:%M:%S%.3f` of an RFC 3339 timestamp, when the text is one.
pub uninterp spec fn clock_time(timestamp: Seq<char>) -> Option<Seq<char>>;

/// Parses the timestamp as a `chrono::DateTime<Utc>` and formats its clock time
/// as `%H:%M:%S%.3f`; claimed to be a function of the text alone.
#[verifier::external_body]
fn parse_clock_time(timestamp: &str) -> (r: Option<String>)
    ensures
        match r {
            Some(s) => clock_time(timestamp@) == Some(s@),
            None => clock_time(timestamp@) is None,
        },
{
    timestamp.parse::<chrono::DateTime<chrono::Utc>>().ok().map(
        |dt| dt.format("%H:%M:%S%.3f").to_string(),
    )
}

/// The terminal colour code of a level.
pub open spec fn color_code(l: UnifiedLogLevel) -> Seq<char> {
    match l {
        UnifiedLogLevel::Trace => "\x1b[36m"@,
        UnifiedLogLevel::Debug => "\x1b[34m"@,
        UnifiedLogLevel::Info => "\x1b[32m"@,
        UnifiedLogLevel::Warn => "\x1b[33m"@,
        UnifiedLogLevel::Error => "\x1b[31m"@,
    }
}

/// The text of a metadata value: a string as it is, other values as JSON.
pub open spec fn value_text(v: DetailView) -> Seq<char> {
    match v {
        DetailView::Number(n) => decimal(n),
        DetailView::Text(s) => s,
        DetailView::Flag(b) => bool_text(b),
        DetailView::Real(s) => s,
        DetailView::Signed(n) => signed_decimal(n),
        DetailView::Null => "null"@,
    }
}

/// `s` with each `"` written `\"`.
pub open spec fn escape_quotes(s: Seq<char>) -> Seq<char>
    decreases s.len(),
{
    if s.len() == 0 {
        s
    } else if s.last() == '"' {
        escape_quotes(s.drop_last()) + seq!['\\', '"']
    } else {
        escape_quotes(s.drop_last()).push(s.last())
    }
}

/// `s` in quotes, its quotes escaped, when it holds a space, `=` or `"`;
/// otherwise `s` itself.
pub open spec fn quoted_if_needed(s: Seq<char>) -> Seq<char> {
    if s.contains(' ') || s.contains('=') || s.contains('"') {
        seq!['"'] + escape_quotes(s) + seq!['"']
    } else {
        s
    }
}

/// The text of a metadata value.
pub fn format_metadata_value(v: &DetailValue) -> (s: String)
    ensures
        s@ == value_text(v@),
{
    match v {
        DetailValue::Number(n) => crate::text::decimal_string(*n),
        DetailValue::Text(t) => t.clone(),
        DetailValue::Flag(b) => {
            let mut s = String::new();
            push_bool(&mut s, *b);
            s
        },
        DetailValue::Real(t) => t.clone(),
        DetailValue::Signed(n) => crate::text::signed_decimal_string(*n),
        DetailValue::Null => String::from_str("null"),
    }
}

/// `s` in quotes, its quotes escaped, when it holds a space, `=` or `"`.
pub fn quote_if_needed(s: &str) -> (r: String)
    ensures
        r@ == quoted_if_needed(s@),
{
    if has_char(s, ' ') || has_char(s, '=') || has_char(s, '"') {
        proof {
            reveal_strlit("\"");
            reveal_strlit("\\\"");
        }
        let mut r = String::from_str("\"");
        let n = s.unicode_len();
        let mut i: usize = 0;
        while i < n
            invariant
                n == s@.len(),
                0 <= i <= n,
                r@ == seq!['"'] + escape_quotes(s@.take(i as int)),
            decreases n - i,
        {
            let ghost t = s@.take(i + 1);
            assert(t.drop_last() =~= s@.take(i as int));
            assert(t.last() == s@[i as int]);
            let c = s.get_char(i);
            if c == '"' {
                r.append("\\\"");
                proof {
                    reveal_strlit("\\\"");
                }
                assert("\\\""@ =~= seq!['\\', '"']);
                assert(r@ =~= seq!['"'] + escape_quotes(t));
            } else {
                let one = s.substring_char(i, i + 1);
                assert(one@ =~= seq![c]);
                r.append(one);
                assert(r@ =~= seq!['"'] + escape_quotes(t));
            }
            i = i + 1;
        }
        r.append("\"");
        assert(s@.take(n as int) =~= s@);
        r
    } else {
        String::from_str(s)
    }
}

/// Formats entries for people to read.
#[derive(Debug, Clone, Copy)]
pub struct HumanReadableFormatter {
    pub show_timestamp: bool,
    pub show_level: bool,
    pub show_component: bool,
    pub show_location: bool,
    pub show_metadata: bool,
    pub color_enabled: bool,
}

/// `key=value` for each metadata entry.
pub open spec fn metadata_pairs(m: Seq<(Seq<char>, DetailView)>) -> Seq<Seq<char>> {
    m.map_values(|p: (Seq<char>, DetailView)| p.0 + "="@ + value_text(p.1))
}

impl HumanReadableFormatter {
    /// The colour code of a level, or nothing when colours are off.
    pub open spec fn color(&self, l: UnifiedLogLevel) -> Seq<char> {
        if self.color_enabled {
            color_code(l)
        } else {
            Seq::empty()
        }
    }

    pub open spec fn reset(&self) -> Seq<char> {
        if self.color_enabled {
            "\x1b[0m"@
        } else {
            Seq::empty()
        }
    }

    pub open spec fn ts_part(&self, e: UnifiedLogEntry) -> Seq<Seq<char>> {
        self.ts_part_at(e, clock_time(e.timestamp@))
    }

    /// The time part, given the clock time read from the entry's time stamp,
    /// if it could be read.
    pub open spec fn ts_part_at(&self, e: UnifiedLogEntry, clock: Option<Seq<char>>) -> Seq<Seq<char>> {
        if self.show_timestamp {
            seq![
                match clock {
                    Some(t) => t,
                    None => e.timestamp@,
                },
            ]
        } else {
            Seq::empty()
        }
    }

    pub open spec fn level_part(&self, e: UnifiedLogEntry) -> Seq<Seq<char>> {
        if self.show_level {
            seq![self.color(e.level) + "["@ + level_name(e.level) + "]"@ + self.reset()]
        } else {
            Seq::empty()
        }
    }

    pub open spec fn component_part(&self, e: UnifiedLogEntry) -> Seq<Seq<char>> {
        if self.show_component {
            seq![
                match e.context.entity_id {
                    Some(id) => "["@ + e.context.component@ + ":"@ + e.context.operation@ + ":"@
                        + id@ + "]"@,
                    None => "["@ + e.context.component@ + ":"@ + e.context.operation@ + "]"@,
                },
            ]
        } else {
            Seq::empty()
        }
    }

    pub open spec fn session_part(&self, e: UnifiedLogEntry) -> Seq<Seq<char>> {
        match e.context.session_id {
            Some(s) => seq!["("@ + s@ + ")"@],
            None => Seq::empty(),
        }
    }

    pub open spec fn duration_part(&self, e: UnifiedLogEntry) -> Seq<Seq<char>> {
        match e.duration_ms {
            Some(d) => seq![
                (if d > 1000 {
                    self.color(UnifiedLogLevel::Warn)
                } else if d > 100 {
                    self.color(UnifiedLogLevel::Info)
                } else {
                    Seq::empty()
                }) + "("@ + decimal(d as nat) + "ms)"@ + self.reset(),
            ],
            None => Seq::empty(),
        }
    }

    pub open spec fn error_part(&self, e: UnifiedLogEntry) -> Seq<Seq<char>> {
        match e.error {
            Some(x) => seq![self.color(UnifiedLogLevel::Error) + "ERROR: "@ + x@ + self.reset()],
            None => Seq::empty(),
        }
    }

    pub open spec fn metadata_part(&self, e: UnifiedLogEntry) -> Seq<Seq<char>> {
        if self.show_metadata && e.context.metadata@.len() > 0 {
            seq!["["@ + join(metadata_pairs(metadata_view(e.context.metadata@)), " "@) + "]"@]
        } else {
            Seq::empty()
        }
    }

    pub open spec fn location_part(&self, e: UnifiedLogEntry) -> Seq<Seq<char>> {
        if self.show_location && e.location is Some {
            seq!["@"@ + e.location->Some_0@]
        } else {
            Seq::empty()
        }
    }

    /// The parts of a formatted entry, in order.
    pub open spec fn parts(&self, e: UnifiedLogEntry) -> Seq<Seq<char>> {
        self.parts_at(e, clock_time(e.timestamp@))
    }

    /// The parts of a formatted entry, given the clock time read from its
    /// time stamp, in order.
    pub open spec fn parts_at(&self, e: UnifiedLogEntry, clock: Option<Seq<char>>) -> Seq<Seq<char>> {
        self.ts_part_at(e, clock) + self.level_part(e) + self.component_part(e) + self.session_part(e) + seq![
            e.message@,
        ] + self.duration_part(e) + self.error_part(e) + self.metadata_part(e) + self.location_part(e)
    }

    pub open spec fn new_spec() -> Self {
        HumanReadableFormatter {
            show_timestamp: true,
            show_level: true,
            show_component: true,
            show_location: false,
            show_metadata: true,
            color_enabled: true,
        }
    }

    pub open spec fn compact_spec() -> Self {
        HumanReadableFormatter {
            show_timestamp: false,
            show_level: true,
            show_component: true,
            show_location: false,
            show_metadata: false,
            color_enabled: true,
        }
    }

    pub open spec fn verbose_spec() -> Self {
        HumanReadableFormatter {
            show_timestamp: true,
            show_level: true,
            show_component: true,
            show_location: true,
            show_metadata: true,
            color_enabled: true,
        }
    }

    /// Timestamps, levels, components and metadata shown; locations hidden.
    pub fn new() -> (f: Self)
        ensures
            f == Self::new_spec(),
    {
        HumanReadableFormatter {
            show_timestamp: true,
            show_level: true,
            show_component: true,
            show_location: false,
            show_metadata: true,
            color_enabled: true,
        }
    }

    /// Only levels and components shown besides the message.
    pub fn compact() -> (f: Self)
        ensures
            f == Self::compact_spec(),
    {
        HumanReadableFormatter {
            show_timestamp: false,
            show_level: true,
            show_component: true,
            show_location: false,
            show_metadata: false,
            color_enabled: true,
        }
    }

    /// Everything shown.
    pub fn verbose() -> (f: Self)
        ensures
            f == Self::verbose_spec(),
    {
        HumanReadableFormatter {
            show_timestamp: true,
            show_level: true,
            show_component: true,
            show_location: true,
            show_metadata: true,
            color_enabled: true,
        }
    }

    /// The colour code of a level, or nothing when colours are off.
    pub fn get_level_color(&self, level: UnifiedLogLevel) -> (s: &'static str)
        ensures
            s@ == self.color(level),
    {
        if !self.color_enabled {
            proof {
                reveal_strlit("");
            }
            return "";
        }
        match level {
            UnifiedLogLevel::Trace => "\x1b[36m",
            UnifiedLogLevel::Debug => "\x1b[34m",
            UnifiedLogLevel::Info => "\x1b[32m",
            UnifiedLogLevel::Warn => "\x1b[33m",
            UnifiedLogLevel::Error => "\x1b[31m",
        }
    }

    /// The code that ends a colour, or nothing when colours are off.
    pub fn reset_color(&self) -> (s: &'static str)
        ensures
            s@ == self.reset(),
    {
        if self.color_enabled {
            "\x1b[0m"
        } else {
            proof {
                reveal_strlit("");
            }
            ""
        }
    }

    /// The entry as one line: its parts, separated by spaces.
    pub fn format(&self, entry: &UnifiedLogEntry) -> (s: String)
        ensures
            s@ == join(self.parts(*entry), " "@),
    {
        let clock = if self.show_timestamp {
            parse_clock_time(entry.timestamp.as_str())
        } else {
            None
        };
        proof {
            assert(self.parts_at(*entry, opt_text(clock)) =~= self.parts(*entry));
        }
        self.format_with_clock(entry, clock)
    }

    /// The entry as one line, given the clock time read from its time stamp
    /// (`None` when it could not be read): its parts, separated by spaces.
    pub fn format_with_clock(&self, entry: &UnifiedLogEntry, clock: Option<String>) -> (s: String)
        ensures
            s@ == join(self.parts_at(*entry, opt_text(clock)), " "@),
    {
        let ghost e = *entry;
        let mut parts: Vec<String> = Vec::new();
        let ts = if self.show_timestamp {
            match clock {
                Some(t) => Some(t),
                None => Some(entry.timestamp.clone()),
            }
        } else {
            None
        };
        push_part(&mut parts, ts);
        let ghost p1 = strings_view(parts@);
        assert(p1 =~= self.ts_part_at(e, opt_text(clock)));
        push_part(&mut parts, self.level_text(entry));
        let ghost p2 = strings_view(parts@);
        assert(p2 =~= p1 + self.level_part(e));
        push_part(&mut parts, self.component_text(entry));
        let ghost p3 = strings_view(parts@);
        assert(p3 =~= p2 + self.component_part(e));
        push_part(&mut parts, session_text(entry));
        let ghost p4 = strings_view(parts@);
        assert(p4 =~= p3 + self.session_part(e));
        parts.push(entry.message.clone());
        let ghost p5 = strings_view(parts@);
        assert(p5 =~= p4 + seq![e.message@]);
        push_part(&mut parts, self.duration_text(entry));
        let ghost p6 = strings_view(parts@);
        assert(p6 =~= p5 + self.duration_part(e));
        push_part(&mut parts, self.error_text(entry));
        let ghost p7 = strings_view(parts@);
        assert(p7 =~= p6 + self.error_part(e));
        push_part(&mut parts, self.metadata_text(entry));
        let ghost p8 = strings_view(parts@);
        assert(p8 =~= p7 + self.metadata_part(e));
        push_part(&mut parts, self.location_text(entry));
        assert(strings_view(parts@) =~= p8 + self.location_part(e));
        join_strings(&parts, " ")
    }

    fn level_text(&self, entry: &UnifiedLogEntry) -> (r: Option<String>)
        ensures
            opt_seq(r) == self.level_part(*entry),
    {
        if self.show_level {
            let mut s = String::from_str(self.get_level_color(entry.level));
            s.append("[");
            s.append(entry.level.as_str());
            s.append("]");
            s.append(self.reset_color());
            Some(s)
        } else {
            None
        }
    }

    fn component_text(&self, entry: &UnifiedLogEntry) -> (r: Option<String>)
        ensures
            opt_seq(r) == self.component_part(*entry),
    {
        if self.show_component {
            let ctx = &entry.context;
            let mut s = String::from_str("[");
            s.append(ctx.component.as_str());
            s.append(":");
            s.append(ctx.operation.as_str());
            match &ctx.entity_id {
                Some(id) => {
                    s.append(":");
                    s.append(id.as_str());
                },
                None => {},
            }
            s.append("]");
            Some(s)
        } else {
            None
        }
    }

    fn duration_text(&self, entry: &UnifiedLogEntry) -> (r: Option<String>)
        ensures
            opt_seq(r) == self.duration_part(*entry),
    {
        match entry.duration_ms {
            Some(d) => {
                let mut s = if d > 1000 {
                    String::from_str(self.get_level_color(UnifiedLogLevel::Warn))
                } else if d > 100 {
                    String::from_str(self.get_level_color(UnifiedLogLevel::Info))
                } else {
                    String::new()
                };
                s.append("(");
                push_decimal(&mut s, d);
                s.append("ms)");
                s.append(self.reset_color());
                Some(s)
            },
            None => None,
        }
    }

    fn error_text(&self, entry: &UnifiedLogEntry) -> (r: Option<String>)
        ensures
            opt_seq(r) == self.error_part(*entry),
    {
        match &entry.error {
            Some(x) => {
                let mut s = String::from_str(self.get_level_color(UnifiedLogLevel::Error));
                s.append("ERROR: ");
                s.append(x.as_str());
                s.append(self.reset_color());
                Some(s)
            },
            None => None,
        }
    }

    fn metadata_text(&self, entry: &UnifiedLogEntry) -> (r: Option<String>)
        ensures
            opt_seq(r) == self.metadata_part(*entry),
    {
        if self.show_metadata && entry.context.metadata.len() > 0 {
            let pairs = metadata_strings(&entry.context.metadata);
            let mut s = String::from_str("[");
            let joined = join_strings(&pairs, " ");
            s.append(joined.as_str());
            s.append("]");
            Some(s)
        } else {
            None
        }
    }

    fn location_text(&self, entry: &UnifiedLogEntry) -> (r: Option<String>)
        ensures
            opt_seq(r) == self.location_part(*entry),
    {
        if self.show_location {
            match &entry.location {
                Some(loc) => {
                    let mut s = String::from_str("@");
                    s.append(loc.as_str());
                    Some(s)
                },
                None => None,
            }
        } else {
            None
        }
    }
}

fn session_text(entry: &UnifiedLogEntry) -> (r: Option<String>)
    ensures
        opt_seq(r) == match entry.context.session_id {
            Some(s) => seq!["("@ + s@ + ")"@],
            None => Seq::<Seq<char>>::empty(),
        },
{
    match &entry.context.session_id {
        Some(sid) => {
            let mut s = String::from_str("(");
            s.append(sid.as_str());
            s.append(")");
            Some(s)
        },
        None => None,
    }
}

/// An optional part as a sequence of at most one text.
pub open spec fn opt_seq(o: Option<String>) -> Seq<Seq<char>> {
    match o {
        Some(s) => seq![s@],
        None => Seq::empty(),
    }
}

fn push_part(parts: &mut Vec<String>, part: Option<String>)
    ensures
        strings_view(final(parts)@) == strings_view(old(parts)@) + opt_seq(part),
{
    let ghost before = strings_view(parts@);
    match part {
        Some(s) => {
            parts.push(s);
            assert(strings_view(parts@) =~= before + opt_seq(Some(s)));
        },
        None => {
            assert(strings_view(parts@) =~= before + opt_seq(None));
        },
    }
}

/// `key=value` for each metadata entry, in order.
fn metadata_strings(m: &Vec<(String, DetailValue)>) -> (r: Vec<String>)
    ensures
        strings_view(r@) == metadata_pairs(metadata_view(m@)),
{
    let mut r: Vec<String> = Vec::new();
    let mut i: usize = 0;
    while i < m.len()
        invariant
            0 <= i <= m@.len(),
            r@.len() == i,
            forall|j: int| 0 <= j < i ==> (#[trigger] r@[j])@ == m@[j].0@ + "="@ + value_text(m@[j].1@),
        decreases m.len() - i,
    {
        let mut s = m[i].0.clone();
        s.append("=");
        let v = format_metadata_value(&m[i].1);
        s.append(v.as_str());
        r.push(s);
        i = i + 1;
    }
    assert(strings_view(r@) =~= metadata_pairs(metadata_view(m@)));
    r
}

/// The fields of a logfmt line, in order.
pub open spec fn logfmt_parts(e: UnifiedLogEntry) -> Seq<Seq<char>> {
    seq![
        "timestamp="@ + e.timestamp@,
        "level="@ + level_name(e.level),
        "component="@ + e.context.component@,
        "operation="@ + e.context.operation@,
    ] + (match e.context.entity_id {
        Some(id) => seq!["entity_id="@ + quoted_if_needed(id@)],
        None => Seq::empty(),
    }) + (match e.context.session_id {
        Some(s) => seq!["session_id="@ + quoted_if_needed(s@)],
        None => Seq::empty(),
    }) + seq!["message="@ + quoted_if_needed(e.message@)] + (match e.duration_ms {
        Some(d) => seq!["duration_ms="@ + decimal(d as nat)],
        None => Seq::empty(),
    }) + (match e.error {
        Some(x) => seq!["error="@ + quoted_if_needed(x@)],
        None => Seq::empty(),
    }) + metadata_view(e.context.metadata@).map_values(
        |p: (Seq<char>, DetailView)| p.0 + "="@ + quoted_if_needed(value_text(p.1)),
    ) + (match e.location {
        Some(l) => seq!["location="@ + quoted_if_needed(l@)],
        None => Seq::empty(),
    })
}

/// Formats entries as `key=value` fields.
#[derive(Debug, Clone, Copy)]
pub struct LogFmtFormatter;

impl LogFmtFormatter {
    /// The entry as one line of `key=value` fields separated by spaces.
    pub fn format(&self, entry: &UnifiedLogEntry) -> (s: String)
        ensures
            s@ == join(logfmt_parts(*entry), " "@),
    {
        let ghost e = *entry;
        let ctx = &entry.context;
        let mut parts: Vec<String> = Vec::new();
        parts.push(field("timestamp=", entry.timestamp.as_str(), false));
        parts.push(field("level=", entry.level.as_str(), false));
        parts.push(field("component=", ctx.component.as_str(), false));
        parts.push(field("operation=", ctx.operation.as_str(), false));
        let ghost q0 = strings_view(parts@);
        assert(q0 =~= seq![
            "timestamp="@ + e.timestamp@,
            "level="@ + level_name(e.level),
            "component="@ + e.context.component@,
            "operation="@ + e.context.operation@,
        ]);
        push_part(&mut parts, opt_field("entity_id=", &ctx.entity_id));
        push_part(&mut parts, opt_field("session_id=", &ctx.session_id));
        let ghost q1 = strings_view(parts@);
        parts.push(field("message=", entry.message.as_str(), true));
        let ghost q2 = strings_view(parts@);
        assert(q2 =~= q1 + seq!["message="@ + quoted_if_needed(e.message@)]);
        let dur = match entry.duration_ms {
            Some(d) => {
                let mut s = String::from_str("duration_ms=");
                push_decimal(&mut s, d);
                Some(s)
            },
            None => None,
        };
        push_part(&mut parts, dur);
        push_part(&mut parts, opt_field("error=", &entry.error));
        let ghost before_meta = strings_view(parts@);
        let mut i: usize = 0;
        while i < ctx.metadata.len()
            invariant
                0 <= i <= ctx.metadata@.len(),
                strings_view(parts@) == before_meta + metadata_view(ctx.metadata@).map_values(
                    |p: (Seq<char>, DetailView)| p.0 + "="@ + quoted_if_needed(value_text(p.1)),
                ).take(i as int),
            decreases ctx.metadata.len() - i,
        {
            let ghost prev = strings_view(parts@);
            let v = format_metadata_value(&ctx.metadata[i].1);
            let mut s = ctx.metadata[i].0.clone();
            s.append("=");
            let q = quote_if_needed(v.as_str());
            s.append(q.as_str());
            parts.push(s);
            assert(strings_view(parts@) =~= prev.push(s@));
            assert(metadata_view(ctx.metadata@).map_values(
                |p: (Seq<char>, DetailView)| p.0 + "="@ + quoted_if_needed(value_text(p.1)),
            ).take(i + 1) =~= metadata_view(ctx.metadata@).map_values(
                |p: (Seq<char>, DetailView)| p.0 + "="@ + quoted_if_needed(value_text(p.1)),
            ).take(i as int).push(s@));
            i = i + 1;
        }
        assert(metadata_view(ctx.metadata@).map_values(
            |p: (Seq<char>, DetailView)| p.0 + "="@ + quoted_if_needed(value_text(p.1)),
        ).take(i as int) =~= metadata_view(ctx.metadata@).map_values(
            |p: (Seq<char>, DetailView)| p.0 + "="@ + quoted_if_needed(value_text(p.1)),
        ));
        push_part(&mut parts, opt_field("location=", &entry.location));
        assert(strings_view(parts@) =~= logfmt_parts(e));
        join_strings(&parts, " ")
    }
}

/// `key` and the quoted value, when there is a value.
fn opt_field(key: &str, value: &Option<String>) -> (r: Option<String>)
    ensures
        opt_seq(r) == match value {
            Some(v) => seq![key@ + quoted_if_needed(v@)],
            None => Seq::<Seq<char>>::empty(),
        },
{
    match value {
        Some(v) => Some(field(key, v.as_str(), true)),
        None => None,
    }
}

/// `key` followed by the value, quoted if needed when `quote` is set.
fn field(key: &str, value: &str, quote: bool) -> (s: String)
    ensures
        s@ == key@ + if quote {
            quoted_if_needed(value@)
        } else {
            value@
        },
{
    let mut s = String::from_str(key);
    if quote {
        let q = quote_if_needed(value);
        s.append(q.as_str());
    } else {
        s.append(value);
    }
    s
}

impl Default for HumanReadableFormatter {
    fn default() -> (f: Self)
        ensures
            f == HumanReadableFormatter::new_spec(),
    {
        HumanReadableFormatter::new()
    }
}

impl Default for JsonFormatter {
    fn default() -> (f: Self)
        ensures
            !f.pretty && !f.include_empty_fields,
    {
        JsonFormatter { pretty: false, include_empty_fields: false }
    }
}

/// Formats entries as JSON objects.
#[derive(Debug, Clone, Copy)]
pub struct JsonFormatter {
    pub pretty: bool,
    pub include_empty_fields: bool,
}

impl JsonFormatter {
    /// One line per entry, empty fields left out.
    pub fn new() -> (f: Self)
        ensures
            !f.pretty && !f.include_empty_fields,
    {
        JsonFormatter { pretty: false, include_empty_fields: false }
    }

    /// Indented output, empty fields left out.
    pub fn pretty() -> (f: Self)
        ensures
            f.pretty && !f.include_empty_fields,
    {
        JsonFormatter { pretty: true, include_empty_fields: false }
    }

    /// One line per entry, empty fields left out.
    pub fn compact() -> (f: Self)
        ensures
            !f.pretty && !f.include_empty_fields,
    {
        JsonFormatter { pretty: false, include_empty_fields: false }
    }
}

/// `x` placed before the first entry whose name comes after its own.
pub open spec fn insert_by_name(s: Seq<(Seq<char>, DetailView)>, x: (Seq<char>, DetailView)) -> Seq<
    (Seq<char>, DetailView),
>
    decreases s.len(),
{
    if s.len() == 0 {
        seq![x]
    } else if seq_less(x.0, s[0].0) {
        seq![x] + s
    } else {
        seq![s[0]] + insert_by_name(s.drop_first(), x)
    }
}

/// The entries in the order of their names, as a `serde_json` object
/// (a `BTreeMap`) holds them.
pub open spec fn by_name(s: Seq<(Seq<char>, DetailView)>) -> Seq<(Seq<char>, DetailView)>
    decreases s.len(),
{
    if s.len() == 0 {
        s
    } else {
        insert_by_name(by_name(s.drop_last()), s.last())
    }
}

/// Inserting `x` at the first position whose name comes after its own is
/// `insert_by_name`.
proof fn lemma_insert_at(s: Seq<(Seq<char>, DetailView)>, x: (Seq<char>, DetailView), p: int)
    requires
        0 <= p <= s.len(),
        forall|j: int| 0 <= j < p ==> !seq_less(x.0, #[trigger] s[j].0),
        p < s.len() ==> seq_less(x.0, s[p].0),
    ensures
        insert_by_name(s, x) == s.take(p) + seq![x] + s.skip(p),
    decreases s.len(),
{
    if s.len() == 0 {
        assert(s.take(p) + seq![x] + s.skip(p) =~= seq![x]);
    } else if p == 0 {
        assert(s.take(p) + seq![x] + s.skip(p) =~= seq![x] + s);
    } else {
        assert(!seq_less(x.0, s[0].0));
        let t = s.drop_first();
        assert forall|j: int| 0 <= j < p - 1 implies !seq_less(x.0, #[trigger] t[j].0) by {
            assert(t[j] == s[j + 1]);
        }
        if p - 1 < t.len() {
            assert(t[p - 1] == s[p]);
        }
        lemma_insert_at(t, x, p - 1);
        assert(seq![s[0]] + (t.take(p - 1) + seq![x] + t.skip(p - 1)) =~= s.take(p) + seq![x] + s.skip(p));
    }
}

/// The positions of the metadata entries in the order of their names.
fn name_order(m: &Vec<(String, DetailValue)>) -> (order: Vec<usize>)
    ensures
        order@.len() == m@.len(),
        forall|k: int| 0 <= k < order@.len() ==> order@[k] < m@.len(),
        order@.map_values(|k: usize| metadata_view(m@)[k as int]) == by_name(metadata_view(m@)),
{
    let ghost mv = metadata_view(m@);
    let mut order: Vec<usize> = Vec::new();
    let mut i: usize = 0;
    assert(mv.take(0) =~= Seq::<(Seq<char>, DetailView)>::empty());
    assert(order@.map_values(|k: usize| mv[k as int]) =~= Seq::<(Seq<char>, DetailView)>::empty());
    while i < m.len()
        invariant
            0 <= i <= m@.len(),
            mv == metadata_view(m@),
            order@.len() == i,
            forall|k: int| 0 <= k < order@.len() ==> order@[k] < i,
            order@.map_values(|k: usize| mv[k as int]) == by_name(mv.take(i as int)),
        decreases m.len() - i,
    {
        let ghost sorted = order@.map_values(|k: usize| mv[k as int]);
        let ghost x = mv[i as int];
        let ghost t = mv.take(i + 1);
        assert(t.drop_last() =~= mv.take(i as int));
        assert(t.last() == x);
        let mut p: usize = 0;
        while p < order.len() && !str_less(m[i].0.as_str(), m[order[p]].0.as_str())
            invariant
                0 <= p <= order@.len(),
                i < m@.len(),
                mv == metadata_view(m@),
                x == mv[i as int],
                forall|k: int| 0 <= k < order@.len() ==> order@[k] < i,
                sorted == order@.map_values(|k: usize| mv[k as int]),
                forall|j: int| 0 <= j < p ==> !seq_less(x.0, #[trigger] sorted[j].0),
            decreases order.len() - p,
        {
            assert(sorted[p as int] == mv[order@[p as int] as int]);
            p = p + 1;
        }
        proof {
            if p < order@.len() {
                assert(sorted[p as int] == mv[order@[p as int] as int]);
            }
            lemma_insert_at(sorted, x, p as int);
        }
        order.insert(p, i);
        assert(order@.map_values(|k: usize| mv[k as int]) =~= sorted.take(p as int) + seq![x] + sorted.skip(
            p as int,
        ));
        i = i + 1;
    }
    assert(mv.take(i as int) =~= mv);
    order
}

/// A member of a JSON object: its name as a JSON string and its value, with
/// a space after the colon when pretty.
pub open spec fn member_text(name: Seq<char>, value: Seq<char>, pretty: bool, indent: Seq<char>) -> Seq<char> {
    indent + json_quoted(name) + (if pretty {
        ": "@
    } else {
        ":"@
    }) + value
}

/// The members of the metadata object, in the order of their names.
pub open spec fn metadata_members(m: Seq<(Seq<char>, DetailView)>, pretty: bool) -> Seq<Seq<char>> {
    by_name(m).map_values(
        |p: (Seq<char>, DetailView)|
            member_text(
                p.0,
                json_value_text(p.1),
                pretty,
                if pretty {
                    "    "@
                } else {
                    ""@
                },
            ),
    )
}

/// The metadata as a JSON object nested one level deep.
pub open spec fn metadata_object(m: Seq<(Seq<char>, DetailView)>, pretty: bool) -> Seq<char> {
    if pretty {
        "{\n"@ + join(metadata_members(m, true), ",\n"@) + "\n  }"@
    } else {
        "{"@ + join(metadata_members(m, false), ","@) + "}"@
    }
}

/// The metadata as a JSON object.
fn metadata_object_string(m: &Vec<(String, DetailValue)>, pretty: bool) -> (r: String)
    ensures
        r@ == metadata_object(metadata_view(m@), pretty),
{
    let ghost mv = metadata_view(m@);
    let order = name_order(m);
    let ghost sorted = order@.map_values(|k: usize| mv[k as int]);
    let indent = if pretty {
        "    "
    } else {
        ""
    };
    let mut parts: Vec<String> = Vec::new();
    let mut i: usize = 0;
    while i < order.len()
        invariant
            0 <= i <= order@.len(),
            mv == metadata_view(m@),
            forall|k: int| 0 <= k < order@.len() ==> order@[k] < m@.len(),
            sorted == order@.map_values(|k: usize| mv[k as int]),
            sorted == by_name(mv),
            indent@ == (if pretty {
                "    "@
            } else {
                ""@
            }),
            strings_view(parts@) == metadata_members(mv, pretty).take(i as int),
        decreases order.len() - i,
    {
        let k = order[i];
        assert(sorted[i as int] == mv[k as int]);
        assert(mv[k as int] == (m@[k as int].0@, m@[k as int].1@));
        let member = member_string(m[k].0.as_str(), json_value_string(&m[k].1), pretty, indent);
        assert(by_name(mv)[i as int] == sorted[i as int]);
        assert(metadata_members(mv, pretty)[i as int] == member_text(
            sorted[i as int].0,
            json_value_text(sorted[i as int].1),
            pretty,
            indent@,
        ));
        assert(member@ == metadata_members(mv, pretty)[i as int]);
        let ghost before = parts@;
        parts.push(member);
        assert(parts@ == before.push(parts@.last()));
        assert(strings_view(parts@) =~= strings_view(before).push(member@));
        assert(metadata_members(mv, pretty).len() == order@.len());
        assert(metadata_members(mv, pretty).take(i + 1) =~= metadata_members(mv, pretty).take(i as int).push(
            metadata_members(mv, pretty)[i as int],
        ));
        i = i + 1;
    }
    assert(metadata_members(mv, pretty).take(i as int) =~= metadata_members(mv, pretty));
    let mut r = String::new();
    if pretty {
        r.append("{\n");
        let body = join_strings(&parts, ",\n");
        r.append(body.as_str());
        r.append("\n  }");
    } else {
        r.append("{");
        let body = join_strings(&parts, ",");
        r.append(body.as_str());
        r.append("}");
    }
    r
}

/// A member of a JSON object.
fn member_string(name: &str, value: String, pretty: bool, indent: &str) -> (r: String)
    ensures
        r@ == member_text(name@, value@, pretty, indent@),
{
    let mut r = String::from_str(indent);
    let quoted = json_string_text(name);
    r.append(quoted.as_str());
    if pretty {
        r.append(": ");
    } else {
        r.append(":");
    }
    r.append(value.as_str());
    r
}

/// The indentation of an entry's members.
pub open spec fn member_indent(pretty: bool) -> Seq<char> {
    if pretty {
        "  "@
    } else {
        ""@
    }
}

/// `s` with a member for the value, when there is one.
pub open spec fn push_opt(s: Seq<Seq<char>>, name: Seq<char>, value: Option<Seq<char>>, pretty: bool) -> Seq<Seq<char>> {
    match value {
        Some(v) => s.push(member_text(name, v, pretty, member_indent(pretty))),
        None => s,
    }
}

/// A text as a JSON string, when there is one.
pub open spec fn opt_quoted(o: Option<String>) -> Option<Seq<char>> {
    match o {
        Some(v) => Some(json_quoted(v@)),
        None => None,
    }
}

/// The members of an entry's JSON object, in the order of their names as a
/// `serde_json` object holds them; absent fields and empty metadata are
/// left out.
pub open spec fn entry_members(e: UnifiedLogEntry, pretty: bool) -> Seq<Seq<char>> {
    let s0 = seq![member_text("component"@, json_quoted(e.context.component@), pretty, member_indent(pretty))];
    let s1 = push_opt(
        s0,
        "duration_ms"@,
        match e.duration_ms {
            Some(d) => Some(decimal(d as nat)),
            None => None,
        },
        pretty,
    );
    let s2 = push_opt(s1, "entity_id"@, opt_quoted(e.context.entity_id), pretty);
    let s3 = push_opt(s2, "error"@, opt_quoted(e.error), pretty);
    let s4 = push_opt(s3, "level"@, Some(json_quoted(level_name(e.level))), pretty);
    let s5 = push_opt(s4, "location"@, opt_quoted(e.location), pretty);
    let s6 = push_opt(s5, "message"@, Some(json_quoted(e.message@)), pretty);
    let s7 = push_opt(
        s6,
        "metadata"@,
        if e.context.metadata@.len() > 0 {
            Some(metadata_object(metadata_view(e.context.metadata@), pretty))
        } else {
            None
        },
        pretty,
    );
    let s8 = push_opt(s7, "operation"@, Some(json_quoted(e.context.operation@)), pretty);
    let s9 = push_opt(s8, "session_id"@, opt_quoted(e.context.session_id), pretty);
    push_opt(s9, "timestamp"@, Some(json_quoted(e.timestamp@)), pretty)
}

/// An entry as a JSON object: on one line, or indented by two spaces per
/// level when pretty.
pub open spec fn json_entry(e: UnifiedLogEntry, pretty: bool) -> Seq<char> {
    if pretty {
        "{\n"@ + join(entry_members(e, true), ",\n"@) + "\n}"@
    } else {
        "{"@ + join(entry_members(e, false), ","@) + "}"@
    }
}

/// The value of a member of an entry's JSON object: a value written the same
/// way in every layout, or the metadata object, whose members are laid out
/// like the entry's.
pub enum JsonField {
    Plain(Seq<char>),
    Object(Seq<(Seq<char>, DetailView)>),
}

/// The text of a member's value in a layout.
pub open spec fn field_text(f: JsonField, pretty: bool) -> Seq<char> {
    match f {
        JsonField::Plain(t) => t,
        JsonField::Object(m) => metadata_object(m, pretty),
    }
}

/// `s` with the member named `name`, when it has a value.
pub open spec fn push_field(s: Seq<(Seq<char>, JsonField)>, name: Seq<char>, value: Option<JsonField>) -> Seq<
    (Seq<char>, JsonField),
> {
    match value {
        Some(v) => s.push((name, v)),
        None => s,
    }
}

/// A text value as a member's value, when there is one.
pub open spec fn plain(o: Option<Seq<char>>) -> Option<JsonField> {
    match o {
        Some(t) => Some(JsonField::Plain(t)),
        None => None,
    }
}

/// The members of an entry's JSON object and their values, whatever the
/// layout: in the order of their names, absent fields and empty metadata
/// left out.
pub open spec fn entry_fields(e: UnifiedLogEntry) -> Seq<(Seq<char>, JsonField)> {
    let s0 = seq![("component"@, JsonField::Plain(json_quoted(e.context.component@)))];
    let s1 = push_field(
        s0,
        "duration_ms"@,
        plain(
            match e.duration_ms {
                Some(d) => Some(decimal(d as nat)),
                None => None,
            },
        ),
    );
    let s2 = push_field(s1, "entity_id"@, plain(opt_quoted(e.context.entity_id)));
    let s3 = push_field(s2, "error"@, plain(opt_quoted(e.error)));
    let s4 = push_field(s3, "level"@, Some(JsonField::Plain(json_quoted(level_name(e.level)))));
    let s5 = push_field(s4, "location"@, plain(opt_quoted(e.location)));
    let s6 = push_field(s5, "message"@, Some(JsonField::Plain(json_quoted(e.message@))));
    let s7 = push_field(
        s6,
        "metadata"@,
        if e.context.metadata@.len() > 0 {
            Some(JsonField::Object(metadata_view(e.context.metadata@)))
        } else {
            None
        },
    );
    let s8 = push_field(s7, "operation"@, Some(JsonField::Plain(json_quoted(e.context.operation@))));
    let s9 = push_field(s8, "session_id"@, plain(opt_quoted(e.context.session_id)));
    push_field(s9, "timestamp"@, Some(JsonField::Plain(json_quoted(e.timestamp@))))
}

/// The members laid out as text, one line each when pretty.
pub open spec fn laid_out(fields: Seq<(Seq<char>, JsonField)>, pretty: bool) -> Seq<Seq<char>> {
    fields.map_values(
        |p: (Seq<char>, JsonField)| member_text(p.0, field_text(p.1, pretty), pretty, member_indent(pretty)),
    )
}

proof fn lemma_laid_out_push(s: Seq<(Seq<char>, JsonField)>, name: Seq<char>, v: Option<JsonField>, pretty: bool)
    ensures
        laid_out(push_field(s, name, v), pretty) == push_opt(
            laid_out(s, pretty),
            name,
            match v {
                Some(f) => Some(field_text(f, pretty)),
                None => None,
            },
            pretty,
        ),
{
    match v {
        Some(f) => {
            assert(laid_out(s.push((name, f)), pretty) =~= laid_out(s, pretty).push(
                member_text(name, field_text(f, pretty), pretty, member_indent(pretty)),
            ));
        },
        None => {},
    }
}

/// The pretty and the one-line JSON of an entry lay out the same members
/// with the same values, in the same order: they differ only in the
/// whitespace between them. The plain and the compact formatter both give
/// the one-line layout.
pub proof fn json_layouts_hold_the_same_members(e: UnifiedLogEntry, pretty: bool)
    ensures
        entry_members(e, pretty) == laid_out(entry_fields(e), pretty),
        json_entry(e, pretty) == if pretty {
            "{\n"@ + join(laid_out(entry_fields(e), true), ",\n"@) + "\n}"@
        } else {
            "{"@ + join(laid_out(entry_fields(e), false), ","@) + "}"@
        },
{
    let s0 = seq![("component"@, JsonField::Plain(json_quoted(e.context.component@)))];
    assert(laid_out(s0, pretty) =~= seq![
        member_text("component"@, json_quoted(e.context.component@), pretty, member_indent(pretty)),
    ]);
    let d = plain(
        match e.duration_ms {
            Some(d) => Some(decimal(d as nat)),
            None => None,
        },
    );
    lemma_laid_out_push(s0, "duration_ms"@, d, pretty);
    let s1 = push_field(s0, "duration_ms"@, d);
    lemma_laid_out_push(s1, "entity_id"@, plain(opt_quoted(e.context.entity_id)), pretty);
    let s2 = push_field(s1, "entity_id"@, plain(opt_quoted(e.context.entity_id)));
    lemma_laid_out_push(s2, "error"@, plain(opt_quoted(e.error)), pretty);
    let s3 = push_field(s2, "error"@, plain(opt_quoted(e.error)));
    let lv = Some(JsonField::Plain(json_quoted(level_name(e.level))));
    lemma_laid_out_push(s3, "level"@, lv, pretty);
    let s4 = push_field(s3, "level"@, lv);
    lemma_laid_out_push(s4, "location"@, plain(opt_quoted(e.location)), pretty);
    let s5 = push_field(s4, "location"@, plain(opt_quoted(e.location)));
    let mv = Some(JsonField::Plain(json_quoted(e.message@)));
    lemma_laid_out_push(s5, "message"@, mv, pretty);
    let s6 = push_field(s5, "message"@, mv);
    let md = if e.context.metadata@.len() > 0 {
        Some(JsonField::Object(metadata_view(e.context.metadata@)))
    } else {
        None
    };
    lemma_laid_out_push(s6, "metadata"@, md, pretty);
    let s7 = push_field(s6, "metadata"@, md);
    let op = Some(JsonField::Plain(json_quoted(e.context.operation@)));
    lemma_laid_out_push(s7, "operation"@, op, pretty);
    let s8 = push_field(s7, "operation"@, op);
    lemma_laid_out_push(s8, "session_id"@, plain(opt_quoted(e.context.session_id)), pretty);
    let s9 = push_field(s8, "session_id"@, plain(opt_quoted(e.context.session_id)));
    let ts = Some(JsonField::Plain(json_quoted(e.timestamp@)));
    lemma_laid_out_push(s9, "timestamp"@, ts, pretty);
}

/// Appends a top-level member of an entry's JSON object.
fn push_member(parts: &mut Vec<String>, name: &str, value: String, pretty: bool)
    ensures
        strings_view(final(parts)@) == strings_view(old(parts)@).push(
            member_text(name@, value@, pretty, member_indent(pretty)),
        ),
{
    let indent = if pretty {
        "  "
    } else {
        ""
    };
    let member = member_string(name, value, pretty, indent);
    let ghost before = parts@;
    parts.push(member);
    assert(parts@ == before.push(parts@.last()));
    assert(strings_view(parts@) =~= strings_view(before).push(member@));
}

/// A text as a JSON string, or nothing.
fn quoted_opt(o: &Option<String>) -> (r: Option<String>)
    ensures
        match o {
            Some(v) => r matches Some(q) && q@ == json_quoted(v@),
            None => r is None,
        },
{
    match o {
        Some(v) => Some(json_string_text(v.as_str())),
        None => None,
    }
}

impl JsonFormatter {
    /// The entry as a JSON object, its members in the order of their names.
    pub fn format(&self, entry: &UnifiedLogEntry) -> (s: String)
        ensures
            s@ == json_entry(*entry, self.pretty),
    {
        let pretty = self.pretty;
        let e = entry;
        let mut parts: Vec<String> = Vec::new();
        push_member(&mut parts, "component", json_string_text(e.context.component.as_str()), pretty);
        let ghost g = strings_view(parts@);
        assert(g =~= seq![member_text("component"@, json_quoted(e.context.component@), pretty, member_indent(pretty))]);
        if let Some(d) = e.duration_ms {
            push_member(&mut parts, "duration_ms", decimal_string(d), pretty);
        }
        let ghost g = push_opt(
            g,
            "duration_ms"@,
            match e.duration_ms {
                Some(d) => Some(decimal(d as nat)),
                None => None,
            },
            pretty,
        );
        assert(strings_view(parts@) == g);
        if let Some(v) = quoted_opt(&e.context.entity_id) {
            push_member(&mut parts, "entity_id", v, pretty);
        }
        let ghost g = push_opt(g, "entity_id"@, opt_quoted(e.context.entity_id), pretty);
        assert(strings_view(parts@) == g);
        if let Some(v) = quoted_opt(&e.error) {
            push_member(&mut parts, "error", v, pretty);
        }
        let ghost g = push_opt(g, "error"@, opt_quoted(e.error), pretty);
        assert(strings_view(parts@) == g);
        push_member(&mut parts, "level", json_string_text(e.level.as_str()), pretty);
        let ghost g = push_opt(g, "level"@, Some(json_quoted(level_name(e.level))), pretty);
        assert(strings_view(parts@) == g);
        if let Some(v) = quoted_opt(&e.location) {
            push_member(&mut parts, "location", v, pretty);
        }
        let ghost g = push_opt(g, "location"@, opt_quoted(e.location), pretty);
        assert(strings_view(parts@) == g);
        push_member(&mut parts, "message", json_string_text(e.message.as_str()), pretty);
        let ghost g = push_opt(g, "message"@, Some(json_quoted(e.message@)), pretty);
        assert(strings_view(parts@) == g);
        if e.context.metadata.len() > 0 {
            push_member(&mut parts, "metadata", metadata_object_string(&e.context.metadata, pretty), pretty);
        }
        let ghost g = push_opt(
            g,
            "metadata"@,
            if e.context.metadata@.len() > 0 {
                Some(metadata_object(metadata_view(e.context.metadata@), pretty))
            } else {
                None
            },
            pretty,
        );
        assert(strings_view(parts@) == g);
        push_member(&mut parts, "operation", json_string_text(e.context.operation.as_str()), pretty);
        let ghost g = push_opt(g, "operation"@, Some(json_quoted(e.context.operation@)), pretty);
        assert(strings_view(parts@) == g);
        if let Some(v) = quoted_opt(&e.context.session_id) {
            push_member(&mut parts, "session_id", v, pretty);
        }
        let ghost g = push_opt(g, "session_id"@, opt_quoted(e.context.session_id), pretty);
        assert(strings_view(parts@) == g);
        push_member(&mut parts, "timestamp", json_string_text(e.timestamp.as_str()), pretty);
        let ghost g = push_opt(g, "timestamp"@, Some(json_quoted(e.timestamp@)), pretty);
        assert(strings_view(parts@) == g);
        assert(g == entry_members(*e, pretty));
        let mut r = String::new();
        if pretty {
            r.append("{\n");
            let body = join_strings(&parts, ",\n");
            r.append(body.as_str());
            r.append("\n}");
        } else {
            r.append("{");
            let body = join_strings(&parts, ",");
            r.append(body.as_str());
            r.append("}");
        }
        r
    }
}

/// The text, or nothing when there is none.
pub open spec fn text_or_empty(o: Option<String>) -> Seq<char> {
    match o {
        Some(s) => s@,
        None => Seq::empty(),
    }
}

/// A template filled in for an entry: each `{field}` is replaced by the
/// entry's value of that field (nothing for an absent one), the fields taken
/// in this order; any other text is kept.
pub open spec fn filled_template(t: Seq<char>, e: UnifiedLogEntry) -> Seq<char> {
    let s1 = replace_all(t, "{timestamp}"@, e.timestamp@);
    let s2 = replace_all(s1, "{level}"@, level_name(e.level));
    let s3 = replace_all(s2, "{component}"@, e.context.component@);
    let s4 = replace_all(s3, "{operation}"@, e.context.operation@);
    let s5 = replace_all(s4, "{message}"@, e.message@);
    let s6 = replace_all(s5, "{entity_id}"@, text_or_empty(e.context.entity_id));
    let s7 = replace_all(s6, "{session_id}"@, text_or_empty(e.context.session_id));
    let s8 = replace_all(s7, "{error}"@, text_or_empty(e.error));
    let s9 = replace_all(
        s8,
        "{duration}"@,
        match e.duration_ms {
            Some(d) => decimal(d as nat),
            None => Seq::empty(),
        },
    );
    replace_all(s9, "{location}"@, text_or_empty(e.location))
}

fn string_or_empty(o: &Option<String>) -> (s: String)
    ensures
        s@ == text_or_empty(*o),
{
    match o {
        Some(v) => v.clone(),
        None => String::new(),
    }
}

/// Formats entries by a template that names fields in braces, such as
/// `{level} - {component}: {message}`.
#[derive(Debug, Clone)]
pub struct CustomFormatter {
    pub template: String,
}

impl CustomFormatter {
    pub fn new(template: &str) -> (f: Self)
        ensures
            f.template@ == template@,
    {
        CustomFormatter { template: String::from_str(template) }
    }

    /// `{timestamp} [{level}] {component}: {message}`
    pub fn simple() -> (f: Self)
        ensures
            f.template@ == "{timestamp} [{level}] {component}: {message}"@,
    {
        Self::new("{timestamp} [{level}] {component}: {message}")
    }

    /// `{timestamp} [{level}] [{component}:{operation}] {entity_id} {message} {duration}ms`
    pub fn detailed() -> (f: Self)
        ensures
            f.template@
                == "{timestamp} [{level}] [{component}:{operation}] {entity_id} {message} {duration}ms"@,
    {
        Self::new("{timestamp} [{level}] [{component}:{operation}] {entity_id} {message} {duration}ms")
    }

    /// The template filled in for the entry.
    pub fn format(&self, entry: &UnifiedLogEntry) -> (s: String)
        ensures
            s@ == filled_template(self.template@, *entry),
    {
        proof {
            reveal_strlit("{timestamp}");
            reveal_strlit("{level}");
            reveal_strlit("{component}");
            reveal_strlit("{operation}");
            reveal_strlit("{message}");
            reveal_strlit("{entity_id}");
            reveal_strlit("{session_id}");
            reveal_strlit("{error}");
            reveal_strlit("{duration}");
            reveal_strlit("{location}");
        }
        let ctx = &entry.context;
        let r = replace_str(self.template.as_str(), "{timestamp}", entry.timestamp.as_str());
        let r = replace_str(r.as_str(), "{level}", entry.level.as_str());
        let r = replace_str(r.as_str(), "{component}", ctx.component.as_str());
        let r = replace_str(r.as_str(), "{operation}", ctx.operation.as_str());
        let r = replace_str(r.as_str(), "{message}", entry.message.as_str());
        let v = string_or_empty(&ctx.entity_id);
        let r = replace_str(r.as_str(), "{entity_id}", v.as_str());
        let v = string_or_empty(&ctx.session_id);
        let r = replace_str(r.as_str(), "{session_id}", v.as_str());
        let v = string_or_empty(&entry.error);
        let r = replace_str(r.as_str(), "{error}", v.as_str());
        let v = match entry.duration_ms {
            Some(d) => decimal_string(d),
            None => String::new(),
        };
        let r = replace_str(r.as_str(), "{duration}", v.as_str());
        let v = string_or_empty(&entry.location);
        replace_str(r.as_str(), "{location}", v.as_str())
    }
}

/// The formatters to choose from.
#[derive(Debug, Clone)]
pub enum FormatterType {
    HumanReadable(HumanReadableFormatter),
    Json(JsonFormatter),
    LogFmt(LogFmtFormatter),
    Custom(CustomFormatter),
}

/// An entry as the formatter writes it.
pub open spec fn formatted(f: FormatterType, e: UnifiedLogEntry) -> Seq<char> {
    match f {
        FormatterType::HumanReadable(h) => join(h.parts(e), " "@),
        FormatterType::Json(j) => json_entry(e, j.pretty),
        FormatterType::LogFmt(_) => join(logfmt_parts(e), " "@),
        FormatterType::Custom(c) => filled_template(c.template@, e),
    }
}

impl FormatterType {
    /// The entry as this formatter writes it.
    pub fn format(&self, entry: &UnifiedLogEntry) -> (s: String)
        ensures
            s@ == formatted(*self, *entry),
    {
        match self {
            FormatterType::HumanReadable(f) => f.format(entry),
            FormatterType::Json(f) => f.format(entry),
            FormatterType::LogFmt(f) => f.format(entry),
            FormatterType::Custom(f) => f.format(entry),
        }
    }

    /// The formatter that the `WEZTERM_LOG_FORMAT` setting names (`json`,
    /// `json-pretty`, `logfmt`, `compact`, `verbose`); human-readable for any
    /// other value and when the setting is absent.
    pub fn from_environment(setting: Option<&str>) -> (f: Self)
        ensures
            match setting {
                Some(v) => if v@ == "json"@ {
                    f matches FormatterType::Json(j) && !j.pretty && !j.include_empty_fields
                } else if v@ == "json-pretty"@ {
                    f matches FormatterType::Json(j) && j.pretty && !j.include_empty_fields
                } else if v@ == "logfmt"@ {
                    f is LogFmt
                } else if v@ == "compact"@ {
                    f matches FormatterType::HumanReadable(h) && h == HumanReadableFormatter::compact_spec()
                } else if v@ == "verbose"@ {
                    f matches FormatterType::HumanReadable(h) && h == HumanReadableFormatter::verbose_spec()
                } else {
                    f matches FormatterType::HumanReadable(h) && h == HumanReadableFormatter::new_spec()
                },
                None => f matches FormatterType::HumanReadable(h) && h == HumanReadableFormatter::new_spec(),
            },
    {
        match setting {
            Some(v) => {
                let s = String::from_str(v);
                if eq_str(&s, "json") {
                    FormatterType::Json(JsonFormatter::new())
                } else if eq_str(&s, "json-pretty") {
                    FormatterType::Json(JsonFormatter::pretty())
                } else if eq_str(&s, "logfmt") {
                    FormatterType::LogFmt(LogFmtFormatter)
                } else if eq_str(&s, "compact") {
                    FormatterType::HumanReadable(HumanReadableFormatter::compact())
                } else if eq_str(&s, "verbose") {
                    FormatterType::HumanReadable(HumanReadableFormatter::verbose())
                } else {
                    FormatterType::HumanReadable(HumanReadableFormatter::new())
                }
            },
            None => FormatterType::HumanReadable(HumanReadableFormatter::new()),
        }
    }
}

} // verus!
