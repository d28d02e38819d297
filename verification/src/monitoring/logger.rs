//! Analysis of error log messages: their kinds, how often each kind occurs,
//! and what to do about kinds that keep occurring.

use crate::assoc::{get_value, keys_distinct, lookup, pairs_view, set_value};
use crate::logging::level::UnifiedLogLevel;
use crate::text::{contains_str, eq_str, seq_contains};
use vstd::prelude::*;

verus! {

/// The lower-case form of a text, as `str::to_lowercase` gives it.
pub uninterp spec fn lowercase(s: Seq<char>) -> Seq<char>;

/// Lower-cases a text through `str::to_lowercase`; the result is claimed to be a
/// function of the text alone, and nothing more.
#[verifier::external_body]
fn to_lowercase(s: &str) -> (r: String)
    ensures
        r@ == lowercase(s@),
{
    s.to_lowercase()
}

/// The kind of an error, from words in its lower-cased message, tried in order.
pub open spec fn error_kind(lower: Seq<char>) -> Seq<char> {
    if seq_contains(lower, "connection"@) || seq_contains(lower, "network"@) {
        "Network"@
    } else if seq_contains(lower, "file"@) || seq_contains(lower, "io"@) {
        "File I/O"@
    } else if seq_contains(lower, "parse"@) || seq_contains(lower, "invalid"@) {
        "Parse Error"@
    } else if seq_contains(lower, "timeout"@) {
        "Timeout"@
    } else if seq_contains(lower, "permission"@) || seq_contains(lower, "access"@) {
        "Permission"@
    } else {
        "Other"@
    }
}

/// What to do about a kind of error that keeps occurring.
pub open spec fn recommendation_for(kind: Seq<char>) -> Seq<char> {
    if kind == "Network"@ {
        "Consider implementing retry logic for network operations"@
    } else if kind == "File I/O"@ {
        "Check file permissions and disk space"@
    } else if kind == "Parse Error"@ {
        "Validate input data before processing"@
    } else if kind == "Timeout"@ {
        "Increase timeout values or optimize operations"@
    } else if kind == "Permission"@ {
        "Review file and directory permissions"@
    } else {
        "Investigate recurring "@ + kind + " errors"@
    }
}

/// The recommendations for the kinds counted more than five times, in order.
pub open spec fn recommendations(counts: Seq<(Seq<char>, u32)>) -> Seq<Seq<char>>
    decreases counts.len(),
{
    if counts.len() == 0 {
        Seq::empty()
    } else if counts.last().1 > 5 {
        recommendations(counts.drop_last()).push(recommendation_for(counts.last().0))
    } else {
        recommendations(counts.drop_last())
    }
}

/// A log line as the analysis reads it.
#[derive(Debug, Clone)]
pub struct LogLine {
    pub level: String,
    pub message: String,
}

/// How many errors of a kind occurred at a time.
#[derive(Debug, Clone)]
pub struct ErrorTrend {
    pub timestamp: u64,
    pub error_count: u32,
    pub error_type: String,
}

/// The number of `ERROR` lines whose message is of kind `kind`.
pub open spec fn errors_of_kind(lines: Seq<LogLine>, kind: Seq<char>) -> nat
    decreases lines.len(),
{
    if lines.len() == 0 {
        0
    } else {
        errors_of_kind(lines.drop_last(), kind) + if lines.last().level@ == "ERROR"@ && error_kind(
            lowercase(lines.last().message@),
        ) == kind {
            1nat
        } else {
            0nat
        }
    }
}

/// The number of `ERROR` lines.
pub open spec fn error_lines(lines: Seq<LogLine>) -> nat
    decreases lines.len(),
{
    if lines.len() == 0 {
        0
    } else {
        error_lines(lines.drop_last()) + if lines.last().level@ == "ERROR"@ {
            1nat
        } else {
            0nat
        }
    }
}

/// Analysis of log messages.
/// The kind of an error message that is already lower-cased.
pub fn error_kind_of_lower(m: &str) -> (kind: String)
    ensures
        kind@ == error_kind(m@),
{
    if contains_str(m, "connection") || contains_str(m, "network") {
        String::from_str("Network")
    } else if contains_str(m, "file") || contains_str(m, "io") {
        String::from_str("File I/O")
    } else if contains_str(m, "parse") || contains_str(m, "invalid") {
        String::from_str("Parse Error")
    } else if contains_str(m, "timeout") {
        String::from_str("Timeout")
    } else if contains_str(m, "permission") || contains_str(m, "access") {
        String::from_str("Permission")
    } else {
        String::from_str("Other")
    }
}

pub struct LogAnalyzer;

impl LogAnalyzer {
    /// The kind of an error message: Network, File I/O, Parse Error, Timeout,
    /// Permission or Other, from words in the lower-cased message.
    pub fn classify_error(message: &str) -> (kind: String)
        ensures
            kind@ == error_kind(lowercase(message@)),
    {
        let lower = to_lowercase(message);
        error_kind_of_lower(lower.as_str())
    }

    /// Recommendations for the kinds of error counted more than five times,
    /// in the order of `error_counts`.
    pub fn generate_recommendations(error_counts: &Vec<(String, u32)>) -> (r: Vec<String>)
        ensures
            r@.map_values(|s: String| s@) == recommendations(pairs_view(error_counts@)),
    {
        let mut r: Vec<String> = Vec::new();
        let mut i: usize = 0;
        while i < error_counts.len()
            invariant
                0 <= i <= error_counts@.len(),
                r@.map_values(|s: String| s@) == recommendations(pairs_view(error_counts@).take(i as int)),
            decreases error_counts.len() - i,
        {
            let ghost s = pairs_view(error_counts@);
            assert(s.take(i + 1).drop_last() =~= s.take(i as int));
            let kind = &error_counts[i].0;
            if error_counts[i].1 > 5 {
                let ghost before = r@;
                let rec = recommendation(kind);
                r.push(rec);
                assert(r@.map_values(|s: String| s@) =~= before.map_values(|s: String| s@).push(rec@));
            }
            i = i + 1;
        }
        assert(pairs_view(error_counts@).take(i as int) =~= pairs_view(error_counts@));
        r
    }

    /// Counts the `ERROR` lines by kind, kinds in the order they first occur,
    /// and the number of `ERROR` lines.
    pub fn count_errors(lines: &Vec<LogLine>) -> (r: (Vec<(String, u32)>, u32))
        requires
            lines@.len() <= u32::MAX,
        ensures
            keys_distinct(pairs_view(r.0@)),
            r.1 == error_lines(lines@),
            forall|k: Seq<char>|
                #[trigger] lookup(pairs_view(r.0@), k) == if errors_of_kind(lines@, k) > 0 {
                    Some(errors_of_kind(lines@, k) as u32)
                } else {
                    None
                },
    {
        let mut counts: Vec<(String, u32)> = Vec::new();
        let mut total: u32 = 0;
        let mut i: usize = 0;
        proof {
            assert forall|k: Seq<char>| #[trigger] lookup(pairs_view(counts@), k) == if errors_of_kind(lines@.take(0), k) > 0 {
                Some(errors_of_kind(lines@.take(0), k) as u32)
            } else {
                None
            } by {
                assert(lines@.take(0).len() == 0);
            }
        }
        while i < lines.len()
            invariant
                0 <= i <= lines@.len(),
                lines@.len() <= u32::MAX,
                keys_distinct(pairs_view(counts@)),
                total == error_lines(lines@.take(i as int)),
                total <= i,
                forall|k: Seq<char>|
                    #[trigger] lookup(pairs_view(counts@), k) == if errors_of_kind(lines@.take(i as int), k) > 0 {
                        Some(errors_of_kind(lines@.take(i as int), k) as u32)
                    } else {
                        None
                    },
                forall|k: Seq<char>| errors_of_kind(lines@.take(i as int), k) <= i,
            decreases lines.len() - i,
        {
            let ghost pre = lines@.take(i as int);
            let ghost post = lines@.take(i + 1);
            assert(post.drop_last() =~= pre);
            assert(post.last() == lines@[i as int]);
            proof {
                assert forall|k: Seq<char>| errors_of_kind(post, k) <= i + 1 by {
                    assert(errors_of_kind(pre, k) <= i);
                }
            }
            if eq_str(&lines[i].level, "ERROR") {
                let kind = Self::classify_error(lines[i].message.as_str());
                let ghost kv = kind@;
                let previous: u32 = match get_value(&counts, kind.as_str()) {
                    Some(n) => n,
                    None => 0,
                };
                proof {
                    assert(errors_of_kind(pre, kv) <= i);
                }
                set_value(&mut counts, kind, previous + 1);
                total = total + 1;
                proof {
                    assert forall|k: Seq<char>|
                        #[trigger] lookup(pairs_view(counts@), k) == if errors_of_kind(post, k) > 0 {
                            Some(errors_of_kind(post, k) as u32)
                        } else {
                            None
                        } by {
                        if k != kv {
                            assert(errors_of_kind(post, k) == errors_of_kind(pre, k));
                        }
                    }
                }
            } else {
                proof {
                    assert forall|k: Seq<char>|
                        #[trigger] lookup(pairs_view(counts@), k) == if errors_of_kind(post, k) > 0 {
                            Some(errors_of_kind(post, k) as u32)
                        } else {
                            None
                        } by {
                        assert(errors_of_kind(post, k) == errors_of_kind(pre, k));
                    }
                }
            }
            i = i + 1;
        }
        assert(lines@.take(i as int) =~= lines@);
        (counts, total)
    }
}

/// The recommendation for a kind of error.
fn recommendation(kind: &String) -> (r: String)
    ensures
        r@ == recommendation_for(kind@),
{
    if eq_str(kind, "Network") {
        String::from_str("Consider implementing retry logic for network operations")
    } else if eq_str(kind, "File I/O") {
        String::from_str("Check file permissions and disk space")
    } else if eq_str(kind, "Parse Error") {
        String::from_str("Validate input data before processing")
    } else if eq_str(kind, "Timeout") {
        String::from_str("Increase timeout values or optimize operations")
    } else if eq_str(kind, "Permission") {
        String::from_str("Review file and directory permissions")
    } else {
        let mut s = String::from_str("Investigate recurring ");
        s.append(kind.as_str());
        s.append(" errors");
        s
    }
}

/// The level that a monitoring configuration's log level setting names,
/// read without regard to case; info for any other setting.
pub open spec fn monitoring_level(lower: Seq<char>) -> UnifiedLogLevel {
    if lower == "trace"@ {
        UnifiedLogLevel::Trace
    } else if lower == "debug"@ {
        UnifiedLogLevel::Debug
    } else if lower == "warn"@ {
        UnifiedLogLevel::Warn
    } else if lower == "error"@ {
        UnifiedLogLevel::Error
    } else {
        UnifiedLogLevel::Info
    }
}

/// The level that a log level setting names.
pub fn level_for_setting(setting: &str) -> (l: UnifiedLogLevel)
    ensures
        l == monitoring_level(lowercase(setting@)),
{
    let lower = to_lowercase(setting);
    level_of_lower_setting(&lower)
}

/// The level that a lower-cased log level setting names.
pub fn level_of_lower_setting(lower: &String) -> (l: UnifiedLogLevel)
    ensures
        l == monitoring_level(lower@),
{
    if eq_str(lower, "trace") {
        UnifiedLogLevel::Trace
    } else if eq_str(lower, "debug") {
        UnifiedLogLevel::Debug
    } else if eq_str(lower, "warn") {
        UnifiedLogLevel::Warn
    } else if eq_str(lower, "error") {
        UnifiedLogLevel::Error
    } else {
        UnifiedLogLevel::Info
    }
}

/// Counts of the entries logged.
pub struct LogStats {
    pub total_entries: u64,
    /// Entries per level name; no name occurs twice
    pub entries_by_level: Vec<(String, u64)>,
    /// Entries per component; no component occurs twice
    pub entries_by_component: Vec<(String, u64)>,
    /// Size of the log file, in bytes
    pub log_file_size: u64,
    pub log_file_count: u32,
    /// When the log file was last rotated, in seconds since the epoch
    pub last_rotation: Option<u64>,
}

/// The count kept for a name, or zero.
pub open spec fn count_of(m: Seq<(String, u64)>, k: Seq<char>) -> nat {
    match lookup(pairs_view(m), k) {
        Some(n) => n as nat,
        None => 0,
    }
}

impl LogStats {
    /// Nothing counted yet.
    pub fn new() -> (r: Self)
        ensures
            r.total_entries == 0,
            r.entries_by_level@.len() == 0,
            r.entries_by_component@.len() == 0,
            r.log_file_size == 0,
            r.log_file_count == 0,
            r.last_rotation is None,
    {
        LogStats {
            total_entries: 0,
            entries_by_level: Vec::new(),
            entries_by_component: Vec::new(),
            log_file_size: 0,
            log_file_count: 0,
            last_rotation: None,
        }
    }

    /// Counts one entry of the level and, when given, of the component, and
    /// takes the log file's current size.
    pub fn update_stats(&mut self, level: &str, component: Option<&str>, log_file_size: u64)
        requires
            keys_distinct(pairs_view(old(self).entries_by_level@)),
            keys_distinct(pairs_view(old(self).entries_by_component@)),
            old(self).total_entries < u64::MAX,
            count_of(old(self).entries_by_level@, level@) < u64::MAX,
            component matches Some(c) ==> count_of(old(self).entries_by_component@, c@) < u64::MAX,
        ensures
            keys_distinct(pairs_view(final(self).entries_by_level@)),
            keys_distinct(pairs_view(final(self).entries_by_component@)),
            final(self).total_entries == old(self).total_entries + 1,
            count_of(final(self).entries_by_level@, level@) == count_of(old(self).entries_by_level@, level@) + 1,
            forall|k: Seq<char>|
                k != level@ ==> #[trigger] lookup(pairs_view(final(self).entries_by_level@), k) == lookup(
                    pairs_view(old(self).entries_by_level@),
                    k,
                ),
            match component {
                Some(c) => {
                    &&& count_of(final(self).entries_by_component@, c@) == count_of(
                        old(self).entries_by_component@,
                        c@,
                    ) + 1
                    &&& forall|k: Seq<char>|
                        k != c@ ==> #[trigger] lookup(pairs_view(final(self).entries_by_component@), k)
                            == lookup(pairs_view(old(self).entries_by_component@), k)
                },
                None => final(self).entries_by_component@ == old(self).entries_by_component@,
            },
            final(self).log_file_size == log_file_size,
            final(self).log_file_count == old(self).log_file_count,
            final(self).last_rotation == old(self).last_rotation,
    {
        self.total_entries = self.total_entries + 1;
        let n = match get_value(&self.entries_by_level, level) {
            Some(n) => n,
            None => 0,
        };
        set_value(&mut self.entries_by_level, String::from_str(level), n + 1);
        match component {
            Some(c) => {
                let m = match get_value(&self.entries_by_component, c) {
                    Some(m) => m,
                    None => 0,
                };
                set_value(&mut self.entries_by_component, String::from_str(c), m + 1);
            },
            None => {},
        }
        self.log_file_size = log_file_size;
    }
}

/// Whether the log file has outgrown its limit of `max_log_size_mb`
/// megabytes.
pub fn needs_rotation(current_size: u64, max_log_size_mb: u64) -> (b: bool)
    requires
        max_log_size_mb * 1024 * 1024 <= u64::MAX,
    ensures
        b == (current_size > max_log_size_mb * 1024 * 1024),
{
    current_size > max_log_size_mb * 1024 * 1024
}

/// The renames that rotate the log files, in order: from the newest kept
/// copy down, copy `i - 1` becomes copy `i` (copy 0 is the log file itself),
/// for `i` from `retention_count - 1` down to 1.
pub fn rotation_steps(retention_count: u32) -> (r: Vec<(u32, u32)>)
    ensures
        r@.len() == if retention_count > 0 {
            retention_count - 1
        } else {
            0
        },
        forall|k: int| 0 <= k < r@.len() ==> #[trigger] r@[k] == ((retention_count - 1 - k - 1) as u32, (retention_count - 1 - k) as u32),
{
    let mut r: Vec<(u32, u32)> = Vec::new();
    if retention_count == 0 {
        return r;
    }
    let mut i: u32 = retention_count - 1;
    while i >= 1
        invariant
            0 <= i < retention_count,
            r@.len() == retention_count - 1 - i,
            forall|k: int| 0 <= k < r@.len() ==> #[trigger] r@[k] == ((retention_count - 1 - k - 1) as u32, (retention_count - 1 - k) as u32),
        decreases i,
    {
        r.push((i - 1, i));
        i = i - 1;
    }
    r
}

} // verus!
