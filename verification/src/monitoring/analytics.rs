//! Usage statistics and the whole-number parts of performance analysis.
//!
//! Averages and scores of floating-point readings are computed outside.

use crate::monitoring::alerts::{Alert, AlertView};
use crate::monitoring::{AlertSeverity, HealthCheck, HealthStatus};
use vstd::prelude::*;

verus! {

/// How a workspace is used.
#[derive(Debug, Clone, Copy)]
pub struct WorkspaceUsage {
    pub total_time: u64,
    pub session_count: u32,
    pub avg_session_duration: u64,
    pub last_used: u64,
    pub task_count: u32,
}

/// Patterns of use.
#[derive(Debug, Clone)]
pub struct UsagePatterns {
    /// Hours of the day with the most use
    pub peak_hours: Vec<u8>,
    pub avg_session_duration: u64,
    /// Uses per component; no component occurs twice
    pub component_usage: Vec<(String, u64)>,
    /// Use per workspace; no workspace occurs twice
    pub workspace_patterns: Vec<(String, WorkspaceUsage)>,
    /// Errors per kind; no kind occurs twice
    pub error_patterns: Vec<(String, u32)>,
}

impl Default for UsagePatterns {
    fn default() -> (r: Self)
        ensures
            r.peak_hours@.len() == 0,
            r.avg_session_duration == 0,
            r.component_usage@.len() == 0,
            r.workspace_patterns@.len() == 0,
            r.error_patterns@.len() == 0,
    {
        UsagePatterns {
            peak_hours: Vec::new(),
            avg_session_duration: 0,
            component_usage: Vec::new(),
            workspace_patterns: Vec::new(),
            error_patterns: Vec::new(),
        }
    }
}

/// The time range a report covers.
#[derive(Debug, Clone, Copy)]
pub struct TimeRange {
    pub start: u64,
    pub end: u64,
    pub duration_hours: u64,
}

#[derive(Debug, Clone, Copy, PartialEq, Eq, Structural)]
pub enum BottleneckSeverity {
    Low,
    Medium,
    High,
    Critical,
}

#[derive(Debug, Clone, Copy, PartialEq, Eq, Structural)]
pub enum TrendDirection {
    Increasing,
    Decreasing,
    Stable,
    Volatile,
}

#[derive(Debug, Clone, Copy, PartialEq, Eq, Structural)]
pub enum RecommendationCategory {
    Performance,
    Reliability,
    Security,
    Capacity,
    Cost,
    UserExperience,
}

#[derive(Debug, Clone, Copy, PartialEq, Eq, Structural)]
pub enum RecommendationPriority {
    Critical,
    High,
    Medium,
    Low,
}

/// The sum of the values.
pub open spec fn total(s: Seq<u64>) -> nat
    decreases s.len(),
{
    if s.len() == 0 {
        0
    } else {
        total(s.drop_last()) + s.last() as nat
    }
}

/// The largest value; zero for none.
pub open spec fn largest(s: Seq<u64>) -> u64
    decreases s.len(),
{
    if s.len() == 0 {
        0
    } else if s.last() > largest(s.drop_last()) {
        s.last()
    } else {
        largest(s.drop_last())
    }
}

/// Average (rounded down) and largest of whole-number readings.
#[derive(Debug, Clone, Copy)]
pub struct ReadingSummary {
    pub average: u64,
    pub peak: u64,
}

/// The average, rounded down, and the largest of some readings; both zero for none.
pub fn summarize(readings: &Vec<u64>) -> (r: ReadingSummary)
    requires
        total(readings@) <= u64::MAX,
    ensures
        readings@.len() == 0 ==> r.average == 0,
        readings@.len() > 0 ==> r.average == total(readings@) / readings@.len() as nat,
        r.peak == largest(readings@),
{
    let mut sum: u64 = 0;
    let mut peak: u64 = 0;
    let mut i: usize = 0;
    while i < readings.len()
        invariant
            0 <= i <= readings@.len(),
            total(readings@) <= u64::MAX,
            sum == total(readings@.take(i as int)),
            peak == largest(readings@.take(i as int)),
        decreases readings.len() - i,
    {
        let ghost t = readings@.take(i + 1);
        assert(t.drop_last() =~= readings@.take(i as int));
        proof {
            lemma_total_prefix(readings@, i + 1);
        }
        sum = sum + readings[i];
        if readings[i] > peak {
            peak = readings[i];
        }
        i = i + 1;
    }
    assert(readings@.take(i as int) =~= readings@);
    let average = if readings.len() == 0 {
        0
    } else {
        sum / (readings.len() as u64)
    };
    ReadingSummary { average, peak }
}

proof fn lemma_total_prefix(s: Seq<u64>, k: int)
    requires
        0 <= k <= s.len(),
    ensures
        total(s.take(k)) <= total(s),
    decreases s.len(),
{
    if k < s.len() {
        lemma_total_prefix(s.drop_last(), k);
        assert(s.drop_last().take(k) =~= s.take(k));
    } else {
        assert(s.take(k) =~= s);
    }
}

/// The positions of the timestamps that fall in the range, both ends
/// included, in order.
pub open spec fn positions_in_range(ts: Seq<u64>, start: u64, end: u64) -> Seq<int>
    decreases ts.len(),
{
    if ts.len() == 0 {
        Seq::empty()
    } else if start <= ts.last() <= end {
        positions_in_range(ts.drop_last(), start, end).push(ts.len() - 1)
    } else {
        positions_in_range(ts.drop_last(), start, end)
    }
}

/// The alerts as plain values.
pub open spec fn alert_views(s: Seq<Alert>) -> Seq<AlertView> {
    s.map_values(|a: Alert| a@)
}

/// The alerts raised within the range, both ends included, in order.
pub open spec fn alerts_within(s: Seq<AlertView>, start: u64, end: u64) -> Seq<AlertView>
    decreases s.len(),
{
    if s.len() == 0 {
        Seq::empty()
    } else if start <= s.last().timestamp <= end {
        alerts_within(s.drop_last(), start, end).push(s.last())
    } else {
        alerts_within(s.drop_last(), start, end)
    }
}

/// The alerts of the history raised within the time range.
pub fn get_alerts_in_range(history: &Vec<Alert>, time_range: &TimeRange) -> (r: Vec<Alert>)
    ensures
        alert_views(r@) == alerts_within(alert_views(history@), time_range.start, time_range.end),
{
    let mut r: Vec<Alert> = Vec::new();
    let mut i: usize = 0;
    while i < history.len()
        invariant
            0 <= i <= history@.len(),
            alert_views(r@) == alerts_within(alert_views(history@).take(i as int), time_range.start, time_range.end),
        decreases history.len() - i,
    {
        let ghost t = alert_views(history@).take(i + 1);
        assert(t.drop_last() =~= alert_views(history@).take(i as int));
        assert(t.last() == history@[i as int]@);
        let ts = history[i].timestamp;
        if ts >= time_range.start && ts <= time_range.end {
            let a = history[i].clone();
            let ghost before = r@;
            r.push(a);
            assert(r@ == before.push(r@.last()));
            assert(alert_views(r@) =~= alert_views(before).push(history@[i as int]@));
        }
        i = i + 1;
    }
    assert(alert_views(history@).take(i as int) =~= alert_views(history@));
    r
}

/// The positions of the health checks of the history made within the time
/// range.
pub fn health_checks_in_range(history: &Vec<HealthCheck>, time_range: &TimeRange) -> (r: Vec<usize>)
    ensures
        r@.map_values(|k: usize| k as int) == positions_in_range(
            history@.map_values(|h: HealthCheck| h.timestamp),
            time_range.start,
            time_range.end,
        ),
{
    let ghost ts = history@.map_values(|h: HealthCheck| h.timestamp);
    let mut r: Vec<usize> = Vec::new();
    let mut i: usize = 0;
    while i < history.len()
        invariant
            0 <= i <= history@.len(),
            ts == history@.map_values(|h: HealthCheck| h.timestamp),
            r@.map_values(|k: usize| k as int) == positions_in_range(ts.take(i as int), time_range.start, time_range.end),
        decreases history.len() - i,
    {
        let ghost t = ts.take(i + 1);
        assert(t.drop_last() =~= ts.take(i as int));
        assert(t.last() == history@[i as int].timestamp);
        let stamp = history[i].timestamp;
        if stamp >= time_range.start && stamp <= time_range.end {
            let ghost before = r@;
            r.push(i);
            assert(r@.map_values(|k: usize| k as int) =~= before.map_values(|k: usize| k as int).push(i as int));
        }
        i = i + 1;
    }
    assert(ts.take(i as int) =~= ts);
    r
}

/// The number of checks that found the system healthy.
pub open spec fn healthy_count(s: Seq<HealthCheck>) -> nat
    decreases s.len(),
{
    if s.len() == 0 {
        0
    } else {
        healthy_count(s.drop_last()) + if s.last().overall_status == HealthStatus::Healthy {
            1nat
        } else {
            0nat
        }
    }
}

proof fn lemma_healthy_count_bounded(s: Seq<HealthCheck>)
    ensures
        healthy_count(s) <= s.len(),
    decreases s.len(),
{
    if s.len() > 0 {
        lemma_healthy_count_bounded(s.drop_last());
    }
}

/// The number of checks that found the system healthy.
pub fn count_healthy_checks(checks: &Vec<HealthCheck>) -> (n: usize)
    ensures
        n == healthy_count(checks@),
{
    let mut n: usize = 0;
    let mut i: usize = 0;
    while i < checks.len()
        invariant
            0 <= i <= checks@.len(),
            n == healthy_count(checks@.take(i as int)),
        decreases checks.len() - i,
    {
        let ghost t = checks@.take(i + 1);
        assert(t.drop_last() =~= checks@.take(i as int));
        proof {
            lemma_healthy_count_bounded(t);
        }
        if checks[i].overall_status == HealthStatus::Healthy {
            n = n + 1;
        }
        i = i + 1;
    }
    assert(checks@.take(i as int) =~= checks@);
    n
}

/// Whether an alert counts as an error: its severity is error or critical.
pub open spec fn is_error_alert(a: AlertView) -> bool {
    a.severity == AlertSeverity::Error || a.severity == AlertSeverity::Critical
}

/// How many error alerts each category has.
pub open spec fn error_count_of(s: Seq<AlertView>, category: Seq<char>) -> nat
    decreases s.len(),
{
    if s.len() == 0 {
        0
    } else {
        error_count_of(s.drop_last(), category) + if is_error_alert(s.last()) && s.last().category
            == category {
            1nat
        } else {
            0nat
        }
    }
}

proof fn lemma_error_count_bounded(s: Seq<AlertView>, c: Seq<char>)
    ensures
        error_count_of(s, c) <= s.len(),
    decreases s.len(),
{
    if s.len() > 0 {
        lemma_error_count_bounded(s.drop_last(), c);
    }
}

/// The error alerts counted by category: one entry per category that has
/// one, each category once.
pub fn error_counts_by_category(alerts: &Vec<Alert>) -> (r: Vec<(String, u64)>)
    ensures
        crate::assoc::keys_distinct(crate::assoc::pairs_view(r@)),
        forall|g: int|
            0 <= g < r@.len() ==> (#[trigger] r@[g]).1 == error_count_of(alert_views(alerts@), r@[g].0@)
                && r@[g].1 > 0,
        forall|c: Seq<char>|
            error_count_of(alert_views(alerts@), c) > 0 ==> #[trigger] crate::assoc::lookup(
                crate::assoc::pairs_view(r@),
                c,
            ) == Some(error_count_of(alert_views(alerts@), c) as u64),
{
    let ghost views = alert_views(alerts@);
    let mut r: Vec<(String, u64)> = Vec::new();
    let mut i: usize = 0;
    while i < alerts.len()
        invariant
            0 <= i <= alerts@.len(),
            views == alert_views(alerts@),
            crate::assoc::keys_distinct(crate::assoc::pairs_view(r@)),
            forall|g: int|
                0 <= g < r@.len() ==> (#[trigger] r@[g]).1 == error_count_of(views.take(i as int), r@[g].0@)
                    && r@[g].1 > 0,
            forall|c: Seq<char>|
                error_count_of(views.take(i as int), c) > 0 ==> #[trigger] crate::assoc::lookup(
                    crate::assoc::pairs_view(r@),
                    c,
                ) == Some(error_count_of(views.take(i as int), c) as u64),
            forall|c: Seq<char>|
                error_count_of(views.take(i as int), c) == 0 ==> #[trigger] crate::assoc::lookup(
                    crate::assoc::pairs_view(r@),
                    c,
                ) is None,
        decreases alerts.len() - i,
    {
        let ghost t = views.take(i + 1);
        assert(t.drop_last() =~= views.take(i as int));
        assert(t.last() == alerts@[i as int]@);
        proof {
            lemma_error_count_bounded(t, alerts@[i as int]@.category);
        }
        let severity = alerts[i].severity;
        if severity == AlertSeverity::Error || severity == AlertSeverity::Critical {
            let key = alerts[i].category.clone();
            let ghost kv = key@;
            let ghost before = crate::assoc::pairs_view(r@);
            let current: u64 = match crate::assoc::find_key(&r, key.as_str()) {
                Some(k) => {
                    proof {
                        crate::assoc::lemma_lookup_at(before, k as int);
                    }
                    r[k].1
                },
                None => {
                    proof {
                        crate::assoc::lemma_lookup_absent(before, kv);
                    }
                    0
                },
            };
            assert(current == error_count_of(views.take(i as int), kv));
            crate::assoc::set_value(&mut r, key, current + 1);
            proof {
                assert(t.last().category == kv);
                assert(is_error_alert(t.last()));
                assert(error_count_of(t, kv) == error_count_of(views.take(i as int), kv) + 1);
                assert forall|c: Seq<char>| c != kv implies #[trigger] error_count_of(t, c) == error_count_of(
                    views.take(i as int),
                    c,
                ) by {}
                assert forall|g: int| 0 <= g < r@.len() implies (#[trigger] r@[g]).1 == error_count_of(
                    t,
                    r@[g].0@,
                ) && r@[g].1 > 0 by {
                    crate::assoc::lemma_lookup_at(crate::assoc::pairs_view(r@), g);
                    let c = r@[g].0@;
                    assert(crate::assoc::pairs_view(r@)[g] == (c, r@[g].1));
                    if c != kv {
                        lemma_error_count_bounded(views.take(i as int), c);
                        assert(crate::assoc::lookup(before, c) == Some(r@[g].1));
                        if error_count_of(views.take(i as int), c) == 0 {
                            assert(crate::assoc::lookup(before, c) is None);
                        }
                        assert(error_count_of(views.take(i as int), c) > 0);
                        assert(error_count_of(t, c) == error_count_of(views.take(i as int), c));
                    } else {
                        assert(crate::assoc::lookup(crate::assoc::pairs_view(r@), kv) == Some((current + 1) as u64));
                    }
                }
                assert forall|c: Seq<char>| error_count_of(t, c) == 0 implies #[trigger] crate::assoc::lookup(
                    crate::assoc::pairs_view(r@),
                    c,
                ) is None by {
                    assert(c != kv);
                }
            }
        } else {
            proof {
                assert forall|c: Seq<char>| #[trigger] error_count_of(t, c) == error_count_of(
                    views.take(i as int),
                    c,
                ) by {}
            }
        }
        i = i + 1;
    }
    assert(views.take(i as int) =~= views);
    r
}

/// Every tenth of the positions, from the first: the readings a trend is
/// drawn from.
pub fn trend_positions(n: usize) -> (r: Vec<usize>)
    ensures
        r@.len() == (if n == 0 {
            0
        } else {
            (n - 1) / 10 + 1
        }),
        forall|k: int| 0 <= k < r@.len() ==> r@[k] == 10 * k,
{
    let count: usize = if n == 0 {
        0
    } else {
        (n - 1) / 10 + 1
    };
    let mut r: Vec<usize> = Vec::new();
    let mut k: usize = 0;
    while k < count
        invariant
            0 <= k <= count,
            count == (if n == 0 {
                0
            } else {
                (n - 1) / 10 + 1
            }),
            r@.len() == k,
            forall|j: int| 0 <= j < r@.len() ==> r@[j] == 10 * j,
        decreases count - k,
    {
        assert(10 * k < n) by (nonlinear_arith)
            requires
                k < count,
                n > 0,
                count == (n - 1) / 10 + 1,
        ;
        r.push(10 * k);
        k = k + 1;
    }
    r
}

/// The titles of the recommendations of critical priority.
pub open spec fn critical_titles(recs: Seq<(RecommendationPriority, String)>) -> Seq<Seq<char>>
    decreases recs.len(),
{
    if recs.len() == 0 {
        Seq::empty()
    } else if recs.last().0 == RecommendationPriority::Critical {
        critical_titles(recs.drop_last()).push(recs.last().1@)
    } else {
        critical_titles(recs.drop_last())
    }
}

/// The titles of the recommendations of high or medium priority.
pub open spec fn improvement_titles(recs: Seq<(RecommendationPriority, String)>) -> Seq<Seq<char>>
    decreases recs.len(),
{
    if recs.len() == 0 {
        Seq::empty()
    } else if recs.last().0 == RecommendationPriority::High || recs.last().0
        == RecommendationPriority::Medium {
        improvement_titles(recs.drop_last()).push(recs.last().1@)
    } else {
        improvement_titles(recs.drop_last())
    }
}

/// The executive summary's lists: the titles of the critical
/// recommendations, and of at most three of high or medium priority.
pub fn summary_lists(recs: &Vec<(RecommendationPriority, String)>) -> (r: (Vec<String>, Vec<String>))
    ensures
        crate::text::strings_view(r.0@) == critical_titles(recs@),
        crate::text::strings_view(r.1@) == (if improvement_titles(recs@).len() > 3 {
            improvement_titles(recs@).take(3)
        } else {
            improvement_titles(recs@)
        }),
{
    let mut critical: Vec<String> = Vec::new();
    let mut improve: Vec<String> = Vec::new();
    let mut i: usize = 0;
    while i < recs.len()
        invariant
            0 <= i <= recs@.len(),
            crate::text::strings_view(critical@) == critical_titles(recs@.take(i as int)),
            crate::text::strings_view(improve@) == (if improvement_titles(recs@.take(i as int)).len() > 3 {
                improvement_titles(recs@.take(i as int)).take(3)
            } else {
                improvement_titles(recs@.take(i as int))
            }),
        decreases recs.len() - i,
    {
        let ghost t = recs@.take(i + 1);
        assert(t.drop_last() =~= recs@.take(i as int));
        assert(t.last() == recs@[i as int]);
        let p = recs[i].0;
        if p == RecommendationPriority::Critical {
            let ghost before = critical@;
            critical.push(recs[i].1.clone());
            assert(critical@ == before.push(critical@.last()));
            assert(crate::text::strings_view(critical@) =~= crate::text::strings_view(before).push(
                recs@[i as int].1@,
            ));
        } else if p == RecommendationPriority::High || p == RecommendationPriority::Medium {
            let ghost prev = improvement_titles(recs@.take(i as int));
            let ghost next = improvement_titles(t);
            assert(next == prev.push(recs@[i as int].1@));
            if improve.len() < 3 {
                let ghost before = improve@;
                improve.push(recs[i].1.clone());
                assert(improve@ == before.push(improve@.last()));
                assert(crate::text::strings_view(improve@) =~= crate::text::strings_view(before).push(
                    recs@[i as int].1@,
                ));
                proof {
                    if next.len() > 3 {
                        assert(next.take(3) =~= crate::text::strings_view(improve@));
                    }
                }
            } else {
                assert(next.take(3) =~= prev.take(3));
            }
        }
        i = i + 1;
    }
    assert(recs@.take(i as int) =~= recs@);
    (critical, improve)
}

} // verus!
