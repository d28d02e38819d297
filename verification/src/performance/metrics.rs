//! The performance metrics collector: the latest response times and their
//! average, counts of errors and operations by kind, a bounded history of
//! samples, and the alerts that the figures call for.
//!
//! CPU usage, the error rate and the throughput are floating-point figures;
//! they are computed, compared and kept outside, from the counts given here.

use crate::assoc::{get_value, keys_distinct, lookup, pairs_view, set_value};
use crate::error::TimeSpan;
use vstd::prelude::*;

verus! {

/// What a performance alert is about.
#[derive(Debug, Clone, Copy, PartialEq, Eq, Structural)]
pub enum AlertType {
    CpuHigh,
    MemoryHigh,
    ResponseTimeSlow,
    ErrorRateHigh,
    ThroughputLow,
}

/// How urgent a performance alert is.
#[derive(Debug, Clone, Copy, PartialEq, Eq, Structural)]
pub enum AlertSeverity {
    Info,
    Warning,
    Critical,
}

/// How many response times are kept.
pub const RESPONSE_WINDOW: usize = 100;

/// Memory use, in MB, above which the alert is critical.
pub const MEMORY_CRITICAL_MB: u64 = 1024;

/// Memory use, in MB, above which the alert is a warning.
pub const MEMORY_WARNING_MB: u64 = 512;

/// Response time, in milliseconds, above which the alert is critical.
pub const RESPONSE_CRITICAL_MS: u64 = 1000;

/// Response time, in milliseconds, above which the alert is a warning.
pub const RESPONSE_WARNING_MS: u64 = 500;

/// The last `n` elements of `s`, or all of them while there are fewer.
pub open spec fn last_n<T>(s: Seq<T>, n: nat) -> Seq<T> {
    if s.len() > n {
        s.skip(s.len() - n)
    } else {
        s
    }
}

/// The spans added up, in nanoseconds.
pub open spec fn sum_nanos(s: Seq<TimeSpan>) -> nat
    decreases s.len(),
{
    if s.len() == 0 {
        0
    } else {
        sum_nanos(s.drop_last()) + s.last().total_nanos()
    }
}

proof fn lemma_sum_nanos_prefix(s: Seq<TimeSpan>, k: int)
    requires
        0 <= k <= s.len(),
    ensures
        sum_nanos(s.take(k)) <= sum_nanos(s),
    decreases s.len(),
{
    if k < s.len() {
        lemma_sum_nanos_prefix(s.drop_last(), k);
        assert(s.drop_last().take(k) =~= s.take(k));
    } else {
        assert(s.take(k) =~= s);
    }
}

/// The memory alert for a memory use in bytes, with its threshold in MB:
/// critical above 1024 MB, a warning above 512 MB, counted in whole MB.
pub open spec fn memory_alert_for(memory_usage: usize) -> Option<(AlertSeverity, u64)> {
    let mb = memory_usage / 1024 / 1024;
    if mb > MEMORY_CRITICAL_MB {
        Some((AlertSeverity::Critical, MEMORY_CRITICAL_MB))
    } else if mb > MEMORY_WARNING_MB {
        Some((AlertSeverity::Warning, MEMORY_WARNING_MB))
    } else {
        None
    }
}

/// The response-time alert for a response time, with its threshold in
/// milliseconds: critical above 1000 ms, a warning above 500 ms.
pub open spec fn response_time_alert_for(t: TimeSpan) -> Option<(AlertSeverity, u64)> {
    if t.total_nanos() > RESPONSE_CRITICAL_MS * 1_000_000 {
        Some((AlertSeverity::Critical, RESPONSE_CRITICAL_MS))
    } else if t.total_nanos() > RESPONSE_WARNING_MS * 1_000_000 {
        Some((AlertSeverity::Warning, RESPONSE_WARNING_MS))
    } else {
        None
    }
}

/// The memory alert for a memory use in bytes, with its threshold in MB.
pub fn memory_alert(memory_usage: usize) -> (a: Option<(AlertSeverity, u64)>)
    ensures
        a == memory_alert_for(memory_usage),
{
    let mb = (memory_usage / 1024 / 1024) as u64;
    if mb > MEMORY_CRITICAL_MB {
        Some((AlertSeverity::Critical, MEMORY_CRITICAL_MB))
    } else if mb > MEMORY_WARNING_MB {
        Some((AlertSeverity::Warning, MEMORY_WARNING_MB))
    } else {
        None
    }
}

/// The response-time alert for a response time, with its threshold in milliseconds.
pub fn response_time_alert(t: TimeSpan) -> (a: Option<(AlertSeverity, u64)>)
    ensures
        a == response_time_alert_for(t),
{
    if t.longer_than_millis(RESPONSE_CRITICAL_MS) {
        Some((AlertSeverity::Critical, RESPONSE_CRITICAL_MS))
    } else if t.longer_than_millis(RESPONSE_WARNING_MS) {
        Some((AlertSeverity::Warning, RESPONSE_WARNING_MS))
    } else {
        None
    }
}

/// `s` with an alert of the kind, when there is one.
pub open spec fn with_alert(s: Seq<(AlertType, AlertSeverity)>, kind: AlertType, severity: Option<AlertSeverity>) -> Seq<
    (AlertType, AlertSeverity),
> {
    match severity {
        Some(v) => s.push((kind, v)),
        None => s,
    }
}

/// The severity of an alert with its threshold, if any.
pub open spec fn severity_of(a: Option<(AlertSeverity, u64)>) -> Option<AlertSeverity> {
    match a {
        Some(p) => Some(p.0),
        None => None,
    }
}

/// The performance alerts, in order: CPU, memory, response time, error rate.
pub open spec fn performance_alerts(
    cpu: Option<AlertSeverity>,
    memory_usage: usize,
    response_time: TimeSpan,
    error_rate: Option<AlertSeverity>,
) -> Seq<(AlertType, AlertSeverity)> {
    let s0 = with_alert(Seq::empty(), AlertType::CpuHigh, cpu);
    let s1 = with_alert(s0, AlertType::MemoryHigh, severity_of(memory_alert_for(memory_usage)));
    let s2 = with_alert(
        s1,
        AlertType::ResponseTimeSlow,
        severity_of(response_time_alert_for(response_time)),
    );
    with_alert(s2, AlertType::ErrorRateHigh, error_rate)
}

/// Appends an alert of the kind, when there is one.
fn push_alert(alerts: &mut Vec<(AlertType, AlertSeverity)>, kind: AlertType, severity: Option<AlertSeverity>)
    ensures
        final(alerts)@ == with_alert(old(alerts)@, kind, severity),
{
    if let Some(v) = severity {
        alerts.push((kind, v));
    }
}

/// The severity of an alert with its threshold, if any.
fn severity(a: Option<(AlertSeverity, u64)>) -> (s: Option<AlertSeverity>)
    ensures
        s == severity_of(a),
{
    match a {
        Some(p) => Some(p.0),
        None => None,
    }
}

/// The performance alerts, in order: CPU, memory, response time and error
/// rate. The CPU and error-rate comparisons, made on floating-point figures,
/// come in as their outcome.
pub fn check_performance_alerts(
    cpu: Option<AlertSeverity>,
    memory_usage: usize,
    response_time: TimeSpan,
    error_rate: Option<AlertSeverity>,
) -> (alerts: Vec<(AlertType, AlertSeverity)>)
    ensures
        alerts@ == performance_alerts(cpu, memory_usage, response_time, error_rate),
{
    let mut alerts: Vec<(AlertType, AlertSeverity)> = Vec::new();
    push_alert(&mut alerts, AlertType::CpuHigh, cpu);
    push_alert(&mut alerts, AlertType::MemoryHigh, severity(memory_alert(memory_usage)));
    push_alert(&mut alerts, AlertType::ResponseTimeSlow, severity(response_time_alert(response_time)));
    push_alert(&mut alerts, AlertType::ErrorRateHigh, error_rate);
    alerts
}

/// The latest response times, oldest first, at most 100 of them.
pub struct ResponseTimeWindow {
    samples: Vec<TimeSpan>,
}

/// The elements of `v` from index `from` on.
fn skip_first(v: Vec<TimeSpan>, from: usize) -> (r: Vec<TimeSpan>)
    requires
        from <= v@.len(),
    ensures
        r@ == v@.skip(from as int),
{
    let mut v = v;
    v.split_off(from)
}

impl ResponseTimeWindow {
    pub closed spec fn samples(&self) -> Seq<TimeSpan> {
        self.samples@
    }

    /// Whether one more response time can be recorded: the window it leaves
    /// adds up to at most `u64::MAX` nanoseconds.
    pub open spec fn fits(&self, d: TimeSpan) -> bool {
        sum_nanos(last_n(self.samples().push(d), RESPONSE_WINDOW as nat)) <= u64::MAX
    }

    /// No response time yet.
    pub fn new() -> (r: Self)
        ensures
            r.samples().len() == 0,
    {
        ResponseTimeWindow { samples: Vec::new() }
    }

    /// The response times kept, oldest first.
    pub fn get_samples(&self) -> (r: Vec<TimeSpan>)
        ensures
            r@ == self.samples(),
    {
        self.samples.clone()
    }

    /// Whether `d` can be recorded.
    pub fn can_record(&self, d: TimeSpan) -> (b: bool)
        ensures
            b == self.fits(d),
    {
        let mut all = self.samples.clone();
        assert(all@ =~= self.samples@);
        all.push(d);
        if all.len() > RESPONSE_WINDOW {
            let drop = all.len() - RESPONSE_WINDOW;
            all = skip_first(all, drop);
        }
        let ghost w = all@;
        assert(w == last_n(self.samples().push(d), RESPONSE_WINDOW as nat));
        let mut total: u64 = 0;
        let mut i: usize = 0;
        while i < all.len()
            invariant
                0 <= i <= all@.len(),
                all@ == w,
                w == last_n(self.samples().push(d), RESPONSE_WINDOW as nat),
                total == sum_nanos(w.take(i as int)),
            decreases all.len() - i,
        {
            let ghost t = w.take(i + 1);
            assert(t.drop_last() =~= w.take(i as int));
            assert(t.last() == w[i as int]);
            assert(sum_nanos(t) == sum_nanos(w.take(i as int)) + w[i as int].total_nanos());
            let n = match all[i].checked_nanos() {
                Some(n) => n,
                None => {
                    proof {
                        lemma_sum_nanos_prefix(w, i + 1);
                    }
                    return false;
                },
            };
            match total.checked_add(n) {
                Some(s) => total = s,
                None => {
                    proof {
                        lemma_sum_nanos_prefix(w, i + 1);
                    }
                    return false;
                },
            }
            i = i + 1;
        }
        assert(w.take(i as int) =~= w);
        true
    }

    /// Records a response time, keeping the latest 100, and gives their
    /// average, in whole nanoseconds.
    pub fn record(&mut self, d: TimeSpan) -> (avg: TimeSpan)
        requires
            old(self).fits(d),
        ensures
            final(self).samples() == last_n(old(self).samples().push(d), RESPONSE_WINDOW as nat),
            final(self).samples().len() > 0,
            avg.total_nanos() == sum_nanos(final(self).samples()) / final(self).samples().len(),
    {
        self.samples.push(d);
        if self.samples.len() > RESPONSE_WINDOW {
            let drop = self.samples.len() - RESPONSE_WINDOW;
            let tail = self.samples.split_off(drop);
            self.samples = tail;
        }
        let ghost w = self.samples@;
        assert(w == last_n(old(self).samples().push(d), RESPONSE_WINDOW as nat));
        let mut total: u64 = 0;
        let mut i: usize = 0;
        while i < self.samples.len()
            invariant
                0 <= i <= w.len(),
                self.samples@ == w,
                sum_nanos(w) <= u64::MAX,
                total == sum_nanos(w.take(i as int)),
            decreases w.len() - i,
        {
            let ghost t = w.take(i + 1);
            assert(t.drop_last() =~= w.take(i as int));
            assert(t.last() == w[i as int]);
            proof {
                lemma_sum_nanos_prefix(w, i + 1);
            }
            let n = self.samples[i].as_nanos_u64();
            total = total + n;
            i = i + 1;
        }
        assert(w.take(i as int) =~= w);
        TimeSpan::from_nanos(total / (self.samples.len() as u64))
    }
}

/// The sum of the counts.
pub open spec fn sum_u32(s: Seq<(Seq<char>, u32)>) -> nat
    decreases s.len(),
{
    if s.len() == 0 {
        0
    } else {
        sum_u32(s.drop_last()) + s.last().1 as nat
    }
}

/// The sum of the counts.
pub open spec fn sum_u64(s: Seq<(Seq<char>, u64)>) -> nat
    decreases s.len(),
{
    if s.len() == 0 {
        0
    } else {
        sum_u64(s.drop_last()) + s.last().1 as nat
    }
}

proof fn lemma_sum_u32_prefix(s: Seq<(Seq<char>, u32)>, k: int)
    requires
        0 <= k <= s.len(),
    ensures
        sum_u32(s.take(k)) <= sum_u32(s),
    decreases s.len(),
{
    if k < s.len() {
        lemma_sum_u32_prefix(s.drop_last(), k);
        assert(s.drop_last().take(k) =~= s.take(k));
    } else {
        assert(s.take(k) =~= s);
    }
}

proof fn lemma_sum_u64_prefix(s: Seq<(Seq<char>, u64)>, k: int)
    requires
        0 <= k <= s.len(),
    ensures
        sum_u64(s.take(k)) <= sum_u64(s),
    decreases s.len(),
{
    if k < s.len() {
        lemma_sum_u64_prefix(s.drop_last(), k);
        assert(s.drop_last().take(k) =~= s.take(k));
    } else {
        assert(s.take(k) =~= s);
    }
}

/// Counts of errors by error type and of operations by operation type.
pub struct OperationCounters {
    errors: Vec<(String, u32)>,
    operations: Vec<(String, u64)>,
}

impl OperationCounters {
    pub closed spec fn errors_view(&self) -> Seq<(Seq<char>, u32)> {
        pairs_view(self.errors@)
    }

    pub closed spec fn operations_view(&self) -> Seq<(Seq<char>, u64)> {
        pairs_view(self.operations@)
    }

    /// No error type and no operation type occurs twice.
    pub open spec fn wf(&self) -> bool {
        keys_distinct(self.errors_view()) && keys_distinct(self.operations_view())
    }

    /// The errors counted for an error type; zero when none is.
    pub open spec fn error_count(&self, k: Seq<char>) -> u32 {
        match lookup(self.errors_view(), k) {
            Some(n) => n,
            None => 0,
        }
    }

    /// The operations counted for an operation type; zero when none is.
    pub open spec fn operation_count(&self, k: Seq<char>) -> u64 {
        match lookup(self.operations_view(), k) {
            Some(n) => n,
            None => 0,
        }
    }

    /// Nothing counted.
    pub fn new() -> (r: Self)
        ensures
            r.wf(),
            r.errors_view().len() == 0,
            r.operations_view().len() == 0,
    {
        let r = OperationCounters { errors: Vec::new(), operations: Vec::new() };
        assert(r.errors_view() =~= Seq::<(Seq<char>, u32)>::empty());
        assert(r.operations_view() =~= Seq::<(Seq<char>, u64)>::empty());
        r
    }

    /// Counts one error of the type.
    pub fn record_error(&mut self, error_type: &str)
        requires
            old(self).wf(),
            old(self).error_count(error_type@) < u32::MAX,
        ensures
            final(self).wf(),
            final(self).error_count(error_type@) == old(self).error_count(error_type@) + 1,
            forall|k: Seq<char>|
                k != error_type@ ==> #[trigger] lookup(final(self).errors_view(), k) == lookup(
                    old(self).errors_view(),
                    k,
                ),
            final(self).operations_view() == old(self).operations_view(),
    {
        let n = match get_value(&self.errors, error_type) {
            Some(n) => n,
            None => 0,
        };
        set_value(&mut self.errors, String::from_str(error_type), n + 1);
    }

    /// Counts one operation of the type.
    pub fn record_operation(&mut self, operation_type: &str)
        requires
            old(self).wf(),
            old(self).operation_count(operation_type@) < u64::MAX,
        ensures
            final(self).wf(),
            final(self).operation_count(operation_type@) == old(self).operation_count(operation_type@)
                + 1,
            forall|k: Seq<char>|
                k != operation_type@ ==> #[trigger] lookup(final(self).operations_view(), k) == lookup(
                    old(self).operations_view(),
                    k,
                ),
            final(self).errors_view() == old(self).errors_view(),
    {
        let n = match get_value(&self.operations, operation_type) {
            Some(n) => n,
            None => 0,
        };
        set_value(&mut self.operations, String::from_str(operation_type), n + 1);
    }

    /// All errors counted, when their sum fits in a `u32`.
    pub fn error_total(&self) -> (r: Option<u32>)
        ensures
            r == if sum_u32(self.errors_view()) <= u32::MAX {
                Some(sum_u32(self.errors_view()) as u32)
            } else {
                None::<u32>
            },
    {
        let ghost s = self.errors_view();
        let mut total: u32 = 0;
        let mut i: usize = 0;
        while i < self.errors.len()
            invariant
                0 <= i <= s.len(),
                s == self.errors_view(),
                total == sum_u32(s.take(i as int)),
            decreases s.len() - i,
        {
            assert(s.take(i + 1).drop_last() =~= s.take(i as int));
            assert(s[i as int].1 == self.errors@[i as int].1);
            match total.checked_add(self.errors[i].1) {
                Some(t) => total = t,
                None => {
                    proof {
                        lemma_sum_u32_prefix(s, i + 1);
                    }
                    return None;
                },
            }
            i = i + 1;
        }
        assert(s.take(i as int) =~= s);
        Some(total)
    }

    /// All operations counted, when their sum fits in a `u64`.
    pub fn operation_total(&self) -> (r: Option<u64>)
        ensures
            r == if sum_u64(self.operations_view()) <= u64::MAX {
                Some(sum_u64(self.operations_view()) as u64)
            } else {
                None::<u64>
            },
    {
        let ghost s = self.operations_view();
        let mut total: u64 = 0;
        let mut i: usize = 0;
        while i < self.operations.len()
            invariant
                0 <= i <= s.len(),
                s == self.operations_view(),
                total == sum_u64(s.take(i as int)),
            decreases s.len() - i,
        {
            assert(s.take(i + 1).drop_last() =~= s.take(i as int));
            assert(s[i as int].1 == self.operations@[i as int].1);
            match total.checked_add(self.operations[i].1) {
                Some(t) => total = t,
                None => {
                    proof {
                        lemma_sum_u64_prefix(s, i + 1);
                    }
                    return None;
                },
            }
            i = i + 1;
        }
        assert(s.take(i as int) =~= s);
        Some(total)
    }
}

/// The whole-number figures of the metrics at one time.
#[derive(Debug, Clone, Copy)]
pub struct CollectorSample {
    /// When the figures were last touched, in seconds since the epoch
    pub timestamp: u64,
    /// Memory in use, in bytes
    pub memory_usage: usize,
    /// Peak memory, in bytes
    pub memory_peak: usize,
    pub task_count: usize,
    /// The average of the latest response times
    pub response_time: TimeSpan,
    pub gc_count: u32,
    pub gc_duration: TimeSpan,
}

/// The memory uses of the samples, added up.
pub open spec fn memory_sum(s: Seq<CollectorSample>) -> nat
    decreases s.len(),
{
    if s.len() == 0 {
        0
    } else {
        memory_sum(s.drop_last()) + s.last().memory_usage as nat
    }
}

/// The largest memory use among the samples; zero for none.
pub open spec fn memory_max(s: Seq<CollectorSample>) -> nat
    decreases s.len(),
{
    if s.len() == 0 {
        0
    } else if s.last().memory_usage as nat > memory_max(s.drop_last()) {
        s.last().memory_usage as nat
    } else {
        memory_max(s.drop_last())
    }
}

/// The smallest memory use among the samples; zero for none.
pub open spec fn memory_min(s: Seq<CollectorSample>) -> nat
    decreases s.len(),
{
    if s.len() == 0 {
        0
    } else if s.len() == 1 {
        s[0].memory_usage as nat
    } else if (s.last().memory_usage as nat) < memory_min(s.drop_last()) {
        s.last().memory_usage as nat
    } else {
        memory_min(s.drop_last())
    }
}

/// The response times of the samples added up, in nanoseconds.
pub open spec fn response_sum(s: Seq<CollectorSample>) -> nat
    decreases s.len(),
{
    if s.len() == 0 {
        0
    } else {
        response_sum(s.drop_last()) + s.last().response_time.total_nanos()
    }
}

/// The longest response time among the samples, in nanoseconds; zero for none.
pub open spec fn response_max(s: Seq<CollectorSample>) -> nat
    decreases s.len(),
{
    if s.len() == 0 {
        0
    } else if s.last().response_time.total_nanos() > response_max(s.drop_last()) {
        s.last().response_time.total_nanos()
    } else {
        response_max(s.drop_last())
    }
}

/// The shortest response time among the samples, in nanoseconds; zero for none.
pub open spec fn response_min(s: Seq<CollectorSample>) -> nat
    decreases s.len(),
{
    if s.len() == 0 {
        0
    } else if s.len() == 1 {
        s[0].response_time.total_nanos()
    } else if s.last().response_time.total_nanos() < response_min(s.drop_last()) {
        s.last().response_time.total_nanos()
    } else {
        response_min(s.drop_last())
    }
}

/// The largest garbage-collection count among the samples; zero for none.
pub open spec fn gc_max(s: Seq<CollectorSample>) -> nat
    decreases s.len(),
{
    if s.len() == 0 {
        0
    } else if s.last().gc_count as nat > gc_max(s.drop_last()) {
        s.last().gc_count as nat
    } else {
        gc_max(s.drop_last())
    }
}

proof fn lemma_sums_prefix(s: Seq<CollectorSample>, k: int)
    requires
        0 <= k <= s.len(),
    ensures
        memory_sum(s.take(k)) <= memory_sum(s),
        response_sum(s.take(k)) <= response_sum(s),
    decreases s.len(),
{
    if k < s.len() {
        lemma_sums_prefix(s.drop_last(), k);
        assert(s.drop_last().take(k) =~= s.take(k));
    } else {
        assert(s.take(k) =~= s);
    }
}

/// The whole-number figures of a history of samples. Averages are in whole
/// bytes and nanoseconds.
#[derive(Debug, Clone, Copy)]
pub struct HistorySummary {
    pub sample_count: usize,
    pub avg_memory_usage: usize,
    pub max_memory_usage: usize,
    pub min_memory_usage: usize,
    pub avg_response_time: TimeSpan,
    pub max_response_time: TimeSpan,
    pub min_response_time: TimeSpan,
    pub total_gc_count: u32,
}

/// Whether `r` sums up the history `s` (for an empty history, every figure
/// is zero).
pub open spec fn summarises(r: HistorySummary, s: Seq<CollectorSample>) -> bool {
    &&& r.sample_count == s.len()
    &&& r.avg_memory_usage == if s.len() == 0 {
        0
    } else {
        memory_sum(s) / s.len()
    }
    &&& r.max_memory_usage == memory_max(s)
    &&& r.min_memory_usage == memory_min(s)
    &&& r.avg_response_time.total_nanos() == if s.len() == 0 {
        0
    } else {
        response_sum(s) / s.len()
    }
    &&& r.max_response_time.total_nanos() == response_max(s)
    &&& r.min_response_time.total_nanos() == response_min(s)
    &&& r.total_gc_count == gc_max(s)
}

/// Collects performance figures: the current ones, a history of at most
/// `max_history_size` samples, the latest response times and the counts of
/// errors and operations.
pub struct MetricsCollector {
    current: CollectorSample,
    history: Vec<CollectorSample>,
    max_history_size: usize,
    collection_interval: TimeSpan,
    window: ResponseTimeWindow,
    counters: OperationCounters,
}

impl MetricsCollector {
    pub closed spec fn current_spec(&self) -> CollectorSample {
        self.current
    }

    pub closed spec fn history_spec(&self) -> Seq<CollectorSample> {
        self.history@
    }

    pub closed spec fn max_history(&self) -> usize {
        self.max_history_size
    }

    pub closed spec fn interval_spec(&self) -> TimeSpan {
        self.collection_interval
    }

    pub closed spec fn window_spec(&self) -> ResponseTimeWindow {
        self.window
    }

    pub closed spec fn counters_spec(&self) -> OperationCounters {
        self.counters
    }

    pub open spec fn wf(&self) -> bool {
        self.counters_spec().wf()
    }

    /// A collector keeping at most `max_history_size` samples, one taken
    /// every `collection_interval`, with every figure zero at time `now`.
    pub fn new(max_history_size: usize, collection_interval: TimeSpan, now: u64) -> (r: Self)
        ensures
            r.wf(),
            r.current_spec().timestamp == now,
            r.current_spec().memory_usage == 0,
            r.current_spec().memory_peak == 0,
            r.current_spec().task_count == 0,
            r.current_spec().response_time.total_nanos() == 0,
            r.current_spec().gc_count == 0,
            r.current_spec().gc_duration.total_nanos() == 0,
            r.history_spec().len() == 0,
            r.max_history() == max_history_size,
            r.interval_spec() == collection_interval,
            r.window_spec().samples().len() == 0,
            r.counters_spec().errors_view().len() == 0,
            r.counters_spec().operations_view().len() == 0,
    {
        MetricsCollector {
            current: CollectorSample {
                timestamp: now,
                memory_usage: 0,
                memory_peak: 0,
                task_count: 0,
                response_time: TimeSpan::from_nanos(0),
                gc_count: 0,
                gc_duration: TimeSpan::from_nanos(0),
            },
            history: Vec::new(),
            max_history_size,
            collection_interval,
            window: ResponseTimeWindow::new(),
            counters: OperationCounters::new(),
        }
    }

    /// The time between samples.
    pub fn collection_interval(&self) -> (t: TimeSpan)
        ensures
            t == self.interval_spec(),
    {
        self.collection_interval
    }

    /// The current figures.
    pub fn get_current_metrics(&self) -> (c: CollectorSample)
        ensures
            c == self.current_spec(),
    {
        self.current
    }

    /// The samples taken, oldest first.
    pub fn get_metrics_history(&self) -> (h: Vec<CollectorSample>)
        ensures
            h@ == self.history_spec(),
    {
        let h = self.history.clone();
        assert(h@ =~= self.history@);
        h
    }

    /// The counts of errors and operations.
    pub fn counters(&self) -> (c: &OperationCounters)
        ensures
            *c == self.counters_spec(),
    {
        &self.counters
    }

    /// Marks the figures as touched at time `now`.
    pub fn update_timestamp(&mut self, now: u64)
        ensures
            final(self).current_spec() == (CollectorSample { timestamp: now, ..old(self).current_spec() }),
            final(self).history_spec() == old(self).history_spec(),
            final(self).max_history() == old(self).max_history(),
            final(self).interval_spec() == old(self).interval_spec(),
            final(self).window_spec() == old(self).window_spec(),
            final(self).counters_spec() == old(self).counters_spec(),
    {
        self.current.timestamp = now;
    }

    /// Records the memory in use and its peak, in bytes.
    pub fn update_memory_usage(&mut self, usage: usize, peak: usize)
        ensures
            final(self).current_spec() == (CollectorSample {
                memory_usage: usage,
                memory_peak: peak,
                ..old(self).current_spec()
            }),
            final(self).history_spec() == old(self).history_spec(),
            final(self).max_history() == old(self).max_history(),
            final(self).interval_spec() == old(self).interval_spec(),
            final(self).window_spec() == old(self).window_spec(),
            final(self).counters_spec() == old(self).counters_spec(),
    {
        self.current.memory_usage = usage;
        self.current.memory_peak = peak;
    }

    /// Records the number of tasks.
    pub fn update_task_count(&mut self, count: usize)
        ensures
            final(self).current_spec() == (CollectorSample { task_count: count, ..old(self).current_spec() }),
            final(self).history_spec() == old(self).history_spec(),
            final(self).max_history() == old(self).max_history(),
            final(self).interval_spec() == old(self).interval_spec(),
            final(self).window_spec() == old(self).window_spec(),
            final(self).counters_spec() == old(self).counters_spec(),
    {
        self.current.task_count = count;
    }

    /// Records the garbage-collection count and time.
    pub fn update_gc_info(&mut self, count: u32, duration: TimeSpan)
        ensures
            final(self).current_spec() == (CollectorSample {
                gc_count: count,
                gc_duration: duration,
                ..old(self).current_spec()
            }),
            final(self).history_spec() == old(self).history_spec(),
            final(self).max_history() == old(self).max_history(),
            final(self).interval_spec() == old(self).interval_spec(),
            final(self).window_spec() == old(self).window_spec(),
            final(self).counters_spec() == old(self).counters_spec(),
    {
        self.current.gc_count = count;
        self.current.gc_duration = duration;
    }

    /// Whether the response time `d` can be recorded.
    pub fn can_record_response_time(&self, d: TimeSpan) -> (b: bool)
        ensures
            b == self.window_spec().fits(d),
    {
        self.window.can_record(d)
    }

    /// Records a response time; the current response time becomes the
    /// average of the latest 100.
    pub fn record_response_time(&mut self, d: TimeSpan)
        requires
            old(self).window_spec().fits(d),
        ensures
            final(self).window_spec().samples() == last_n(
                old(self).window_spec().samples().push(d),
                RESPONSE_WINDOW as nat,
            ),
            final(self).current_spec().response_time.total_nanos() == sum_nanos(
                final(self).window_spec().samples(),
            ) / final(self).window_spec().samples().len(),
            final(self).current_spec() == (CollectorSample {
                response_time: final(self).current_spec().response_time,
                ..old(self).current_spec()
            }),
            final(self).history_spec() == old(self).history_spec(),
            final(self).max_history() == old(self).max_history(),
            final(self).interval_spec() == old(self).interval_spec(),
            final(self).counters_spec() == old(self).counters_spec(),
    {
        let avg = self.window.record(d);
        self.current.response_time = avg;
    }

    /// Counts one error of the type.
    pub fn record_error(&mut self, error_type: &str)
        requires
            old(self).wf(),
            old(self).counters_spec().error_count(error_type@) < u32::MAX,
        ensures
            final(self).wf(),
            final(self).counters_spec().error_count(error_type@) == old(self).counters_spec().error_count(
                error_type@,
            ) + 1,
            forall|k: Seq<char>|
                k != error_type@ ==> #[trigger] lookup(final(self).counters_spec().errors_view(), k)
                    == lookup(old(self).counters_spec().errors_view(), k),
            final(self).counters_spec().operations_view() == old(self).counters_spec().operations_view(),
            final(self).current_spec() == old(self).current_spec(),
            final(self).history_spec() == old(self).history_spec(),
            final(self).max_history() == old(self).max_history(),
            final(self).interval_spec() == old(self).interval_spec(),
            final(self).window_spec() == old(self).window_spec(),
    {
        self.counters.record_error(error_type);
    }

    /// Counts one operation of the type.
    pub fn record_operation(&mut self, operation_type: &str)
        requires
            old(self).wf(),
            old(self).counters_spec().operation_count(operation_type@) < u64::MAX,
        ensures
            final(self).wf(),
            final(self).counters_spec().operation_count(operation_type@) == old(
                self,
            ).counters_spec().operation_count(operation_type@) + 1,
            forall|k: Seq<char>|
                k != operation_type@ ==> #[trigger] lookup(final(self).counters_spec().operations_view(), k)
                    == lookup(old(self).counters_spec().operations_view(), k),
            final(self).counters_spec().errors_view() == old(self).counters_spec().errors_view(),
            final(self).current_spec() == old(self).current_spec(),
            final(self).history_spec() == old(self).history_spec(),
            final(self).max_history() == old(self).max_history(),
            final(self).interval_spec() == old(self).interval_spec(),
            final(self).window_spec() == old(self).window_spec(),
    {
        self.counters.record_operation(operation_type);
    }

    /// Takes a sample: the current figures join the history, which keeps its
    /// latest `max_history_size` samples.
    pub fn collect(&mut self)
        ensures
            final(self).history_spec() == last_n(
                old(self).history_spec().push(old(self).current_spec()),
                old(self).max_history() as nat,
            ),
            final(self).current_spec() == old(self).current_spec(),
            final(self).max_history() == old(self).max_history(),
            final(self).interval_spec() == old(self).interval_spec(),
            final(self).window_spec() == old(self).window_spec(),
            final(self).counters_spec() == old(self).counters_spec(),
    {
        self.history.push(self.current);
        if self.history.len() > self.max_history_size {
            let drop = self.history.len() - self.max_history_size;
            let tail = self.history.split_off(drop);
            self.history = tail;
        }
    }

    /// The figures of the history: sample count, average, largest and
    /// smallest memory use and response time, and the largest
    /// garbage-collection count; every figure zero for an empty history.
    /// `None` when the memory uses or the response times add up to more than
    /// a `usize` or a `u64` of nanoseconds holds.
    pub fn generate_summary(&self) -> (r: Option<HistorySummary>)
        ensures
            r is Some <==> (memory_sum(self.history_spec()) <= usize::MAX && response_sum(
                self.history_spec(),
            ) <= u64::MAX),
            match r {
                Some(v) => summarises(v, self.history_spec()),
                None => true,
            },
    {
        let ghost s = self.history@;
        let n = self.history.len();
        if n == 0 {
            let zero = TimeSpan::from_nanos(0);
            return Some(
                HistorySummary {
                    sample_count: 0,
                    avg_memory_usage: 0,
                    max_memory_usage: 0,
                    min_memory_usage: 0,
                    avg_response_time: zero,
                    max_response_time: zero,
                    min_response_time: zero,
                    total_gc_count: 0,
                },
            );
        }
        let first = self.history[0];
        assert(s.take(1).drop_last() =~= Seq::<CollectorSample>::empty());
        assert(s.take(1)[0] == s[0]);
        let mut mem_total: usize = 0;
        let mut rt_total: u64 = 0;
        let mut mem_hi: usize = 0;
        let mut mem_lo: usize = first.memory_usage;
        let mut rt_hi: TimeSpan = TimeSpan::from_nanos(0);
        let mut rt_lo: TimeSpan = first.response_time;
        let mut gc_hi: u32 = 0;
        let mut i: usize = 0;
        while i < n
            invariant
                n == s.len(),
                n > 0,
                s == self.history@,
                0 <= i <= n,
                mem_total == memory_sum(s.take(i as int)),
                rt_total == response_sum(s.take(i as int)),
                mem_hi == memory_max(s.take(i as int)),
                rt_hi.total_nanos() == response_max(s.take(i as int)),
                gc_hi == gc_max(s.take(i as int)),
                i == 0 ==> mem_lo == s[0].memory_usage && rt_lo == s[0].response_time,
                i > 0 ==> mem_lo == memory_min(s.take(i as int)) && rt_lo.total_nanos() == response_min(
                    s.take(i as int),
                ),
            decreases n - i,
        {
            let ghost t = s.take(i + 1);
            assert(t.drop_last() =~= s.take(i as int));
            assert(t.last() == s[i as int]);
            assert(t[0] == s[0]);
            proof {
                lemma_sums_prefix(s, i + 1);
            }
            let x = self.history[i];
            let rn = match x.response_time.checked_nanos() {
                Some(v) => v,
                None => return None,
            };
            mem_total = match mem_total.checked_add(x.memory_usage) {
                Some(v) => v,
                None => return None,
            };
            rt_total = match rt_total.checked_add(rn) {
                Some(v) => v,
                None => return None,
            };
            if x.memory_usage > mem_hi {
                mem_hi = x.memory_usage;
            }
            if x.response_time.longer_than(&rt_hi) {
                rt_hi = x.response_time;
            }
            if x.gc_count > gc_hi {
                gc_hi = x.gc_count;
            }
            if i > 0 {
                if x.memory_usage < mem_lo {
                    mem_lo = x.memory_usage;
                }
                if rt_lo.longer_than(&x.response_time) {
                    rt_lo = x.response_time;
                }
            }
            i = i + 1;
        }
        assert(s.take(n as int) =~= s);
        let avg_memory = mem_total / n;
        let avg_rt = TimeSpan::from_nanos(rt_total / (n as u64));
        Some(
            HistorySummary {
                sample_count: n,
                avg_memory_usage: avg_memory,
                max_memory_usage: mem_hi,
                min_memory_usage: mem_lo,
                avg_response_time: avg_rt,
                max_response_time: rt_hi,
                min_response_time: rt_lo,
                total_gc_count: gc_hi,
            },
        )
    }
}

} // verus!
