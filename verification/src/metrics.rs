//! Metrics of processes and workspaces: configuration, request tracking,
//! where stored metrics go, and the statistics reported about them.
//!
//! Collecting the metrics from the system and computing rates and
//! percentages in floating point happen outside.

pub mod storage;
pub mod workspace;

use crate::text::{decimal, push_decimal};
use vstd::prelude::*;

verus! {

/// State of a process as metrics see it.
#[derive(Debug, Clone, Copy, PartialEq, Eq, Structural)]
pub enum ProcessStatus {
    Running,
    Idle,
    Busy,
    Unresponsive,
    Failed,
    Starting,
    Stopping,
    Stopped,
}

/// Health of the whole system.
#[derive(Debug, Clone, Copy, PartialEq, Eq, Structural)]
pub enum SystemHealthStatus {
    Healthy,
    Warning,
    Critical,
    Failed,
    Starting,
    Stopping,
}

/// How urgent a metrics alert is.
#[derive(Debug, Clone, Copy, PartialEq, Eq, Structural)]
pub enum AlertSeverity {
    Info,
    Warning,
    Critical,
}

/// What a metrics alert is about.
#[derive(Debug, Clone, Copy, PartialEq, Eq, Structural)]
pub enum AlertCategory {
    System,
    Process,
    Workspace,
    Performance,
    Network,
}

/// How metrics are collected and kept.
#[derive(Debug, Clone, Copy)]
pub struct MetricsConfig {
    pub enabled: bool,
    /// Collection interval in seconds
    pub collection_interval: u64,
    /// Most data points kept in history
    pub max_history_points: usize,
    pub collect_system_metrics: bool,
    pub collect_process_metrics: bool,
    pub collect_network_metrics: bool,
    /// How long metrics are kept, in hours
    pub retention_hours: u64,
    pub enable_profiling: bool,
}

impl Default for MetricsConfig {
    fn default() -> (r: Self)
        ensures
            r.enabled,
            r.collection_interval == 5,
            r.max_history_points == 1000,
            r.collect_system_metrics,
            r.collect_process_metrics,
            r.collect_network_metrics,
            r.retention_hours == 24,
            !r.enable_profiling,
    {
        MetricsConfig {
            enabled: true,
            collection_interval: 5,
            max_history_points: 1000,
            collect_system_metrics: true,
            collect_process_metrics: true,
            collect_network_metrics: true,
            retention_hours: 24,
            enable_profiling: false,
        }
    }
}

/// Statistics of the aggregated metrics.
#[derive(Debug, Clone, Copy)]
pub struct AggregationStats {
    pub system_history_points: usize,
    pub process_history_points: usize,
    pub workspace_count: usize,
    pub total_processes: u32,
    pub memory_usage_mb: usize,
}

/// Statistics of metrics collection.
#[derive(Debug, Clone, Copy)]
pub struct CollectionStats {
    pub managed_processes_count: usize,
    pub collection_interval: u64,
    pub uptime: u64,
    pub config: MetricsConfig,
}

/// Files and bytes stored for one kind of metrics.
#[derive(Debug, Clone, Copy)]
pub struct TypeStats {
    pub file_count: u64,
    pub total_size: u64,
}

/// Statistics of metrics storage.
#[derive(Debug, Clone)]
pub struct StorageStats {
    pub total_files: u64,
    pub total_size: u64,
    /// Statistics per kind of metrics; no kind occurs twice.
    pub metrics_by_type: Vec<(String, TypeStats)>,
    pub cache_size: usize,
}

/// The start of the hour that holds `timestamp`.
pub open spec fn hour_start(timestamp: u64) -> nat {
    ((timestamp / 3600) * 3600) as nat
}

/// The file, relative to the storage directory, that holds metrics of a kind
/// taken at `timestamp`: one file per kind and hour.
pub open spec fn metrics_file_path(metric_type: Seq<char>, timestamp: u64) -> Seq<char> {
    metric_type + "/metrics_"@ + decimal(hour_start(timestamp)) + ".json"@
}

/// The file, relative to the storage directory, that holds metrics of a kind
/// taken at `timestamp`.
pub fn get_metrics_file_path(metric_type: &str, timestamp: u64) -> (p: String)
    ensures
        p@ == metrics_file_path(metric_type@, timestamp),
{
    let hour = (timestamp / 3600) * 3600;
    let mut p = String::from_str(metric_type);
    p.append("/metrics_");
    push_decimal(&mut p, hour);
    p.append(".json");
    p
}

/// All metrics taken in one hour go to the same file.
pub proof fn same_hour_same_file(metric_type: Seq<char>, a: u64, b: u64)
    requires
        a / 3600 == b / 3600,
    ensures
        metrics_file_path(metric_type, a) == metrics_file_path(metric_type, b),
{
}

/// Most response times kept; beyond it the oldest half is dropped.
pub const MAX_RESPONSE_SAMPLES: usize = 1000;

/// How many of the oldest response times are dropped at once.
pub const RESPONSE_SAMPLES_DROPPED: usize = 500;

/// Counts requests, errors and response times.
pub struct PerformanceTracker {
    response_times: Vec<u64>,
    total_requests: u64,
    total_errors: u64,
    /// When tracking started, in seconds since the epoch
    start_time: u64,
    /// When the counts were last reset, in seconds since the epoch
    last_reset: u64,
}

/// The response times after one more is recorded.
pub open spec fn samples_after(s: Seq<u64>, rt: u64) -> Seq<u64> {
    if s.len() + 1 > MAX_RESPONSE_SAMPLES {
        s.push(rt).subrange(RESPONSE_SAMPLES_DROPPED as int, s.len() + 1int)
    } else {
        s.push(rt)
    }
}

/// Whether a sequence is in ascending order.
pub open spec fn ascending(s: Seq<u64>) -> bool {
    forall|i: int, j: int| 0 <= i < j < s.len() ==> s[i] <= s[j]
}

impl PerformanceTracker {
    pub closed spec fn samples(&self) -> Seq<u64> {
        self.response_times@
    }

    pub closed spec fn requests(&self) -> u64 {
        self.total_requests
    }

    pub closed spec fn errors(&self) -> u64 {
        self.total_errors
    }

    pub closed spec fn started(&self) -> u64 {
        self.start_time
    }

    pub closed spec fn reset_at(&self) -> u64 {
        self.last_reset
    }

    /// A tracker with nothing counted, started now.
    pub fn new() -> (r: Self)
        ensures
            r.samples().len() == 0,
            r.requests() == 0,
            r.errors() == 0,
            r.started() == r.reset_at(),
    {
        let now = crate::monitoring::current_timestamp();
        PerformanceTracker::started_at(now)
    }

    /// A tracker with nothing counted, started at `now`, in seconds since the
    /// epoch.
    pub fn started_at(now: u64) -> (r: Self)
        ensures
            r.samples().len() == 0,
            r.requests() == 0,
            r.errors() == 0,
            r.started() == now,
            r.reset_at() == now,
    {
        PerformanceTracker {
            response_times: Vec::new(),
            total_requests: 0,
            total_errors: 0,
            start_time: now,
            last_reset: now,
        }
    }

    /// Records a request: whether it failed, and its response time if known.
    pub fn record(&mut self, response_time: Option<u64>, is_error: bool)
        requires
            old(self).requests() < u64::MAX,
            old(self).errors() < u64::MAX,
        ensures
            final(self).requests() == old(self).requests() + 1,
            final(self).errors() == old(self).errors() + if is_error {
                1int
            } else {
                0int
            },
            final(self).samples() == match response_time {
                Some(rt) => samples_after(old(self).samples(), rt),
                None => old(self).samples(),
            },
            final(self).started() == old(self).started(),
            final(self).reset_at() == old(self).reset_at(),
    {
        self.total_requests = self.total_requests + 1;
        if is_error {
            self.total_errors = self.total_errors + 1;
        }
        if let Some(rt) = response_time {
            self.response_times.push(rt);
            if self.response_times.len() > MAX_RESPONSE_SAMPLES {
                let ghost pushed = self.response_times@;
                let mut kept: Vec<u64> = Vec::new();
                let mut i: usize = RESPONSE_SAMPLES_DROPPED;
                while i < self.response_times.len()
                    invariant
                        RESPONSE_SAMPLES_DROPPED <= i <= self.response_times@.len(),
                        self.response_times@ == pushed,
                        kept@ == pushed.subrange(RESPONSE_SAMPLES_DROPPED as int, i as int),
                    decreases self.response_times.len() - i,
                {
                    kept.push(self.response_times[i]);
                    assert(kept@ =~= pushed.subrange(RESPONSE_SAMPLES_DROPPED as int, i + 1));
                    i = i + 1;
                }
                self.response_times = kept;
            }
        }
    }

    /// Clears all counts and restarts the clock.
    pub fn reset(&mut self)
        ensures
            final(self).samples().len() == 0,
            final(self).requests() == 0,
            final(self).errors() == 0,
            final(self).started() == final(self).reset_at(),
    {
        self.response_times.clear();
        self.total_requests = 0;
        self.total_errors = 0;
        let now = crate::monitoring::current_timestamp();
        self.start_time = now;
        self.last_reset = now;
    }

    /// The recorded response times in ascending order.
    pub fn sorted_response_times(&self) -> (r: Vec<u64>)
        ensures
            ascending(r@),
            r@.to_multiset() == self.samples().to_multiset(),
    {
        let mut r: Vec<u64> = Vec::new();
        let mut i: usize = 0;
        proof {
            assert(self.response_times@.take(0) =~= Seq::<u64>::empty());
        }
        while i < self.response_times.len()
            invariant
                0 <= i <= self.response_times@.len(),
                ascending(r@),
                r@.to_multiset() == self.response_times@.take(i as int).to_multiset(),
            decreases self.response_times.len() - i,
        {
            let x = self.response_times[i];
            let mut p: usize = 0;
            while p < r.len() && r[p] <= x
                invariant
                    0 <= p <= r@.len(),
                    forall|j: int| 0 <= j < p ==> r@[j] <= x,
                decreases r.len() - p,
            {
                p = p + 1;
            }
            let ghost before = r@;
            r.insert(p, x);
            proof {
                vstd::seq_lib::to_multiset_insert(before, p as int, x);
                let t = self.response_times@.take(i + 1);
                assert(t =~= self.response_times@.take(i as int).push(x));
                vstd::seq_lib::to_multiset_build(self.response_times@.take(i as int), x);
                assert forall|a: int, b: int| 0 <= a < b < r@.len() implies r@[a] <= r@[b] by {
                    if b < p {
                        assert(r@[a] == before[a] && r@[b] == before[b]);
                    } else if b == p {
                        assert(r@[a] == before[a]);
                    } else if a < p {
                        assert(r@[a] == before[a] && r@[b] == before[b - 1]);
                    } else if a == p {
                        assert(r@[b] == before[b - 1]);
                        assert(p < before.len());
                        assert(!(before[p as int] <= x));
                    } else {
                        assert(r@[a] == before[a - 1] && r@[b] == before[b - 1]);
                    }
                }
            }
            i = i + 1;
        }
        assert(self.response_times@.take(i as int) =~= self.response_times@);
        r
    }

    /// The number of requests and of errors.
    pub fn counts(&self) -> (r: (u64, u64))
        ensures
            r.0 == self.requests(),
            r.1 == self.errors(),
    {
        (self.total_requests, self.total_errors)
    }

    /// When tracking started, in seconds since the epoch.
    pub fn start_time(&self) -> (t: u64)
        ensures
            t == self.started(),
    {
        self.start_time
    }
}

/// The most recent `limit` items of a history (all of it when there is no
/// limit or fewer items): the range of indices to keep.
pub fn history_window(len: usize, limit: Option<usize>) -> (r: (usize, usize))
    ensures
        r.1 == len,
        r.0 == match limit {
            Some(n) => if len > n {
                len - n
            } else {
                0
            },
            None => 0,
        },
{
    match limit {
        Some(n) => if len > n {
            (len - n, len)
        } else {
            (0, len)
        },
        None => (0, len),
    }
}

} // verus!
