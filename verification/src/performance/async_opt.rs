//! Background tasks: their priorities and expected durations.
//!
//! Running them concurrently happens outside.

use crate::error::TimeSpan;
use crate::text::eq_str;
use vstd::prelude::*;

verus! {

/// Priority of a background task, from lowest to highest.
#[derive(Debug, Clone, Copy, PartialEq, Eq, Structural, PartialOrd, Ord)]
pub enum TaskPriority {
    Low,
    Normal,
    High,
    Critical,
}

/// Counts of the background task pool.
#[derive(Debug, Clone, Copy)]
pub struct AsyncStats {
    pub total_tasks: u64,
    pub completed_tasks: u64,
    pub failed_tasks: u64,
    pub average_execution_time: TimeSpan,
    pub peak_concurrent_tasks: usize,
    pub current_queue_size: usize,
}

impl Default for AsyncStats {
    fn default() -> (r: Self)
        ensures
            r.total_tasks == 0,
            r.completed_tasks == 0,
            r.failed_tasks == 0,
            r.average_execution_time.secs_spec() == 0,
            r.average_execution_time.nanos_spec() == 0,
            r.peak_concurrent_tasks == 0,
            r.current_queue_size == 0,
    {
        AsyncStats {
            total_tasks: 0,
            completed_tasks: 0,
            failed_tasks: 0,
            average_execution_time: TimeSpan::from_secs(0),
            peak_concurrent_tasks: 0,
            current_queue_size: 0,
        }
    }
}

/// The rank of a priority, from 0 for low to 3 for critical.
pub open spec fn rank(p: TaskPriority) -> nat {
    match p {
        TaskPriority::Low => 0,
        TaskPriority::Normal => 1,
        TaskPriority::High => 2,
        TaskPriority::Critical => 3,
    }
}

fn priority_rank(p: TaskPriority) -> (r: u8)
    ensures
        r == rank(p),
{
    match p {
        TaskPriority::Low => 0,
        TaskPriority::Normal => 1,
        TaskPriority::High => 2,
        TaskPriority::Critical => 3,
    }
}

/// A task waiting in the pool: the number it is kept under outside, and
/// its priority.
#[derive(Debug, Clone, Copy, PartialEq, Eq, Structural)]
pub struct QueuedTask {
    pub id: u64,
    pub priority: TaskPriority,
}

/// Whether the queue runs from the highest priority to the lowest.
pub open spec fn by_priority(q: Seq<QueuedTask>) -> bool {
    forall|i: int, j: int| 0 <= i < j < q.len() ==> rank(#[trigger] q[i].priority) >= rank(#[trigger] q[j].priority)
}

/// Whether priority `a` is declared below priority `b`, in the order low,
/// normal, high, critical.
pub open spec fn declared_below(a: TaskPriority, b: TaskPriority) -> bool {
    (a == TaskPriority::Low && b != TaskPriority::Low) || (a == TaskPriority::Normal && (b
        == TaskPriority::High || b == TaskPriority::Critical)) || (a == TaskPriority::High && b
        == TaskPriority::Critical)
}

/// How many tasks of the queue have at least the rank `r`.
pub open spec fn count_at_least(q: Seq<QueuedTask>, r: nat) -> nat
    decreases q.len(),
{
    if q.len() == 0 {
        0
    } else {
        count_at_least(q.drop_last(), r) + if rank(q.last().priority) >= r {
            1nat
        } else {
            0nat
        }
    }
}

/// The queue after a task is submitted: the task goes after every task of
/// the same or a higher priority, before the others, as a stable sort by
/// descending priority places it.
pub open spec fn enqueue(q: Seq<QueuedTask>, t: QueuedTask) -> Seq<QueuedTask> {
    let c = count_at_least(q, rank(t.priority)) as int;
    q.take(c) + seq![t] + q.skip(c)
}

proof fn lemma_count_prefix(q: Seq<QueuedTask>, r: nat, k: int)
    requires
        by_priority(q),
        0 <= k <= q.len(),
        forall|j: int| 0 <= j < k ==> rank(#[trigger] q[j].priority) >= r,
        k < q.len() ==> rank(q[k].priority) < r,
    ensures
        count_at_least(q, r) == k,
    decreases q.len(),
{
    if q.len() > 0 {
        if k == q.len() {
            assert forall|j: int| 0 <= j < k - 1 implies rank(#[trigger] q.drop_last()[j].priority) >= r by {
                assert(q.drop_last()[j] == q[j]);
            }
            assert(by_priority(q.drop_last())) by {
                assert forall|a: int, b: int| 0 <= a < b < q.drop_last().len() implies rank(
                    #[trigger] q.drop_last()[a].priority,
                ) >= rank(#[trigger] q.drop_last()[b].priority) by {
                    assert(q.drop_last()[a] == q[a]);
                    assert(q.drop_last()[b] == q[b]);
                }
            }
            lemma_count_prefix(q.drop_last(), r, k - 1);
            assert(q.last() == q[k - 1]);
        } else {
            assert(rank(q.last().priority) < r) by {
                assert(q.last() == q[q.len() - 1]);
                assert(rank(q[k].priority) >= rank(q[q.len() - 1].priority));
            }
            assert forall|j: int| 0 <= j < k implies rank(#[trigger] q.drop_last()[j].priority) >= r by {
                assert(q.drop_last()[j] == q[j]);
            }
            assert(by_priority(q.drop_last())) by {
                assert forall|a: int, b: int| 0 <= a < b < q.drop_last().len() implies rank(
                    #[trigger] q.drop_last()[a].priority,
                ) >= rank(#[trigger] q.drop_last()[b].priority) by {
                    assert(q.drop_last()[a] == q[a]);
                    assert(q.drop_last()[b] == q[b]);
                }
            }
            if k < q.len() - 1 {
                assert(q.drop_last()[k] == q[k]);
            }
            lemma_count_prefix(q.drop_last(), r, k);
        }
    }
}

/// Where the tasks of rank below `r` begin in an ordered queue.
proof fn split_point(q: Seq<QueuedTask>, r: nat) -> (k: int)
    requires
        by_priority(q),
    ensures
        0 <= k <= q.len(),
        forall|j: int| 0 <= j < k ==> rank(#[trigger] q[j].priority) >= r,
        forall|j: int| k <= j < q.len() ==> rank(#[trigger] q[j].priority) < r,
    decreases q.len(),
{
    if q.len() == 0 {
        0
    } else if rank(q[0].priority) < r {
        assert forall|j: int| 0 <= j < q.len() implies rank(#[trigger] q[j].priority) < r by {
            if j > 0 {
                assert(rank(q[0].priority) >= rank(q[j].priority));
            }
        }
        0
    } else {
        let t = q.drop_first();
        assert(by_priority(t)) by {
            assert forall|a: int, b: int| 0 <= a < b < t.len() implies rank(#[trigger] t[a].priority) >= rank(
                #[trigger] t[b].priority,
            ) by {
                assert(t[a] == q[a + 1] && t[b] == q[b + 1]);
            }
        }
        let k = split_point(t, r);
        assert forall|j: int| 0 <= j < k + 1 implies rank(#[trigger] q[j].priority) >= r by {
            if j > 0 {
                assert(q[j] == t[j - 1]);
            }
        }
        assert forall|j: int| k + 1 <= j < q.len() implies rank(#[trigger] q[j].priority) < r by {
            assert(q[j] == t[j - 1]);
        }
        k + 1
    }
}

/// A queue in priority order never holds a task before one whose priority is
/// declared higher: critical tasks come before high ones, high before normal,
/// normal before low. So after a submission the task started first, and
/// every task ahead of another, is of a priority at least as high.
pub proof fn queue_runs_higher_priorities_first(q: Seq<QueuedTask>, t: QueuedTask)
    requires
        by_priority(q),
    ensures
        forall|i: int, j: int|
            0 <= i < j < q.len() ==> !declared_below(#[trigger] q[i].priority, #[trigger] q[j].priority),
        forall|i: int, j: int|
            0 <= i < j < enqueue(q, t).len() ==> !declared_below(
                #[trigger] enqueue(q, t)[i].priority,
                #[trigger] enqueue(q, t)[j].priority,
            ),
{
    submission_keeps_priority_order(q, t);
    let e = enqueue(q, t);
    assert forall|i: int, j: int| 0 <= i < j < e.len() implies !declared_below(
        #[trigger] e[i].priority,
        #[trigger] e[j].priority,
    ) by {
        assert(rank(e[i].priority) >= rank(e[j].priority));
    }
    assert forall|i: int, j: int| 0 <= i < j < q.len() implies !declared_below(
        #[trigger] q[i].priority,
        #[trigger] q[j].priority,
    ) by {
        assert(rank(q[i].priority) >= rank(q[j].priority));
    }
}

/// A submitted task is queued behind every queued task of the same or a
/// higher priority and ahead of every one of a lower priority, the order
/// of the others kept; the queue stays ordered by priority.
pub proof fn submission_keeps_priority_order(q: Seq<QueuedTask>, t: QueuedTask)
    requires
        by_priority(q),
    ensures
        ({
            let c = count_at_least(q, rank(t.priority)) as int;
            let e = enqueue(q, t);
            &&& e.len() == q.len() + 1
            &&& e[c] == t
            &&& forall|i: int| 0 <= i < c ==> e[i] == q[i] && rank(#[trigger] q[i].priority) >= rank(t.priority)
            &&& forall|i: int| c <= i < q.len() ==> e[i + 1] == q[i] && rank(#[trigger] q[i].priority) < rank(t.priority)
            &&& by_priority(e)
        }),
{
    let r = rank(t.priority);
    let k = split_point(q, r);
    lemma_count_prefix(q, r, k);
    let e = enqueue(q, t);
    assert forall|a: int, b: int| 0 <= a < b < e.len() implies rank(#[trigger] e[a].priority) >= rank(
        #[trigger] e[b].priority,
    ) by {
        if b < k {
            assert(e[a] == q[a] && e[b] == q[b]);
        } else if b == k {
            assert(e[a] == q[a]);
        } else if a < k {
            assert(e[a] == q[a] && e[b] == q[b - 1]);
        } else if a == k {
            assert(e[b] == q[b - 1]);
        } else {
            assert(e[a] == q[a - 1] && e[b] == q[b - 1]);
        }
    }
}

/// Runs background tasks, at most `pool_size` at a time, highest priority
/// first and in order of submission among equals. Running them happens
/// outside: the pool says which task to start and is told when one ends.
pub struct AsyncTaskPool {
    pool_size: usize,
    queue: Vec<QueuedTask>,
    running: usize,
    stats: AsyncStats,
}

impl AsyncTaskPool {
    pub closed spec fn size(&self) -> usize {
        self.pool_size
    }

    pub closed spec fn queued(&self) -> Seq<QueuedTask> {
        self.queue@
    }

    pub closed spec fn running_count(&self) -> usize {
        self.running
    }

    pub closed spec fn counts(&self) -> AsyncStats {
        self.stats
    }

    pub open spec fn wf(&self) -> bool {
        by_priority(self.queued()) && self.running_count() <= self.size()
    }

    /// A pool for `pool_size` tasks at a time, with nothing queued or run.
    pub fn new(pool_size: usize) -> (p: Self)
        ensures
            p.wf(),
            p.size() == pool_size,
            p.queued().len() == 0,
            p.running_count() == 0,
            p.counts().total_tasks == 0,
            p.counts().completed_tasks == 0,
            p.counts().failed_tasks == 0,
            p.counts().average_execution_time.total_nanos() == 0,
    {
        AsyncTaskPool { pool_size, queue: Vec::new(), running: 0, stats: AsyncStats::default() }
    }

    /// Queues a task by its priority and, when fewer than `pool_size` tasks
    /// run, takes the first queued task to be started.
    pub fn submit_task(&mut self, task: QueuedTask) -> (started: Option<QueuedTask>)
        requires
            old(self).wf(),
            old(self).counts().total_tasks < u64::MAX,
        ensures
            final(self).wf(),
            final(self).size() == old(self).size(),
            final(self).counts().total_tasks == old(self).counts().total_tasks + 1,
            final(self).counts().completed_tasks == old(self).counts().completed_tasks,
            final(self).counts().failed_tasks == old(self).counts().failed_tasks,
            final(self).counts().average_execution_time == old(self).counts().average_execution_time,
            final(self).counts().current_queue_size == enqueue(old(self).queued(), task).len(),
            ({
                let q = enqueue(old(self).queued(), task);
                if old(self).running_count() < old(self).size() {
                    &&& started == Some(q[0])
                    &&& final(self).queued() == q.drop_first()
                    &&& final(self).running_count() == old(self).running_count() + 1
                } else {
                    &&& started is None
                    &&& final(self).queued() == q
                    &&& final(self).running_count() == old(self).running_count()
                }
            }),
    {
        let ghost q0 = self.queue@;
        let r = priority_rank(task.priority);
        let mut p: usize = 0;
        while p < self.queue.len() && priority_rank(self.queue[p].priority) >= r
            invariant
                self.queue@ == q0,
                by_priority(q0),
                0 <= p <= q0.len(),
                r == rank(task.priority),
                forall|j: int| 0 <= j < p ==> rank(#[trigger] q0[j].priority) >= r,
            decreases self.queue.len() - p,
        {
            p = p + 1;
        }
        proof {
            lemma_count_prefix(q0, r as nat, p as int);
        }
        self.queue.insert(p, task);
        let ghost q = enqueue(q0, task);
        assert(self.queue@ =~= q);
        assert(by_priority(q)) by {
            assert forall|a: int, b: int| 0 <= a < b < q.len() implies rank(#[trigger] q[a].priority) >= rank(
                #[trigger] q[b].priority,
            ) by {
                if b < p {
                    assert(q[a] == q0[a] && q[b] == q0[b]);
                } else if b == p {
                    assert(q[a] == q0[a]);
                } else if a < p {
                    assert(q[a] == q0[a] && q[b] == q0[b - 1]);
                } else if a == p {
                    assert(q[b] == q0[b - 1]);
                    if p < q0.len() {
                        assert(rank(q0[p as int].priority) < r);
                        assert(rank(q0[p as int].priority) >= rank(q0[b - 1].priority) || p == b - 1);
                    }
                } else {
                    assert(q[a] == q0[a - 1] && q[b] == q0[b - 1]);
                }
            }
        }
        self.stats.total_tasks = self.stats.total_tasks + 1;
        self.stats.current_queue_size = self.queue.len();
        if self.running < self.pool_size {
            let next = self.queue.remove(0);
            self.running = self.running + 1;
            assert(self.queue@ =~= q.drop_first());
            assert(by_priority(q.drop_first())) by {
                assert forall|a: int, b: int| 0 <= a < b < q.drop_first().len() implies rank(
                    #[trigger] q.drop_first()[a].priority,
                ) >= rank(#[trigger] q.drop_first()[b].priority) by {
                    assert(q.drop_first()[a] == q[a + 1] && q.drop_first()[b] == q[b + 1]);
                }
            }
            Some(next)
        } else {
            None
        }
    }

    /// Records the end of a task that was started: with its running time in
    /// nanoseconds when it succeeded, the running average taking it in;
    /// without one when it failed.
    pub fn finish_task(&mut self, outcome: Option<u64>)
        requires
            old(self).wf(),
            old(self).running_count() > 0,
            outcome matches Some(d) ==> {
                &&& old(self).counts().completed_tasks < u64::MAX
                &&& old(self).counts().average_execution_time.total_nanos() * old(self).counts().completed_tasks
                    + d <= u64::MAX
            },
            outcome is None ==> old(self).counts().failed_tasks < u64::MAX,
        ensures
            final(self).wf(),
            final(self).size() == old(self).size(),
            final(self).queued() == old(self).queued(),
            final(self).running_count() == old(self).running_count() - 1,
            final(self).counts().total_tasks == old(self).counts().total_tasks,
            final(self).counts().current_queue_size == old(self).counts().current_queue_size,
            match outcome {
                Some(d) => {
                    let n = old(self).counts().completed_tasks + 1;
                    &&& final(self).counts().completed_tasks == n
                    &&& final(self).counts().failed_tasks == old(self).counts().failed_tasks
                    &&& final(self).counts().average_execution_time.total_nanos() == (old(
                        self,
                    ).counts().average_execution_time.total_nanos() * (n - 1) + d) / n
                },
                None => {
                    &&& final(self).counts().completed_tasks == old(self).counts().completed_tasks
                    &&& final(self).counts().failed_tasks == old(self).counts().failed_tasks + 1
                    &&& final(self).counts().average_execution_time == old(
                        self,
                    ).counts().average_execution_time
                },
            },
    {
        self.running = self.running - 1;
        match outcome {
            Some(d) => {
                let done = self.stats.completed_tasks + 1;
                let total = if self.stats.completed_tasks == 0 {
                    d
                } else {
                    proof {
                        let a = self.stats.average_execution_time.total_nanos();
                        let c = self.stats.completed_tasks as nat;
                        assert(a <= a * c) by (nonlinear_arith)
                            requires
                                c >= 1,
                        ;
                    }
                    let avg = self.stats.average_execution_time.as_nanos_u64();
                    avg * self.stats.completed_tasks + d
                };
                proof {
                    let a = self.stats.average_execution_time.total_nanos();
                    let c = self.stats.completed_tasks as nat;
                    if c == 0 {
                        assert(a * c == 0) by (nonlinear_arith)
                            requires
                                c == 0,
                        ;
                    }
                    assert(total == a * ((done - 1) as nat) + d);
                }
                self.stats.completed_tasks = done;
                self.stats.average_execution_time = TimeSpan::from_nanos(total / done);
            },
            None => {
                self.stats.failed_tasks = self.stats.failed_tasks + 1;
            },
        }
    }

    /// The counts, with the current length of the queue.
    pub fn get_stats(&self) -> (s: AsyncStats)
        ensures
            s.total_tasks == self.counts().total_tasks,
            s.completed_tasks == self.counts().completed_tasks,
            s.failed_tasks == self.counts().failed_tasks,
            s.average_execution_time == self.counts().average_execution_time,
            s.peak_concurrent_tasks == self.counts().peak_concurrent_tasks,
            s.current_queue_size == self.queued().len(),
    {
        let mut s = self.stats;
        s.current_queue_size = self.queue.len();
        s
    }

    /// Whether waiting for completion is over: nothing is left in the queue.
    pub fn is_drained(&self) -> (b: bool)
        ensures
            b == (self.queued().len() == 0),
    {
        self.queue.len() == 0
    }
}

/// Gathers items into batches: a batch is handed out when `batch_size`
/// items have gathered, or when a flush is asked for (on a timer, or on
/// stopping). Processing a batch happens outside.
pub struct BatchProcessor<T> {
    batch_size: usize,
    flush_interval: TimeSpan,
    buffer: Vec<T>,
}

impl<T> BatchProcessor<T> {
    pub closed spec fn size(&self) -> usize {
        self.batch_size
    }

    pub closed spec fn interval(&self) -> TimeSpan {
        self.flush_interval
    }

    pub closed spec fn pending(&self) -> Seq<T> {
        self.buffer@
    }

    /// A processor that hands out batches of `batch_size` items, flushed
    /// every `flush_interval`, with nothing gathered yet.
    pub fn new(batch_size: usize, flush_interval: TimeSpan) -> (b: Self)
        ensures
            b.size() == batch_size,
            b.interval() == flush_interval,
            b.pending().len() == 0,
    {
        BatchProcessor { batch_size, flush_interval, buffer: Vec::new() }
    }

    /// How often a flush is asked for.
    pub fn flush_interval(&self) -> (t: TimeSpan)
        ensures
            t == self.interval(),
    {
        self.flush_interval
    }

    /// Gathers an item; once `batch_size` items have gathered they are
    /// handed out as a batch and the processor starts over.
    pub fn add_item(&mut self, item: T) -> (batch: Option<Vec<T>>)
        ensures
            final(self).size() == old(self).size(),
            final(self).interval() == old(self).interval(),
            ({
                let b = old(self).pending().push(item);
                if b.len() >= old(self).size() {
                    &&& batch matches Some(v) && v@ == b
                    &&& final(self).pending().len() == 0
                } else {
                    &&& batch is None
                    &&& final(self).pending() == b
                }
            }),
    {
        self.buffer.push(item);
        if self.buffer.len() >= self.batch_size {
            self.flush()
        } else {
            None
        }
    }

    /// Hands out what has gathered, if anything.
    pub fn flush(&mut self) -> (batch: Option<Vec<T>>)
        ensures
            final(self).size() == old(self).size(),
            final(self).interval() == old(self).interval(),
            final(self).pending().len() == 0,
            old(self).pending().len() == 0 ==> batch is None,
            old(self).pending().len() > 0 ==> (batch matches Some(v) && v@ == old(self).pending()),
    {
        if self.buffer.len() == 0 {
            return None;
        }
        let mut taken: Vec<T> = Vec::new();
        std::mem::swap(&mut taken, &mut self.buffer);
        Some(taken)
    }

    /// Stops gathering: what has gathered is handed out.
    pub fn stop(&mut self) -> (batch: Option<Vec<T>>)
        ensures
            final(self).pending().len() == 0,
            old(self).pending().len() == 0 ==> batch is None,
            old(self).pending().len() > 0 ==> (batch matches Some(v) && v@ == old(self).pending()),
    {
        self.flush()
    }
}

/// A background task.
pub trait AsyncTask {
    fn priority(&self) -> TaskPriority;

    fn estimated_duration(&self) -> TimeSpan;

    fn task_type(&self) -> &'static str;
}

/// Work on a file.
#[derive(Debug)]
pub struct FileProcessingTask {
    pub file_path: String,
    pub operation: String,
}

/// The priority of a file operation: named by the operation, low otherwise.
pub open spec fn operation_priority(operation: Seq<char>) -> TaskPriority {
    if operation == "critical"@ {
        TaskPriority::Critical
    } else if operation == "high"@ {
        TaskPriority::High
    } else if operation == "normal"@ {
        TaskPriority::Normal
    } else {
        TaskPriority::Low
    }
}

impl FileProcessingTask {
    pub fn new(file_path: String, operation: String) -> (t: Self)
        ensures
            t.file_path == file_path,
            t.operation == operation,
    {
        FileProcessingTask { file_path, operation }
    }

    /// The priority named by the operation: critical, high or normal; low otherwise.
    pub fn priority_of(&self) -> (p: TaskPriority)
        ensures
            p == operation_priority(self.operation@),
    {
        if eq_str(&self.operation, "critical") {
            TaskPriority::Critical
        } else if eq_str(&self.operation, "high") {
            TaskPriority::High
        } else if eq_str(&self.operation, "normal") {
            TaskPriority::Normal
        } else {
            TaskPriority::Low
        }
    }
}

impl AsyncTask for FileProcessingTask {
    fn priority(&self) -> (p: TaskPriority)
        ensures
            p == operation_priority(self.operation@),
    {
        self.priority_of()
    }

    /// Fifty milliseconds.
    fn estimated_duration(&self) -> (d: TimeSpan)
        ensures
            d.secs_spec() == 0,
            d.nanos_spec() == 50_000_000,
    {
        TimeSpan::from_millis(50)
    }

    fn task_type(&self) -> (s: &'static str)
        ensures
            s@ == "file_processing"@,
    {
        "file_processing"
    }
}

/// A database query.
#[derive(Debug)]
pub struct DatabaseTask {
    pub query: String,
    pub priority_level: TaskPriority,
}

impl DatabaseTask {
    pub fn new(query: String, priority_level: TaskPriority) -> (t: Self)
        ensures
            t.query == query,
            t.priority_level == priority_level,
    {
        DatabaseTask { query, priority_level }
    }
}

impl AsyncTask for DatabaseTask {
    fn priority(&self) -> (p: TaskPriority)
        ensures
            p == self.priority_level,
    {
        self.priority_level
    }

    /// Thirty milliseconds.
    fn estimated_duration(&self) -> (d: TimeSpan)
        ensures
            d.secs_spec() == 0,
            d.nanos_spec() == 30_000_000,
    {
        TimeSpan::from_millis(30)
    }

    fn task_type(&self) -> (s: &'static str)
        ensures
            s@ == "database_operation"@,
    {
        "database_operation"
    }
}

} // verus!
