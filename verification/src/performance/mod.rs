//! Performance helpers: buffer reuse, string sharing, a small data cache and
//! background work.
//!
//! The clock is read outside and handed in as milliseconds; CPU usage, a
//! floating-point reading, is kept outside too.

pub mod async_opt;
pub mod memory;
pub mod metrics;

use crate::assoc::{find_key, keys_distinct, lemma_lookup_absent, lemma_lookup_at, lemma_lookup_drop_first, lookup, pairs_view, set_value};
use crate::error::TimeSpan;
use memory::buffer_capacity;
use vstd::prelude::*;

verus! {

/// Settings of the performance manager.
#[derive(Debug, Clone, Copy)]
pub struct PerformanceConfig {
    /// Whether modules are initialised lazily
    pub lazy_initialization: bool,
    /// Most modules preloaded
    pub max_preload_modules: usize,
    /// Bytes set aside for the buffer pool
    pub initial_memory_pool_size: usize,
    /// Size of the background task pool
    pub async_task_pool_size: usize,
    /// Seconds between regular clean-ups
    pub gc_interval_secs: u64,
    /// Memory limit, in MB
    pub memory_limit_mb: usize,
}

impl Default for PerformanceConfig {
    fn default() -> (r: Self)
        ensures
            r.lazy_initialization,
            r.max_preload_modules == 5,
            r.initial_memory_pool_size == 1024 * 1024,
            r.async_task_pool_size == 4,
            r.gc_interval_secs == 300,
            r.memory_limit_mb == 512,
    {
        PerformanceConfig {
            lazy_initialization: true,
            max_preload_modules: 5,
            initial_memory_pool_size: 1024 * 1024,
            async_task_pool_size: 4,
            gc_interval_secs: 300,
            memory_limit_mb: 512,
        }
    }
}

/// Counters of the performance manager.
#[derive(Debug, Clone, Copy)]
pub struct PerformanceMetrics {
    pub startup_time: TimeSpan,
    pub memory_usage: usize,
    pub active_tasks: usize,
    pub peak_memory: usize,
    pub gc_runs: u32,
    pub cache_hits: u64,
    pub cache_misses: u64,
    /// The CPU usage in percent, as the bits of an `f64`; the figure itself is
    /// measured and read outside.
    pub cpu_usage_bits: u64,
}

/// Number of buffers in the pool.
pub const POOL_SLOTS: usize = 8;

/// Most entries the cache holds.
pub const CACHE_LIMIT: usize = 100;

/// Clean-ups closer together than this many seconds are skipped.
pub const GC_MIN_GAP_SECS: u64 = 60;

/// A clean-up keeps cached data of at most this capacity.
pub const GC_KEEP_CAPACITY: usize = 1024;

/// The cache as plain values.
pub open spec fn cache_view(c: Seq<(String, Vec<u8>)>) -> Seq<(Seq<char>, Seq<u8>)> {
    c.map_values(|p: (String, Vec<u8>)| (p.0@, p.1@))
}

/// Whole seconds from `from` to `to` (milliseconds), zero when `to` is earlier.
pub open spec fn secs_between(from: u64, to: u64) -> u64 {
    if to >= from {
        ((to - from) / 1000) as u64
    } else {
        0
    }
}

/// Keeps buffers for reuse, a small cache of data, and counters of use.
pub struct PerformanceManager {
    config: PerformanceConfig,
    metrics: PerformanceMetrics,
    /// When the manager started, in milliseconds
    start_ms: u64,
    /// When the last clean-up ran, in milliseconds
    last_gc_ms: u64,
    /// Buffers ready for reuse, all empty
    memory_pool: Vec<Vec<u8>>,
    /// Cached data by key; no key occurs twice, oldest first
    cache: Vec<(String, Vec<u8>)>,
}

impl PerformanceManager {
    pub closed spec fn config_spec(&self) -> PerformanceConfig {
        self.config
    }

    pub closed spec fn metrics_spec(&self) -> PerformanceMetrics {
        self.metrics
    }

    pub closed spec fn cached(&self) -> Seq<(Seq<char>, Seq<u8>)> {
        cache_view(self.cache@)
    }

    pub closed spec fn pool_size(&self) -> nat {
        self.memory_pool@.len()
    }

    pub closed spec fn last_gc(&self) -> u64 {
        self.last_gc_ms
    }

    pub closed spec fn started(&self) -> u64 {
        self.start_ms
    }

    pub closed spec fn wf(&self) -> bool {
        &&& keys_distinct(pairs_view(self.cache@))
        &&& self.cache@.len() <= CACHE_LIMIT
        &&& forall|i: int| 0 <= i < self.memory_pool@.len() ==> (#[trigger] self.memory_pool@[i])@.len() == 0
    }

    /// The cached data of a key, if any.
    pub open spec fn cached_data(&self, key: Seq<char>) -> Option<Seq<u8>> {
        lookup(self.cached(), key)
    }

    /// A manager started at `now_ms`, with eight empty buffers and no cached data.
    pub fn new(config: PerformanceConfig, now_ms: u64) -> (m: Self)
        ensures
            m.wf(),
            m.config_spec() == config,
            m.pool_size() == POOL_SLOTS,
            m.cached().len() == 0,
            m.started() == now_ms,
            m.last_gc() == now_ms,
            m.metrics_spec().startup_time.secs_spec() == 0,
            m.metrics_spec().startup_time.nanos_spec() == 0,
            m.metrics_spec().memory_usage == 0,
            m.metrics_spec().active_tasks == 0,
            m.metrics_spec().peak_memory == 0,
            m.metrics_spec().gc_runs == 0,
            m.metrics_spec().cache_hits == 0,
            m.metrics_spec().cache_misses == 0,
            m.metrics_spec().cpu_usage_bits == 0,
    {
        let mut memory_pool: Vec<Vec<u8>> = Vec::new();
        let mut i: usize = 0;
        while i < POOL_SLOTS
            invariant
                0 <= i <= POOL_SLOTS,
                memory_pool@.len() == i,
                forall|j: int| 0 <= j < i ==> (#[trigger] memory_pool@[j])@.len() == 0,
            decreases POOL_SLOTS - i,
        {
            memory_pool.push(Vec::with_capacity(config.initial_memory_pool_size / 8));
            i = i + 1;
        }
        let m = PerformanceManager {
            config,
            metrics: PerformanceMetrics {
                startup_time: TimeSpan::from_secs(0),
                memory_usage: 0,
                active_tasks: 0,
                peak_memory: 0,
                gc_runs: 0,
                cache_hits: 0,
                cache_misses: 0,
                cpu_usage_bits: 0,
            },
            start_ms: now_ms,
            last_gc_ms: now_ms,
            memory_pool,
            cache: Vec::new(),
        };
        assert(pairs_view(m.cache@) =~= Seq::<(Seq<char>, Vec<u8>)>::empty());
        m
    }

    /// The counters.
    pub fn get_metrics(&self) -> (m: PerformanceMetrics)
        ensures
            m == self.metrics_spec(),
    {
        self.metrics
    }

    /// The number of buffers in the pool.
    pub fn pool_len(&self) -> (n: usize)
        ensures
            n == self.pool_size(),
    {
        self.memory_pool.len()
    }

    /// Records the time from start to `now_ms` as the startup time.
    pub fn record_startup_complete(&mut self, now_ms: u64)
        requires
            old(self).wf(),
        ensures
            final(self).wf(),
            final(self).metrics_spec().startup_time.secs_spec() == (if now_ms >= old(self).started() {
                (now_ms - old(self).started()) as u64
            } else {
                0u64
            }) / 1000,
            final(self).metrics_spec().startup_time.nanos_spec() == ((if now_ms >= old(self).started() {
                (now_ms - old(self).started()) as u64
            } else {
                0u64
            }) % 1000) * 1_000_000,
            final(self).metrics_spec() == (PerformanceMetrics {
                startup_time: final(self).metrics_spec().startup_time,
                ..old(self).metrics_spec()
            }),
            final(self).cached() == old(self).cached(),
            final(self).config_spec() == old(self).config_spec(),
            final(self).pool_size() == old(self).pool_size(),
            final(self).last_gc() == old(self).last_gc(),
            final(self).started() == old(self).started(),
    {
        let elapsed = if now_ms >= self.start_ms {
            now_ms - self.start_ms
        } else {
            0
        };
        self.metrics.startup_time = TimeSpan::from_millis(elapsed);
    }

    /// Records the CPU usage, given as the bits of an `f64` percentage.
    pub fn update_cpu_usage(&mut self, usage_bits: u64)
        requires
            old(self).wf(),
        ensures
            final(self).wf(),
            final(self).metrics_spec() == (PerformanceMetrics {
                cpu_usage_bits: usage_bits,
                ..old(self).metrics_spec()
            }),
            final(self).cached() == old(self).cached(),
            final(self).config_spec() == old(self).config_spec(),
            final(self).pool_size() == old(self).pool_size(),
            final(self).last_gc() == old(self).last_gc(),
            final(self).started() == old(self).started(),
    {
        self.metrics.cpu_usage_bits = usage_bits;
    }

    /// Records the number of active tasks.
    pub fn update_active_tasks(&mut self, count: usize)
        requires
            old(self).wf(),
        ensures
            final(self).wf(),
            final(self).metrics_spec() == (PerformanceMetrics {
                active_tasks: count,
                ..old(self).metrics_spec()
            }),
            final(self).cached() == old(self).cached(),
            final(self).config_spec() == old(self).config_spec(),
            final(self).pool_size() == old(self).pool_size(),
            final(self).last_gc() == old(self).last_gc(),
            final(self).started() == old(self).started(),
    {
        self.metrics.active_tasks = count;
    }

    /// The cached data of `key`, counted as a hit, or `None`, counted as a miss.
    pub fn get_cached(&mut self, key: &str) -> (r: Option<Vec<u8>>)
        requires
            old(self).wf(),
            old(self).metrics_spec().cache_hits < u64::MAX,
            old(self).metrics_spec().cache_misses < u64::MAX,
        ensures
            final(self).wf(),
            match r {
                Some(d) => old(self).cached_data(key@) == Some(d@),
                None => old(self).cached_data(key@) is None,
            },
            final(self).metrics_spec() == (PerformanceMetrics {
                cache_hits: (old(self).metrics_spec().cache_hits + if r is Some {
                    1int
                } else {
                    0int
                }) as u64,
                cache_misses: (old(self).metrics_spec().cache_misses + if r is None {
                    1int
                } else {
                    0int
                }) as u64,
                ..old(self).metrics_spec()
            }),
            final(self).cached() == old(self).cached(),
            final(self).config_spec() == old(self).config_spec(),
            final(self).pool_size() == old(self).pool_size(),
            final(self).last_gc() == old(self).last_gc(),
            final(self).started() == old(self).started(),
    {
        proof {
            lemma_cache_lookups(self.cache@);
        }
        match find_key(&self.cache, key) {
            Some(i) => {
                proof {
                    lemma_lookup_at(pairs_view(self.cache@), i as int);
                }
                self.metrics.cache_hits = self.metrics.cache_hits + 1;
                let d = self.cache[i].1.clone();
                assert(d@ =~= self.cache@[i as int].1@);
                Some(d)
            },
            None => {
                proof {
                    assert forall|j: int| 0 <= j < pairs_view(self.cache@).len() implies #[trigger] pairs_view(
                        self.cache@,
                    )[j].0 != key@ by {
                        assert(pairs_view(self.cache@)[j].0 == self.cache@[j].0@);
                    }
                    lemma_lookup_absent(pairs_view(self.cache@), key@);
                }
                self.metrics.cache_misses = self.metrics.cache_misses + 1;
                None
            },
        }
    }

    /// Caches `data` under `key`; when the cache is full, its oldest entry is
    /// dropped first.
    pub fn cache_data(&mut self, key: String, data: Vec<u8>)
        requires
            old(self).wf(),
        ensures
            final(self).wf(),
            final(self).cached_data(key@) == Some(data@),
            forall|k: Seq<char>|
                k != key@ ==> #[trigger] final(self).cached_data(k) == if old(self).cached().len()
                    >= CACHE_LIMIT && k == old(self).cached()[0].0 {
                    None
                } else {
                    old(self).cached_data(k)
                },
            final(self).metrics_spec() == old(self).metrics_spec(),
            final(self).config_spec() == old(self).config_spec(),
            final(self).pool_size() == old(self).pool_size(),
            final(self).last_gc() == old(self).last_gc(),
            final(self).started() == old(self).started(),
    {
        let ghost c0 = self.cached();
        if self.cache.len() >= CACHE_LIMIT {
            let ghost p0 = pairs_view(self.cache@);
            let ghost v0 = self.cache@;
            self.cache.remove(0);
            proof {
                lemma_lookup_drop_first(p0);
                assert(pairs_view(self.cache@) =~= p0.drop_first());
                assert(cache_view(self.cache@) =~= cache_view(v0).drop_first());
                assert(c0[0].0 == p0[0].0);
                lemma_cache_lookups(v0);
                lemma_cache_lookups(self.cache@);
                assert forall|k: Seq<char>| k != c0[0].0 implies #[trigger] lookup(
                    cache_view(self.cache@),
                    k,
                ) == lookup(c0, k) by {
                    assert(lookup(pairs_view(self.cache@), k) == lookup(p0, k));
                }
                assert(lookup(cache_view(self.cache@), c0[0].0) is None) by {
                    assert(lookup(pairs_view(self.cache@), c0[0].0) is None);
                }
            }
        }
        let ghost before = self.cache@;
        let ghost kv = key@;
        let ghost dv = data@;
        set_value(&mut self.cache, key, data);
        proof {
            lemma_cache_lookups(before);
            lemma_cache_lookups(self.cache@);
            assert(self.cached() == cache_view(self.cache@));
            assert forall|k: Seq<char>| k != kv implies #[trigger] self.cached_data(k) == lookup(
                cache_view(before),
                k,
            ) by {
                assert(lookup(pairs_view(self.cache@), k) == lookup(pairs_view(before), k));
            }
        }
    }

    /// An empty buffer for `size` bytes: the first empty buffer of the pool,
    /// whose place is taken by a new empty one, or a new buffer.
    pub fn get_buffer(&mut self, size: usize) -> (buffer: Vec<u8>)
        requires
            old(self).wf(),
        ensures
            final(self).wf(),
            buffer@.len() == 0,
            final(self).pool_size() == old(self).pool_size(),
            final(self).metrics_spec() == old(self).metrics_spec(),
            final(self).cached() == old(self).cached(),
            final(self).config_spec() == old(self).config_spec(),
            final(self).last_gc() == old(self).last_gc(),
            final(self).started() == old(self).started(),
    {
        match first_empty(&self.memory_pool) {
            Some(i) => {
                let ghost before = self.memory_pool@;
                let mut buffer = self.memory_pool.remove(i);
                buffer.reserve(size);
                self.memory_pool.insert(i, Vec::new());
                assert forall|j: int| 0 <= j < self.memory_pool@.len() implies (
                #[trigger] self.memory_pool@[j])@.len() == 0 by {
                    if j != i {
                        assert(self.memory_pool@[j] == before[j]);
                    }
                }
                buffer
            },
            None => Vec::with_capacity(size),
        }
    }

    /// Takes a buffer back, emptied, into the first empty place of the pool
    /// when its capacity is at most the pool's initial size; otherwise it is
    /// dropped.
    pub fn return_buffer(&mut self, buffer: Vec<u8>)
        requires
            old(self).wf(),
        ensures
            final(self).wf(),
            final(self).pool_size() == old(self).pool_size(),
            final(self).metrics_spec() == old(self).metrics_spec(),
            final(self).cached() == old(self).cached(),
            final(self).config_spec() == old(self).config_spec(),
            final(self).last_gc() == old(self).last_gc(),
            final(self).started() == old(self).started(),
    {
        let mut buffer = buffer;
        buffer.clear();
        if buffer_capacity(&buffer) <= self.config.initial_memory_pool_size {
            match first_empty(&self.memory_pool) {
                Some(i) => {
                    let ghost before = self.memory_pool@;
                    self.memory_pool.set(i, buffer);
                    assert forall|j: int| 0 <= j < self.memory_pool@.len() implies (
                    #[trigger] self.memory_pool@[j])@.len() == 0 by {
                        if j != i {
                            assert(self.memory_pool@[j] == before[j]);
                        }
                    }
                },
                None => {},
            }
        }
    }

    /// Runs a clean-up at `now_ms`, unless the last one ran less than a minute
    /// before: cached data of a capacity above 1 KB is dropped, the pool's
    /// buffers are released, and the run is counted.
    pub fn trigger_gc(&mut self, now_ms: u64)
        requires
            old(self).wf(),
            old(self).metrics_spec().gc_runs < u32::MAX,
        ensures
            final(self).wf(),
            final(self).pool_size() == old(self).pool_size(),
            final(self).config_spec() == old(self).config_spec(),
            final(self).started() == old(self).started(),
            gc_skipped(old(self).last_gc(), now_ms) ==> {
                &&& final(self).metrics_spec() == old(self).metrics_spec()
                &&& final(self).cached() == old(self).cached()
                &&& final(self).last_gc() == old(self).last_gc()
            },
            !gc_skipped(old(self).last_gc(), now_ms) ==> {
                &&& final(self).metrics_spec() == (PerformanceMetrics {
                    gc_runs: (old(self).metrics_spec().gc_runs + 1) as u32,
                    ..old(self).metrics_spec()
                })
                &&& final(self).last_gc() == now_ms
                &&& kept_after_gc(old(self).cached(), final(self).cached())
            },
    {
        if self.last_gc_secs_before(now_ms) < GC_MIN_GAP_SECS {
            return;
        }
        let kept = keep_small(&self.cache);
        self.cache = kept;
        let n = self.memory_pool.len();
        let mut pool: Vec<Vec<u8>> = Vec::new();
        let mut i: usize = 0;
        while i < n
            invariant
                0 <= i <= n,
                pool@.len() == i,
                forall|j: int| 0 <= j < pool@.len() ==> (#[trigger] pool@[j])@.len() == 0,
            decreases n - i,
        {
            pool.push(Vec::new());
            i = i + 1;
        }
        self.memory_pool = pool;
        self.metrics.gc_runs = self.metrics.gc_runs + 1;
        self.last_gc_ms = now_ms;
    }

    /// Whole seconds since the last clean-up.
    fn last_gc_secs_before(&self, now_ms: u64) -> (n: u64)
        ensures
            n == secs_between(self.last_gc(), now_ms),
    {
        if now_ms >= self.last_gc_ms {
            (now_ms - self.last_gc_ms) / 1000
        } else {
            0
        }
    }

    /// Runs a clean-up when the configured interval has passed since the last one.
    pub fn periodic_gc(&mut self, now_ms: u64)
        requires
            old(self).wf(),
            old(self).metrics_spec().gc_runs < u32::MAX,
        ensures
            final(self).wf(),
            final(self).pool_size() == old(self).pool_size(),
            final(self).config_spec() == old(self).config_spec(),
            final(self).started() == old(self).started(),
            (gc_skipped(old(self).last_gc(), now_ms) || secs_between(old(self).last_gc(), now_ms)
                < old(self).config_spec().gc_interval_secs) ==> {
                &&& final(self).metrics_spec() == old(self).metrics_spec()
                &&& final(self).cached() == old(self).cached()
                &&& final(self).last_gc() == old(self).last_gc()
            },
            !(gc_skipped(old(self).last_gc(), now_ms) || secs_between(old(self).last_gc(), now_ms)
                < old(self).config_spec().gc_interval_secs) ==> {
                &&& final(self).metrics_spec() == (PerformanceMetrics {
                    gc_runs: (old(self).metrics_spec().gc_runs + 1) as u32,
                    ..old(self).metrics_spec()
                })
                &&& final(self).last_gc() == now_ms
                &&& kept_after_gc(old(self).cached(), final(self).cached())
            },
    {
        if self.last_gc_secs_before(now_ms) >= self.config.gc_interval_secs {
            self.trigger_gc(now_ms);
        }
    }

    /// Records the memory in use and its peak; above the configured limit a
    /// clean-up is triggered.
    pub fn update_memory_usage(&mut self, usage: usize, now_ms: u64)
        requires
            old(self).wf(),
            old(self).metrics_spec().gc_runs < u32::MAX,
            old(self).config_spec().memory_limit_mb * 1024 * 1024 <= usize::MAX,
        ensures
            final(self).wf(),
            final(self).pool_size() == old(self).pool_size(),
            final(self).config_spec() == old(self).config_spec(),
            final(self).started() == old(self).started(),
            final(self).metrics_spec().memory_usage == usage,
            final(self).metrics_spec().peak_memory == if usage > old(self).metrics_spec().peak_memory {
                usage
            } else {
                old(self).metrics_spec().peak_memory
            },
            final(self).metrics_spec().startup_time == old(self).metrics_spec().startup_time,
            final(self).metrics_spec().active_tasks == old(self).metrics_spec().active_tasks,
            final(self).metrics_spec().cache_hits == old(self).metrics_spec().cache_hits,
            final(self).metrics_spec().cache_misses == old(self).metrics_spec().cache_misses,
            final(self).metrics_spec().cpu_usage_bits == old(self).metrics_spec().cpu_usage_bits,
            (usage <= old(self).config_spec().memory_limit_mb * 1024 * 1024 || gc_skipped(
                old(self).last_gc(),
                now_ms,
            )) ==> {
                &&& final(self).metrics_spec().gc_runs == old(self).metrics_spec().gc_runs
                &&& final(self).cached() == old(self).cached()
                &&& final(self).last_gc() == old(self).last_gc()
            },
            !(usage <= old(self).config_spec().memory_limit_mb * 1024 * 1024 || gc_skipped(
                old(self).last_gc(),
                now_ms,
            )) ==> {
                &&& final(self).metrics_spec().gc_runs == old(self).metrics_spec().gc_runs + 1
                &&& final(self).last_gc() == now_ms
                &&& kept_after_gc(old(self).cached(), final(self).cached())
            },
    {
        self.metrics.memory_usage = usage;
        if usage > self.metrics.peak_memory {
            self.metrics.peak_memory = usage;
        }
        let limit_bytes = self.config.memory_limit_mb * 1024 * 1024;
        if usage > limit_bytes {
            self.trigger_gc(now_ms);
        }
    }
}

/// Whether a clean-up at `now` is skipped for following the last one at
/// `last` within a minute.
pub open spec fn gc_skipped(last: u64, now: u64) -> bool {
    secs_between(last, now) < GC_MIN_GAP_SECS
}

/// What a clean-up keeps of the cache: entries as they were, none holding
/// more than 1 KB; every entry holding more than 1 KB is gone.
pub open spec fn kept_after_gc(before: Seq<(Seq<char>, Seq<u8>)>, after: Seq<(Seq<char>, Seq<u8>)>) -> bool {
    &&& forall|k: Seq<char>|
        #[trigger] lookup(after, k) is Some ==> lookup(after, k) == lookup(before, k) && lookup(
            after,
            k,
        )->Some_0.len() <= GC_KEEP_CAPACITY
    &&& forall|k: Seq<char>|
        (#[trigger] lookup(before, k) is Some && lookup(before, k)->Some_0.len() > GC_KEEP_CAPACITY)
            ==> lookup(after, k) is None
    &&& after.len() <= before.len()
}

/// The cache entries whose data has a capacity of at most 1 KB, in order.
fn keep_small(cache: &Vec<(String, Vec<u8>)>) -> (kept: Vec<(String, Vec<u8>)>)
    requires
        keys_distinct(pairs_view(cache@)),
    ensures
        keys_distinct(pairs_view(kept@)),
        kept_after_gc(cache_view(cache@), cache_view(kept@)),
{
    let ghost all = cache_view(cache@);
    let mut kept: Vec<(String, Vec<u8>)> = Vec::new();
    let mut i: usize = 0;
    proof {
        lemma_keys_distinct_views(cache@);
        assert(all.take(0) =~= Seq::<(Seq<char>, Seq<u8>)>::empty());
        assert(cache_view(kept@) =~= Seq::<(Seq<char>, Seq<u8>)>::empty());
    }
    while i < cache.len()
        invariant
            0 <= i <= cache@.len(),
            all == cache_view(cache@),
            keys_distinct(all),
            keys_distinct(cache_view(kept@)),
            kept@.len() <= i,
            forall|k: Seq<char>|
                #[trigger] lookup(cache_view(kept@), k) is Some ==> lookup(cache_view(kept@), k)
                    == lookup(all.take(i as int), k) && lookup(cache_view(kept@), k)->Some_0.len()
                    <= GC_KEEP_CAPACITY,
            forall|k: Seq<char>|
                (#[trigger] lookup(all.take(i as int), k) is Some && lookup(all.take(i as int), k)->Some_0.len()
                    > GC_KEEP_CAPACITY) ==> lookup(cache_view(kept@), k) is None,
            forall|j: int|
                0 <= j < kept@.len() ==> lookup(all.take(i as int), (#[trigger] cache_view(kept@)[j]).0) is Some,
        decreases cache.len() - i,
    {
        let ghost t = all.take(i + 1);
        let ghost x = all[i as int];
        proof {
            assert(t.drop_last() =~= all.take(i as int));
            assert(t.last() == x);
            assert forall|j: int| 0 <= j < all.take(i as int).len() implies #[trigger] all.take(
                i as int,
            )[j].0 != x.0 by {
                assert(all.take(i as int)[j] == all[j]);
            }
            lemma_lookup_absent(all.take(i as int), x.0);
        }
        let ghost before = cache_view(kept@);
        if buffer_capacity(&cache[i].1) <= GC_KEEP_CAPACITY {
            let d = cache[i].1.clone();
            assert(d@ =~= cache@[i as int].1@);
            kept.push((cache[i].0.clone(), d));
            proof {
                let after = cache_view(kept@);
                assert(after =~= before.push(x));
                assert(after.drop_last() =~= before);
                assert(after.last() == x);
                assert forall|k: Seq<char>| #[trigger] lookup(after, k) is Some implies lookup(after, k)
                    == lookup(t, k) && lookup(after, k)->Some_0.len() <= GC_KEEP_CAPACITY by {
                    if k != x.0 {
                        assert(lookup(after, k) == lookup(before, k));
                        assert(lookup(t, k) == lookup(all.take(i as int), k));
                    }
                }
                assert forall|k: Seq<char>|
                    (#[trigger] lookup(t, k) is Some && lookup(t, k)->Some_0.len() > GC_KEEP_CAPACITY) implies lookup(
                    after,
                    k,
                ) is None by {
                    if k != x.0 {
                        assert(lookup(after, k) == lookup(before, k));
                        assert(lookup(t, k) == lookup(all.take(i as int), k));
                    }
                }
                assert forall|a: int, b: int| 0 <= a < b < after.len() implies #[trigger] after[a].0
                    != #[trigger] after[b].0 by {
                    if b == after.len() - 1 {
                        assert(after[a] == before[a]);
                        assert(lookup(all.take(i as int), before[a].0) is Some);
                    } else {
                        assert(after[a] == before[a]);
                        assert(after[b] == before[b]);
                    }
                }
                assert forall|j: int| 0 <= j < after.len() implies lookup(t, (#[trigger] after[j]).0) is Some by {
                    if j < after.len() - 1 {
                        assert(after[j] == before[j]);
                        assert(lookup(all.take(i as int), before[j].0) is Some);
                    }
                }
            }
        } else {
            proof {
                assert forall|j: int| 0 <= j < before.len() implies lookup(t, (#[trigger] before[j]).0) is Some by {
                    assert(lookup(all.take(i as int), before[j].0) is Some);
                }
                assert forall|k: Seq<char>| #[trigger] lookup(before, k) is Some implies lookup(before, k)
                    == lookup(t, k) && lookup(before, k)->Some_0.len() <= GC_KEEP_CAPACITY by {
                    assert(lookup(before, k) == lookup(all.take(i as int), k));
                    if k == x.0 {
                        assert(false);
                    }
                }
                assert forall|k: Seq<char>|
                    (#[trigger] lookup(t, k) is Some && lookup(t, k)->Some_0.len() > GC_KEEP_CAPACITY) implies lookup(
                    before,
                    k,
                ) is None by {
                    if k == x.0 {
                        if lookup(before, k) is Some {
                            assert(lookup(all.take(i as int), k) is Some);
                        }
                    } else {
                        assert(lookup(t, k) == lookup(all.take(i as int), k));
                    }
                }
            }
        }
        i = i + 1;
    }
    proof {
        assert(all.take(i as int) =~= all);
        lemma_keys_distinct_views(kept@);
    }
    kept
}

/// Names are distinct in the pairs exactly when they are in the plain values.
proof fn lemma_keys_distinct_views(c: Seq<(String, Vec<u8>)>)
    ensures
        keys_distinct(pairs_view(c)) == keys_distinct(cache_view(c)),
{
    let p = pairs_view(c);
    let v = cache_view(c);
    if keys_distinct(p) {
        assert forall|a: int, b: int| 0 <= a < b < v.len() implies #[trigger] v[a].0 != #[trigger] v[b].0 by {
            assert(p[a].0 == v[a].0 && p[b].0 == v[b].0);
        }
    }
    if keys_distinct(v) {
        assert forall|a: int, b: int| 0 <= a < b < p.len() implies #[trigger] p[a].0 != #[trigger] p[b].0 by {
            assert(p[a].0 == v[a].0 && p[b].0 == v[b].0);
        }
    }
}

/// The first empty buffer of a pool, if any.
fn first_empty(pool: &Vec<Vec<u8>>) -> (r: Option<usize>)
    ensures
        match r {
            Some(i) => i < pool@.len() && pool@[i as int]@.len() == 0,
            None => forall|j: int| 0 <= j < pool@.len() ==> (#[trigger] pool@[j])@.len() > 0,
        },
{
    let mut i: usize = 0;
    while i < pool.len()
        invariant
            0 <= i <= pool@.len(),
            forall|j: int| 0 <= j < i ==> (#[trigger] pool@[j])@.len() > 0,
        decreases pool.len() - i,
    {
        if pool[i].len() == 0 {
            return Some(i);
        }
        i = i + 1;
    }
    None
}

/// The data cached under a name, from the pairs holding it.
pub open spec fn view_of(o: Option<Vec<u8>>) -> Option<Seq<u8>> {
    match o {
        Some(v) => Some(v@),
        None => None,
    }
}

/// Looking up the cache's plain values agrees with looking up its pairs.
proof fn lemma_cache_lookup(c: Seq<(String, Vec<u8>)>, k: Seq<char>)
    ensures
        lookup(cache_view(c), k) == view_of(lookup(pairs_view(c), k)),
    decreases c.len(),
{
    if c.len() > 0 {
        assert(pairs_view(c).drop_last() =~= pairs_view(c.drop_last()));
        assert(cache_view(c).drop_last() =~= cache_view(c.drop_last()));
        lemma_cache_lookup(c.drop_last(), k);
    }
}

proof fn lemma_cache_lookups(c: Seq<(String, Vec<u8>)>)
    ensures
        forall|k: Seq<char>| #[trigger] lookup(cache_view(c), k) == view_of(lookup(pairs_view(c), k)),
{
    assert forall|k: Seq<char>| #[trigger] lookup(cache_view(c), k) == view_of(
        lookup(pairs_view(c), k),
    ) by {
        lemma_cache_lookup(c, k);
    }
}

} // verus!
