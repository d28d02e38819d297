//! Reuse of byte buffers and sharing of repeated strings.

use crate::text::{decimal, eq_str, push_decimal};
use std::sync::Arc;
use vstd::prelude::*;

verus! {

/// Whether `n` is a power of two.
pub open spec fn is_pow2(n: nat) -> bool
    decreases n,
{
    if n == 1 {
        true
    } else if n == 0 || n % 2 == 1 {
        false
    } else {
        is_pow2(n / 2)
    }
}

/// The smallest power of two that is at least `n`, as `usize::next_power_of_two`
/// gives it.
pub open spec fn next_pow2(n: nat) -> nat
    decreases n,
{
    if n <= 1 {
        1
    } else {
        2 * next_pow2(((n + 1) / 2) as nat)
    }
}

/// The smallest power of two that is at least `size`.
pub fn next_power_of_two(size: usize) -> (p: usize)
    requires
        size <= 0x8000_0000_0000_0000,
        size <= usize::MAX / 2 + 1,
    ensures
        p == next_pow2(size as nat),
    decreases size,
{
    if size <= 1 {
        1
    } else {
        let half = next_power_of_two((size - 1) / 2 + 1);
        assert(((size - 1) / 2 + 1) as nat == ((size + 1) / 2) as nat);
        proof {
            lemma_next_pow2_bound(((size + 1) / 2) as nat);
        }
        2 * half
    }
}

/// `next_pow2(n)` is below twice `n` (for `n` at least one).
proof fn lemma_next_pow2_bound(n: nat)
    ensures
        next_pow2(n) <= if n == 0 {
            1
        } else {
            2 * n - 1
        },
        next_pow2(n) >= 1,
    decreases n,
{
    if n > 1 {
        lemma_next_pow2_bound(((n + 1) / 2) as nat);
    }
}

/// The number of bytes a buffer can hold without growing, from `Vec::capacity`;
/// it is at least the buffer's length, and otherwise up to the allocator.
#[verifier::external_body]
pub(crate) fn buffer_capacity(buffer: &Vec<u8>) -> (c: usize)
    ensures
        c >= buffer@.len(),
{
    buffer.capacity()
}

/// How close memory use is to its limit.
#[derive(Debug, Clone, Copy, PartialEq, Eq, Structural)]
pub enum MemoryStatus {
    Normal,
    Warning,
    Critical,
}

/// Counts of a memory pool.
#[derive(Debug, Clone, Copy)]
pub struct MemoryPoolStats {
    pub total_allocated: usize,
    pub total_deallocated: usize,
    pub active_allocation: usize,
    pub peak_usage: usize,
    pub pool_count: usize,
    pub pooled_buffers: usize,
}

/// Keeps returned buffers, grouped by capacity, to hand them out again.
pub struct MemoryPool {
    /// Buffers by capacity; no capacity occurs twice.
    pools: Vec<(usize, Vec<Vec<u8>>)>,
    max_pool_size: usize,
    total_allocated: usize,
    total_deallocated: usize,
    peak_usage: usize,
}

/// The number of buffers kept under each capacity.
pub open spec fn pool_sizes(p: Seq<(usize, Vec<Vec<u8>>)>) -> Seq<(usize, nat)> {
    p.map_values(|e: (usize, Vec<Vec<u8>>)| (e.0, e.1@.len()))
}

/// The total number of buffers kept.
pub open spec fn total_buffers(p: Seq<(usize, nat)>) -> nat
    decreases p.len(),
{
    if p.len() == 0 {
        0
    } else {
        total_buffers(p.drop_last()) + p.last().1
    }
}

/// The number of buffers kept under capacity `c`, if any pool exists for it.
pub open spec fn pool_of(p: Seq<(usize, nat)>, c: usize) -> Option<nat>
    decreases p.len(),
{
    if p.len() == 0 {
        None
    } else if p.last().0 == c {
        Some(p.last().1)
    } else {
        pool_of(p.drop_last(), c)
    }
}

impl MemoryPool {
    pub closed spec fn sizes(&self) -> Seq<(usize, nat)> {
        pool_sizes(self.pools@)
    }

    pub closed spec fn allocated(&self) -> usize {
        self.total_allocated
    }

    pub closed spec fn deallocated(&self) -> usize {
        self.total_deallocated
    }

    pub closed spec fn peak(&self) -> usize {
        self.peak_usage
    }

    pub closed spec fn max_pool_size_spec(&self) -> usize {
        self.max_pool_size
    }

    pub closed spec fn wf(&self) -> bool {
        &&& forall|i: int, j: int|
            0 <= i < j < self.pools@.len() ==> #[trigger] self.pools@[i].0 != #[trigger] self.pools@[j].0
        &&& forall|i: int| 0 <= i < self.pools@.len() ==> (#[trigger] self.pools@[i]).1@.len() <= self.max_pool_size
    }

    /// An empty pool that keeps at most `max_pool_size` buffers per capacity.
    pub fn new(max_pool_size: usize) -> (r: Self)
        ensures
            r.wf(),
            r.sizes().len() == 0,
            r.allocated() == 0,
            r.deallocated() == 0,
            r.peak() == 0,
            r.max_pool_size_spec() == max_pool_size,
    {
        MemoryPool {
            pools: Vec::new(),
            max_pool_size,
            total_allocated: 0,
            total_deallocated: 0,
            peak_usage: 0,
        }
    }

    fn find_pool(&self, capacity: usize) -> (r: Option<usize>)
        ensures
            match r {
                Some(i) => i < self.pools@.len() && self.pools@[i as int].0 == capacity,
                None => forall|i: int| 0 <= i < self.pools@.len() ==> #[trigger] self.pools@[i].0 != capacity,
            },
    {
        let mut i: usize = 0;
        while i < self.pools.len()
            invariant
                0 <= i <= self.pools@.len(),
                forall|j: int| 0 <= j < i ==> #[trigger] self.pools@[j].0 != capacity,
            decreases self.pools.len() - i,
        {
            if self.pools[i].0 == capacity {
                return Some(i);
            }
            i = i + 1;
        }
        None
    }

    /// An empty buffer for `size` bytes. The size is rounded up to a power of
    /// two; a kept buffer of that capacity is handed out when there is one,
    /// otherwise a new buffer of that capacity. Either way the rounded size is
    /// counted as allocated; the peak is raised only for a new buffer.
    pub fn allocate(&mut self, size: usize) -> (buffer: Vec<u8>)
        requires
            old(self).wf(),
            size <= usize::MAX / 2 + 1,
            old(self).allocated() + next_pow2(size as nat) <= usize::MAX,
        ensures
            final(self).wf(),
            buffer@.len() == 0,
            final(self).allocated() == old(self).allocated() + next_pow2(size as nat),
            final(self).deallocated() == old(self).deallocated(),
            final(self).max_pool_size_spec() == old(self).max_pool_size_spec(),
            ({
                let n = next_pow2(size as nat) as usize;
                let reused = pool_of(old(self).sizes(), n) is Some && pool_of(old(self).sizes(), n)->Some_0 > 0;
                &&& reused ==> pool_of(final(self).sizes(), n) == Some((pool_of(old(self).sizes(), n)->Some_0 - 1) as nat)
                &&& reused ==> final(self).peak() == old(self).peak()
                &&& !reused ==> final(self).sizes() == old(self).sizes()
                &&& !reused ==> final(self).peak() == (if final(self).allocated() > old(self).peak() {
                    final(self).allocated()
                } else {
                    old(self).peak()
                })
            }),
    {
        let normalized = next_power_of_two(size);
        let ghost before = self.sizes();
        match self.find_pool(normalized) {
            Some(i) => {
                proof {
                    lemma_pool_of_at(before, i as int);
                }
                if self.pools[i].1.len() > 0 {
                    let (cap, mut bufs) = self.pools.remove(i);
                    let mut buffer = bufs.pop().unwrap();
                    buffer.clear();
                    buffer.reserve(size);
                    self.pools.insert(i, (cap, bufs));
                    self.total_allocated = self.total_allocated + normalized;
                    proof {
                        assert(self.sizes() =~= before.update(i as int, (normalized, (before[i as int].1 - 1) as nat)));
                        assert forall|a: int, b: int| 0 <= a < b < self.pools@.len() implies #[trigger] self.pools@[a].0
                            != #[trigger] self.pools@[b].0 by {
                            assert(self.pools@[a].0 == old(self).pools@[a].0);
                            assert(self.pools@[b].0 == old(self).pools@[b].0);
                        }
                        assert forall|a: int| 0 <= a < self.pools@.len() implies (#[trigger] self.pools@[a]).1@.len()
                            <= self.max_pool_size by {
                            if a != i {
                                assert(self.pools@[a] == old(self).pools@[a]);
                            }
                        }
                        lemma_pool_of_update(before, i as int, (before[i as int].1 - 1) as nat);
                    }
                    return buffer;
                }
            },
            None => {
                proof {
                    lemma_pool_of_absent(before, normalized);
                }
            },
        }
        let buffer: Vec<u8> = Vec::with_capacity(normalized);
        self.total_allocated = self.total_allocated + normalized;
        if self.total_allocated > self.peak_usage {
            self.peak_usage = self.total_allocated;
        }
        buffer
    }

    /// Takes a buffer back: its capacity is counted as deallocated (wrapping as
    /// `usize` arithmetic does in a release build), and it is
    /// kept under its capacity unless that pool is full. A pool for the
    /// capacity exists afterwards either way.
    pub fn deallocate(&mut self, buffer: Vec<u8>)
        requires
            old(self).wf(),
        ensures
            final(self).wf(),
            final(self).allocated() == old(self).allocated(),
            final(self).peak() == old(self).peak(),
            final(self).max_pool_size_spec() == old(self).max_pool_size_spec(),
            exists|c: usize|
                c >= buffer@.len() && final(self).deallocated() == (old(self).deallocated() + c) % (
                usize::MAX as int + 1)
                    && pool_of(final(self).sizes(), c) == Some(
                    match pool_of(old(self).sizes(), c) {
                        Some(k) => if k < old(self).max_pool_size_spec() {
                            k + 1
                        } else {
                            k
                        },
                        None => if 0 < old(self).max_pool_size_spec() {
                            1nat
                        } else {
                            0nat
                        },
                    },
                ),
    {
        let capacity = buffer_capacity(&buffer);
        let ghost blen = buffer@.len();
        self.total_deallocated = self.total_deallocated.wrapping_add(capacity);
        let ghost before = self.sizes();
        let ghost expected = match pool_of(before, capacity) {
            Some(k) => if k < self.max_pool_size {
                k + 1
            } else {
                k
            },
            None => if 0 < self.max_pool_size {
                1nat
            } else {
                0nat
            },
        };
        match self.find_pool(capacity) {
            Some(i) => {
                proof {
                    lemma_pool_of_at(before, i as int);
                }
                let (cap, mut bufs) = self.pools.remove(i);
                let kept = bufs.len() < self.max_pool_size;
                if kept {
                    bufs.push(buffer);
                }
                let ghost newlen = bufs@.len();
                self.pools.insert(i, (cap, bufs));
                proof {
                    assert(self.sizes() =~= before.update(i as int, (capacity, newlen)));
                    assert forall|a: int, b: int| 0 <= a < b < self.pools@.len() implies #[trigger] self.pools@[a].0
                        != #[trigger] self.pools@[b].0 by {
                        assert(self.pools@[a].0 == old(self).pools@[a].0);
                        assert(self.pools@[b].0 == old(self).pools@[b].0);
                    }
                    assert forall|a: int| 0 <= a < self.pools@.len() implies (#[trigger] self.pools@[a]).1@.len()
                        <= self.max_pool_size by {
                        if a != i {
                            assert(self.pools@[a] == old(self).pools@[a]);
                        }
                    }
                    lemma_pool_of_update(before, i as int, newlen);
                    assert(pool_of(self.sizes(), capacity) == Some(expected));
                }
            },
            None => {
                proof {
                    lemma_pool_of_absent(before, capacity);
                }
                let mut bufs: Vec<Vec<u8>> = Vec::new();
                if 0 < self.max_pool_size {
                    bufs.push(buffer);
                }
                let ghost newlen = bufs@.len();
                self.pools.push((capacity, bufs));
                proof {
                    assert(self.sizes() =~= before.push((capacity, newlen)));
                    assert(self.sizes().drop_last() =~= before);
                    assert(pool_of(self.sizes(), capacity) == Some(expected));
                    assert forall|a: int, b: int| 0 <= a < b < self.pools@.len() implies #[trigger] self.pools@[a].0
                        != #[trigger] self.pools@[b].0 by {
                        if b < old(self).pools@.len() {
                            assert(self.pools@[a] == old(self).pools@[a]);
                            assert(self.pools@[b] == old(self).pools@[b]);
                        } else {
                            assert(self.pools@[a] == old(self).pools@[a]);
                        }
                    }
                    assert forall|a: int| 0 <= a < self.pools@.len() implies (#[trigger] self.pools@[a]).1@.len()
                        <= self.max_pool_size by {
                        if a < old(self).pools@.len() {
                            assert(self.pools@[a] == old(self).pools@[a]);
                        }
                    }
                }
            },
        }
        assert(capacity >= blen && self.total_deallocated == (old(self).total_deallocated + capacity) % (
            usize::MAX as int + 1) && pool_of(self.sizes(), capacity) == Some(expected));
    }

    /// The counts: allocated, deallocated, their difference, the peak, the
    /// number of pools and of kept buffers.
    pub fn get_stats(&self) -> (s: MemoryPoolStats)
        requires
            self.deallocated() <= self.allocated(),
            total_buffers(self.sizes()) <= usize::MAX,
        ensures
            s.total_allocated == self.allocated(),
            s.total_deallocated == self.deallocated(),
            s.active_allocation == self.allocated() - self.deallocated(),
            s.peak_usage == self.peak(),
            s.pool_count == self.sizes().len(),
            s.pooled_buffers == total_buffers(self.sizes()),
    {
        let mut pooled: usize = 0;
        let mut i: usize = 0;
        while i < self.pools.len()
            invariant
                0 <= i <= self.pools@.len(),
                total_buffers(self.sizes()) <= usize::MAX,
                pooled == total_buffers(self.sizes().take(i as int)),
            decreases self.pools.len() - i,
        {
            let ghost t = self.sizes().take(i + 1);
            assert(t.drop_last() =~= self.sizes().take(i as int));
            proof {
                lemma_total_prefix(self.sizes(), i + 1);
            }
            pooled = pooled + self.pools[i].1.len();
            i = i + 1;
        }
        assert(self.sizes().take(i as int) =~= self.sizes());
        MemoryPoolStats {
            total_allocated: self.total_allocated,
            total_deallocated: self.total_deallocated,
            active_allocation: self.total_allocated - self.total_deallocated,
            peak_usage: self.peak_usage,
            pool_count: self.pools.len(),
            pooled_buffers: pooled,
        }
    }

    /// The counts, as `get_stats` gives them, when more has been allocated
    /// than given back and the kept buffers can be counted in a `usize`;
    /// `None` otherwise, where the subtraction or the count would overflow.
    pub fn try_get_stats(&self) -> (r: Option<MemoryPoolStats>)
        ensures
            r is Some <==> (self.deallocated() <= self.allocated() && total_buffers(self.sizes())
                <= usize::MAX),
            match r {
                Some(s) => s.total_allocated == self.allocated() && s.total_deallocated
                    == self.deallocated() && s.active_allocation == self.allocated()
                    - self.deallocated() && s.peak_usage == self.peak() && s.pool_count
                    == self.sizes().len() && s.pooled_buffers == total_buffers(self.sizes()),
                None => true,
            },
    {
        if self.total_deallocated > self.total_allocated {
            return None;
        }
        let mut pooled: usize = 0;
        let mut i: usize = 0;
        while i < self.pools.len()
            invariant
                0 <= i <= self.pools@.len(),
                pooled == total_buffers(self.sizes().take(i as int)),
            decreases self.pools.len() - i,
        {
            let ghost t = self.sizes().take(i + 1);
            assert(t.drop_last() =~= self.sizes().take(i as int));
            match pooled.checked_add(self.pools[i].1.len()) {
                Some(n) => pooled = n,
                None => {
                    proof {
                        lemma_total_prefix(self.sizes(), i + 1);
                    }
                    return None;
                },
            }
            i = i + 1;
        }
        assert(self.sizes().take(i as int) =~= self.sizes());
        Some(self.get_stats())
    }

    /// Empties every pool, keeping the pools themselves.
    pub fn clear_all(&mut self)
        requires
            old(self).wf(),
        ensures
            final(self).wf(),
            final(self).allocated() == old(self).allocated(),
            final(self).deallocated() == old(self).deallocated(),
            final(self).peak() == old(self).peak(),
            final(self).max_pool_size_spec() == old(self).max_pool_size_spec(),
            final(self).sizes().len() == old(self).sizes().len(),
            forall|i: int|
                0 <= i < final(self).sizes().len() ==> #[trigger] final(self).sizes()[i] == (
                old(self).sizes()[i].0,
                0nat,
            ),
    {
        let n = self.pools.len();
        let mut i: usize = 0;
        while i < n
            invariant
                n == self.pools@.len(),
                0 <= i <= n,
                self.max_pool_size == old(self).max_pool_size,
                self.total_allocated == old(self).total_allocated,
                self.total_deallocated == old(self).total_deallocated,
                self.peak_usage == old(self).peak_usage,
                forall|j: int| 0 <= j < n ==> #[trigger] self.pools@[j].0 == old(self).pools@[j].0,
                forall|j: int| 0 <= j < i ==> #[trigger] self.pools@[j].1@.len() == 0,
                forall|j: int| i <= j < n ==> #[trigger] self.pools@[j].1@.len() == old(self).pools@[j].1@.len(),
            decreases n - i,
        {
            let (cap, mut bufs) = self.pools.remove(i);
            bufs.clear();
            self.pools.insert(i, (cap, bufs));
            i = i + 1;
        }
        assert forall|a: int, b: int| 0 <= a < b < self.pools@.len() implies #[trigger] self.pools@[a].0
            != #[trigger] self.pools@[b].0 by {
            assert(old(self).pools@[a].0 != old(self).pools@[b].0);
        }
    }

    /// Halves every pool, keeping the older half of its buffers.
    pub fn cleanup(&mut self)
        requires
            old(self).wf(),
        ensures
            final(self).wf(),
            final(self).allocated() == old(self).allocated(),
            final(self).deallocated() == old(self).deallocated(),
            final(self).peak() == old(self).peak(),
            final(self).max_pool_size_spec() == old(self).max_pool_size_spec(),
            final(self).sizes().len() == old(self).sizes().len(),
            forall|i: int|
                0 <= i < final(self).sizes().len() ==> #[trigger] final(self).sizes()[i] == (
                old(self).sizes()[i].0,
                old(self).sizes()[i].1 / 2,
            ),
    {
        let n = self.pools.len();
        let mut i: usize = 0;
        while i < n
            invariant
                n == self.pools@.len(),
                0 <= i <= n,
                self.max_pool_size == old(self).max_pool_size,
                self.total_allocated == old(self).total_allocated,
                self.total_deallocated == old(self).total_deallocated,
                self.peak_usage == old(self).peak_usage,
                forall|j: int| 0 <= j < n ==> #[trigger] self.pools@[j].0 == old(self).pools@[j].0,
                forall|j: int| 0 <= j < i ==> #[trigger] self.pools@[j].1@.len() == old(self).pools@[j].1@.len() / 2,
                forall|j: int| i <= j < n ==> #[trigger] self.pools@[j].1@.len() == old(self).pools@[j].1@.len(),
            decreases n - i,
        {
            let (cap, mut bufs) = self.pools.remove(i);
            let half = bufs.len() / 2;
            bufs.truncate(half);
            self.pools.insert(i, (cap, bufs));
            i = i + 1;
        }
        proof {
            assert forall|a: int, b: int| 0 <= a < b < self.pools@.len() implies #[trigger] self.pools@[a].0
                != #[trigger] self.pools@[b].0 by {
                assert(old(self).pools@[a].0 != old(self).pools@[b].0);
            }
            assert forall|a: int| 0 <= a < self.pools@.len() implies (#[trigger] self.pools@[a]).1@.len()
                <= self.max_pool_size by {
                assert(old(self).pools@[a].1@.len() <= self.max_pool_size);
            }
        }
    }
}

proof fn lemma_total_prefix(p: Seq<(usize, nat)>, k: int)
    requires
        0 <= k <= p.len(),
    ensures
        total_buffers(p.take(k)) <= total_buffers(p),
    decreases p.len(),
{
    if k < p.len() {
        lemma_total_prefix(p.drop_last(), k);
        assert(p.drop_last().take(k) =~= p.take(k));
    } else {
        assert(p.take(k) =~= p);
    }
}

proof fn lemma_pool_of_at(p: Seq<(usize, nat)>, i: int)
    requires
        0 <= i < p.len(),
        forall|a: int, b: int| 0 <= a < b < p.len() ==> #[trigger] p[a].0 != #[trigger] p[b].0,
    ensures
        pool_of(p, p[i].0) == Some(p[i].1),
    decreases p.len(),
{
    if i < p.len() - 1 {
        assert(p.last() == p[p.len() - 1]);
        lemma_pool_of_at(p.drop_last(), i);
    }
}

proof fn lemma_pool_of_absent(p: Seq<(usize, nat)>, c: usize)
    requires
        forall|i: int| 0 <= i < p.len() ==> #[trigger] p[i].0 != c,
    ensures
        pool_of(p, c) is None,
    decreases p.len(),
{
    if p.len() > 0 {
        assert(p.last() == p[p.len() - 1]);
        lemma_pool_of_absent(p.drop_last(), c);
    }
}

proof fn lemma_pool_of_update(p: Seq<(usize, nat)>, i: int, v: nat)
    requires
        0 <= i < p.len(),
        forall|a: int, b: int| 0 <= a < b < p.len() ==> #[trigger] p[a].0 != #[trigger] p[b].0,
    ensures
        pool_of(p.update(i, (p[i].0, v)), p[i].0) == Some(v),
    decreases p.len(),
{
    let t = p.update(i, (p[i].0, v));
    assert(t.last() == t[t.len() - 1]);
    if i < p.len() - 1 {
        assert(t.drop_last() =~= p.drop_last().update(i, (p[i].0, v)));
        assert(p.last() == p[p.len() - 1]);
        lemma_pool_of_update(p.drop_last(), i, v);
    }
}

/// Shares a string through `Arc::clone`: the result points to the same string.
#[verifier::external_body]
fn share(s: &Arc<String>) -> (r: Arc<String>)
    ensures
        r == *s,
{
    Arc::clone(s)
}

/// The number of strong pointers to a shared string, through
/// `Arc::strong_count`; `a` itself is one of them.
#[verifier::external_body]
fn strong_count(a: &Arc<String>) -> (n: usize)
    ensures
        n >= 1,
{
    Arc::strong_count(a)
}

/// `after` is `before` with some entries left out, the rest in their order.
pub open spec fn kept_in_order(before: Seq<Seq<char>>, after: Seq<Seq<char>>) -> bool {
    exists|idx: Seq<int>|
        #![trigger idx.len()]
        idx.len() == after.len() && (forall|a: int, b: int|
            0 <= a < b < idx.len() ==> #[trigger] idx[a] < #[trigger] idx[b]) && (forall|a: int|
            0 <= a < idx.len() ==> 0 <= #[trigger] idx[a] < before.len() && after[a] == before[idx[a]])
}

/// The strings an interner holds after `s` is interned.
pub open spec fn interned_after(before: Seq<Seq<char>>, s: Seq<char>) -> Seq<Seq<char>> {
    if before.contains(s) {
        before
    } else {
        before.push(s)
    }
}

/// Once a string is interned, interning it again is a hit that keeps the
/// strings as they are; no string is ever held twice.
pub proof fn interned_string_is_a_hit_next_time(before: Seq<Seq<char>>, s: Seq<char>)
    requires
        forall|i: int, j: int| 0 <= i < j < before.len() ==> before[i] != before[j],
    ensures
        interned_after(before, s).contains(s),
        interned_after(interned_after(before, s), s) == interned_after(before, s),
        forall|i: int, j: int|
            0 <= i < j < interned_after(before, s).len() ==> interned_after(before, s)[i] != interned_after(
                before,
                s,
            )[j],
{
    if !before.contains(s) {
        let after = before.push(s);
        assert(after[before.len() as int] == s);
        assert forall|i: int, j: int| 0 <= i < j < after.len() implies after[i] != after[j] by {
            if j == before.len() {
                assert(after[i] == before[i]);
            } else {
                assert(after[i] == before[i] && after[j] == before[j]);
            }
        }
    }
}

/// Hands out one shared copy of each distinct string.
pub struct StringInterner {
    /// Each string with its shared copy; no string occurs twice.
    strings: Vec<(String, Arc<String>)>,
    hit_count: u64,
    miss_count: u64,
}

impl StringInterner {
    pub closed spec fn interned(&self) -> Seq<Seq<char>> {
        self.strings@.map_values(|p: (String, Arc<String>)| p.0@)
    }

    pub closed spec fn hits(&self) -> u64 {
        self.hit_count
    }

    pub closed spec fn misses(&self) -> u64 {
        self.miss_count
    }

    pub closed spec fn wf(&self) -> bool {
        &&& forall|i: int, j: int|
            0 <= i < j < self.strings@.len() ==> #[trigger] self.strings@[i].0@ != #[trigger] self.strings@[j].0@
        &&& forall|i: int| 0 <= i < self.strings@.len() ==> (*(#[trigger] self.strings@[i]).1)@ == self.strings@[i].0@
    }

    /// An interner with no strings.
    pub fn new() -> (r: Self)
        ensures
            r.wf(),
            r.interned().len() == 0,
            r.hits() == 0,
            r.misses() == 0,
    {
        StringInterner { strings: Vec::new(), hit_count: 0, miss_count: 0 }
    }

    /// The shared copy of `s`: the one handed out before when `s` was seen
    /// (a hit), otherwise a new one that is kept (a miss).
    pub fn intern(&mut self, s: &str) -> (r: Arc<String>)
        requires
            old(self).wf(),
            old(self).hits() < u64::MAX,
            old(self).misses() < u64::MAX,
        ensures
            final(self).wf(),
            (*r)@ == s@,
            final(self).interned() == interned_after(old(self).interned(), s@),
            if old(self).interned().contains(s@) {
                &&& final(self).interned() == old(self).interned()
                &&& final(self).hits() == old(self).hits() + 1
                &&& final(self).misses() == old(self).misses()
            } else {
                &&& final(self).interned() == old(self).interned().push(s@)
                &&& final(self).hits() == old(self).hits()
                &&& final(self).misses() == old(self).misses() + 1
            },
    {
        let mut i: usize = 0;
        while i < self.strings.len()
            invariant
                0 <= i <= self.strings@.len(),
                self.strings@ == old(self).strings@,
                self.hit_count == old(self).hit_count,
                self.miss_count == old(self).miss_count,
                self.hit_count < u64::MAX,
                self.miss_count < u64::MAX,
                self.wf(),
                forall|j: int| 0 <= j < i ==> #[trigger] self.strings@[j].0@ != s@,
            decreases self.strings.len() - i,
        {
            if eq_str(&self.strings[i].0, s) {
                self.hit_count = self.hit_count + 1;
                assert(self.interned()[i as int] == s@);
                return share(&self.strings[i].1);
            }
            i = i + 1;
        }
        proof {
            assert forall|j: int| 0 <= j < self.interned().len() implies self.interned()[j] != s@ by {
                assert(self.interned()[j] == self.strings@[j].0@);
            }
        }
        let shared = Arc::new(String::from_str(s));
        let kept = share(&shared);
        let ghost before = self.strings@;
        self.strings.push((String::from_str(s), kept));
        self.miss_count = self.miss_count + 1;
        proof {
            assert(self.strings@ == before.push((self.strings@.last().0, self.strings@.last().1)));
            assert(self.interned() =~= old(self).interned().push(s@)) by {
                assert forall|a: int| 0 <= a < self.strings@.len() implies #[trigger] self.interned()[a]
                    == old(self).interned().push(s@)[a] by {
                    if a < before.len() {
                        assert(self.strings@[a] == before[a]);
                    }
                }
            }
            assert forall|a: int, b: int| 0 <= a < b < self.strings@.len() implies #[trigger] self.strings@[a].0@
                != #[trigger] self.strings@[b].0@ by {
                if b < before.len() {
                    assert(self.strings@[a] == before[a]);
                    assert(self.strings@[b] == before[b]);
                } else {
                    assert(self.strings@[a] == before[a]);
                }
            }
            assert forall|a: int| 0 <= a < self.strings@.len() implies (*(#[trigger] self.strings@[a]).1)@
                == self.strings@[a].0@ by {
                if a < before.len() {
                    assert(self.strings@[a] == before[a]);
                }
            }
        }
        shared
    }

    /// Forgets the strings whose shared copy is held nowhere else. Which
    /// those are rests on the references held outside the interner; the
    /// strings kept keep their order.
    pub fn cleanup(&mut self)
        requires
            old(self).wf(),
        ensures
            final(self).wf(),
            final(self).interned().len() <= old(self).interned().len(),
            forall|i: int|
                0 <= i < final(self).interned().len() ==> old(self).interned().contains(
                    #[trigger] final(self).interned()[i],
                ),
            kept_in_order(old(self).interned(), final(self).interned()),
            final(self).hits() == old(self).hits(),
            final(self).misses() == old(self).misses(),
    {
        let mut kept: Vec<(String, Arc<String>)> = Vec::new();
        let ghost mut idx: Seq<int> = Seq::empty();
        let mut i: usize = 0;
        while i < self.strings.len()
            invariant
                0 <= i <= self.strings@.len(),
                self.strings@ == old(self).strings@,
                self.hit_count == old(self).hit_count,
                self.miss_count == old(self).miss_count,
                old(self).wf(),
                idx.len() == kept@.len(),
                kept@.len() <= i,
                forall|a: int| 0 <= a < idx.len() ==> 0 <= #[trigger] idx[a] < i,
                forall|a: int, b: int| 0 <= a < b < idx.len() ==> #[trigger] idx[a] < #[trigger] idx[b],
                forall|a: int|
                    0 <= a < kept@.len() ==> (#[trigger] kept@[a]).0@ == old(self).strings@[idx[a]].0@,
                forall|a: int| 0 <= a < kept@.len() ==> (*(#[trigger] kept@[a]).1)@ == kept@[a].0@,
            decreases self.strings.len() - i,
        {
            if strong_count(&self.strings[i].1) > 1 {
                let entry = (self.strings[i].0.clone(), share(&self.strings[i].1));
                assert((*self.strings@[i as int].1)@ == self.strings@[i as int].0@);
                kept.push(entry);
                proof {
                    idx = idx.push(i as int);
                }
            }
            i = i + 1;
        }
        proof {
            assert forall|a: int, b: int| 0 <= a < b < kept@.len() implies #[trigger] kept@[a].0@
                != #[trigger] kept@[b].0@ by {
                assert(idx[a] < idx[b]);
                assert(old(self).strings@[idx[a]].0@ != old(self).strings@[idx[b]].0@);
            }
        }
        self.strings = kept;
        proof {
            assert forall|a: int| 0 <= a < self.interned().len() implies old(self).interned().contains(
                #[trigger] self.interned()[a],
            ) by {
                assert(self.interned()[a] == old(self).interned()[idx[a]]);
            }
            assert forall|a: int| 0 <= a < idx.len() implies 0 <= #[trigger] idx[a] < old(
                self,
            ).interned().len() && self.interned()[a] == old(self).interned()[idx[a]] by {
            }
        }
    }

    /// Forgets every string.
    pub fn clear(&mut self)
        ensures
            final(self).wf(),
            final(self).interned().len() == 0,
            final(self).hits() == old(self).hits(),
            final(self).misses() == old(self).misses(),
    {
        self.strings = Vec::new();
    }

    /// The number of distinct strings, hits and misses.
    pub fn get_counts(&self) -> (r: (usize, u64, u64))
        ensures
            r.0 == self.interned().len(),
            r.1 == self.hits(),
            r.2 == self.misses(),
    {
        (self.strings.len(), self.hit_count, self.miss_count)
    }
}


/// Memory use above this percentage of the limit is a warning.
pub const WARNING_PERCENT: usize = 80;

/// Milliseconds between two memory checks.
pub const CHECK_INTERVAL_MS: u64 = 30_000;

/// Buffers a monitor's pool keeps per capacity.
pub const MONITOR_POOL_SIZE: usize = 16;

/// Bytes counted for each shared string when memory use is estimated.
pub const STRING_ESTIMATE_BYTES: usize = 64;

/// Bytes in a megabyte.
pub const MIB: usize = 1_048_576;

/// The status of `usage` bytes against a limit of `limit` bytes: critical
/// above the limit, a warning above `WARNING_PERCENT` percent of it.
pub open spec fn status_for(usage: nat, limit: nat) -> MemoryStatus {
    if usage > limit {
        MemoryStatus::Critical
    } else if usage * 100 > limit * WARNING_PERCENT {
        MemoryStatus::Warning
    } else {
        MemoryStatus::Normal
    }
}

/// The status of `usage` bytes against a limit of `limit` bytes.
pub fn memory_status(usage: usize, limit: usize) -> (s: MemoryStatus)
    ensures
        s == status_for(usage as nat, limit as nat),
{
    if usage > limit {
        MemoryStatus::Critical
    } else if (usage as u128) * 100 > (limit as u128) * (WARNING_PERCENT as u128) {
        MemoryStatus::Warning
    } else {
        MemoryStatus::Normal
    }
}

/// `after` is `before` with every pool emptied.
pub open spec fn pool_emptied(before: MemoryPool, after: MemoryPool) -> bool {
    &&& after.wf()
    &&& after.allocated() == before.allocated()
    &&& after.deallocated() == before.deallocated()
    &&& after.peak() == before.peak()
    &&& after.max_pool_size_spec() == before.max_pool_size_spec()
    &&& after.sizes().len() == before.sizes().len()
    &&& forall|i: int|
        0 <= i < after.sizes().len() ==> #[trigger] after.sizes()[i] == (before.sizes()[i].0, 0nat)
}

/// `after` is `before` with every pool halved.
pub open spec fn pool_halved(before: MemoryPool, after: MemoryPool) -> bool {
    &&& after.wf()
    &&& after.allocated() == before.allocated()
    &&& after.deallocated() == before.deallocated()
    &&& after.peak() == before.peak()
    &&& after.max_pool_size_spec() == before.max_pool_size_spec()
    &&& after.sizes().len() == before.sizes().len()
    &&& forall|i: int|
        0 <= i < after.sizes().len() ==> #[trigger] after.sizes()[i] == (
            before.sizes()[i].0,
            before.sizes()[i].1 / 2,
        )
}

/// `after` keeps some of the strings of `before`, and its counts.
pub open spec fn interner_thinned(before: StringInterner, after: StringInterner) -> bool {
    &&& after.wf()
    &&& after.interned().len() <= before.interned().len()
    &&& forall|i: int|
        0 <= i < after.interned().len() ==> before.interned().contains(#[trigger] after.interned()[i])
    &&& after.hits() == before.hits()
    &&& after.misses() == before.misses()
}

/// `after` holds no string, and the counts of `before`.
pub open spec fn interner_emptied(before: StringInterner, after: StringInterner) -> bool {
    &&& after.wf()
    &&& after.interned().len() == 0
    &&& after.hits() == before.hits()
    &&& after.misses() == before.misses()
}

/// The memory report: the pool's counts in whole megabytes, its pool and
/// buffer counts, and the interner's counts with its hit rate as given.
pub open spec fn memory_report(
    allocated: nat,
    deallocated: nat,
    peak: nat,
    pool_count: nat,
    pooled: nat,
    strings: nat,
    hits: nat,
    misses: nat,
    hit_rate: Seq<char>,
) -> Seq<char> {
    "=== メモリ使用量レポート ===\nメモリプール:\n- 確保済み: "@ + decimal(allocated / MIB as nat)
        + "MB\n- 解放済み: "@ + decimal(deallocated / MIB as nat) + "MB\n- アクティブ: "@ + decimal(
        ((allocated - deallocated) as nat) / MIB as nat,
    ) + "MB\n- ピーク: "@ + decimal(peak / MIB as nat) + "MB\n- プール数: "@ + decimal(pool_count)
        + "\n- プールバッファ: "@ + decimal(pooled) + "\n\n文字列インターナー:\n- インターン済み文字列: "@
        + decimal(strings) + "\n- ヒット: "@ + decimal(hits) + "\n- ミス: "@ + decimal(misses)
        + "\n- ヒット率: "@ + hit_rate + "%"@
}

/// Watches memory use against a limit and frees kept buffers and strings
/// when it runs high.
pub struct MemoryMonitor {
    memory_pool: MemoryPool,
    string_interner: StringInterner,
    last_check_ms: u64,
    check_interval_ms: u64,
    memory_limit: usize,
}

impl MemoryMonitor {
    pub closed spec fn pool(&self) -> MemoryPool {
        self.memory_pool
    }

    pub closed spec fn interner(&self) -> StringInterner {
        self.string_interner
    }

    pub closed spec fn last_check(&self) -> u64 {
        self.last_check_ms
    }

    pub closed spec fn interval(&self) -> u64 {
        self.check_interval_ms
    }

    pub closed spec fn limit(&self) -> usize {
        self.memory_limit
    }

    pub open spec fn wf(&self) -> bool {
        self.pool().wf() && self.interner().wf()
    }

    /// Whether a check at `now_ms` is due: a full interval has passed since
    /// the last one (a clock that went back counts as no time passed).
    pub open spec fn due(&self, now_ms: u64) -> bool {
        now_ms >= self.last_check() && now_ms - self.last_check() >= self.interval()
    }

    /// A monitor with a limit of `memory_limit_mb` megabytes, an empty pool
    /// and interner, checked last at `now_ms`.
    pub fn new(memory_limit_mb: usize, now_ms: u64) -> (m: Self)
        requires
            memory_limit_mb * MIB <= usize::MAX,
        ensures
            m.wf(),
            m.pool().sizes().len() == 0,
            m.pool().allocated() == 0,
            m.pool().deallocated() == 0,
            m.pool().peak() == 0,
            m.pool().max_pool_size_spec() == MONITOR_POOL_SIZE,
            m.interner().interned().len() == 0,
            m.interner().hits() == 0,
            m.interner().misses() == 0,
            m.last_check() == now_ms,
            m.interval() == CHECK_INTERVAL_MS,
            m.limit() == memory_limit_mb * MIB,
    {
        MemoryMonitor {
            memory_pool: MemoryPool::new(MONITOR_POOL_SIZE),
            string_interner: StringInterner::new(),
            last_check_ms: now_ms,
            check_interval_ms: CHECK_INTERVAL_MS,
            memory_limit: memory_limit_mb * MIB,
        }
    }

    /// Whether a check at `now_ms` is due.
    pub fn due_for_check(&self, now_ms: u64) -> (b: bool)
        ensures
            b == self.due(now_ms),
    {
        now_ms >= self.last_check_ms && now_ms - self.last_check_ms >= self.check_interval_ms
    }

    /// Checks `current_usage` bytes, read at `now_ms`, against the limit.
    /// Before a check is due nothing changes and the answer is normal. When
    /// it is due, the check time moves to `now_ms`; above the limit the
    /// pools and the interner are emptied, above the warning level they are
    /// halved and thinned, and below it they stay as they are.
    pub fn check_memory_usage(&mut self, now_ms: u64, current_usage: usize) -> (s: MemoryStatus)
        requires
            old(self).wf(),
        ensures
            final(self).wf(),
            !old(self).due(now_ms) ==> s == MemoryStatus::Normal && *final(self) == *old(self),
            old(self).due(now_ms) ==> {
                &&& s == status_for(current_usage as nat, old(self).limit() as nat)
                &&& final(self).last_check() == now_ms
                &&& final(self).interval() == old(self).interval()
                &&& final(self).limit() == old(self).limit()
                &&& s == MemoryStatus::Critical ==> pool_emptied(old(self).pool(), final(self).pool())
                    && interner_emptied(old(self).interner(), final(self).interner())
                &&& s == MemoryStatus::Warning ==> pool_halved(old(self).pool(), final(self).pool())
                    && interner_thinned(old(self).interner(), final(self).interner())
                &&& s == MemoryStatus::Normal ==> final(self).pool() == old(self).pool()
                    && final(self).interner() == old(self).interner()
            },
    {
        if !self.due_for_check(now_ms) {
            return MemoryStatus::Normal;
        }
        self.last_check_ms = now_ms;
        let status = memory_status(current_usage, self.memory_limit);
        match status {
            MemoryStatus::Critical => self.emergency_cleanup(),
            MemoryStatus::Warning => self.perform_cleanup(),
            MemoryStatus::Normal => {},
        }
        status
    }

    /// Estimated bytes in use: the pool's outstanding allocation and
    /// `STRING_ESTIMATE_BYTES` for each shared string.
    pub fn estimate_memory_usage(&self) -> (r: usize)
        requires
            self.pool().deallocated() <= self.pool().allocated(),
            self.pool().allocated() - self.pool().deallocated() + self.interner().interned().len()
                * STRING_ESTIMATE_BYTES <= usize::MAX,
        ensures
            r == self.pool().allocated() - self.pool().deallocated() + self.interner().interned().len()
                * STRING_ESTIMATE_BYTES,
    {
        let active = self.memory_pool.total_allocated - self.memory_pool.total_deallocated;
        let (count, _, _) = self.string_interner.get_counts();
        active + count * STRING_ESTIMATE_BYTES
    }

    /// Halves the pools and forgets strings held nowhere else.
    fn perform_cleanup(&mut self)
        requires
            old(self).wf(),
        ensures
            pool_halved(old(self).pool(), final(self).pool()),
            interner_thinned(old(self).interner(), final(self).interner()),
            final(self).last_check() == old(self).last_check(),
            final(self).interval() == old(self).interval(),
            final(self).limit() == old(self).limit(),
    {
        self.memory_pool.cleanup();
        self.string_interner.cleanup();
    }

    /// Empties the pools and forgets every string.
    fn emergency_cleanup(&mut self)
        requires
            old(self).wf(),
        ensures
            pool_emptied(old(self).pool(), final(self).pool()),
            interner_emptied(old(self).interner(), final(self).interner()),
            final(self).last_check() == old(self).last_check(),
            final(self).interval() == old(self).interval(),
            final(self).limit() == old(self).limit(),
    {
        self.memory_pool.clear_all();
        self.string_interner.clear();
    }

    /// The memory report, with the interner's hit rate already written out
    /// as `hit_rate_text`.
    pub fn generate_memory_report(&self, hit_rate_text: &str) -> (r: String)
        requires
            self.pool().deallocated() <= self.pool().allocated(),
            total_buffers(self.pool().sizes()) <= usize::MAX,
        ensures
            r@ == memory_report(
                self.pool().allocated() as nat,
                self.pool().deallocated() as nat,
                self.pool().peak() as nat,
                self.pool().sizes().len(),
                total_buffers(self.pool().sizes()),
                self.interner().interned().len(),
                self.interner().hits() as nat,
                self.interner().misses() as nat,
                hit_rate_text@,
            ),
    {
        let stats = self.memory_pool.get_stats();
        let (strings, hits, misses) = self.string_interner.get_counts();
        let mut out = String::new();
        out.append("=== メモリ使用量レポート ===\nメモリプール:\n- 確保済み: ");
        push_decimal(&mut out, (stats.total_allocated / MIB) as u64);
        out.append("MB\n- 解放済み: ");
        push_decimal(&mut out, (stats.total_deallocated / MIB) as u64);
        out.append("MB\n- アクティブ: ");
        push_decimal(&mut out, (stats.active_allocation / MIB) as u64);
        out.append("MB\n- ピーク: ");
        push_decimal(&mut out, (stats.peak_usage / MIB) as u64);
        out.append("MB\n- プール数: ");
        push_decimal(&mut out, stats.pool_count as u64);
        out.append("\n- プールバッファ: ");
        push_decimal(&mut out, stats.pooled_buffers as u64);
        out.append("\n\n文字列インターナー:\n- インターン済み文字列: ");
        push_decimal(&mut out, strings as u64);
        out.append("\n- ヒット: ");
        push_decimal(&mut out, hits);
        out.append("\n- ミス: ");
        push_decimal(&mut out, misses);
        out.append("\n- ヒット率: ");
        out.append(hit_rate_text);
        out.append("%");
        out
    }

    /// The monitor's buffer pool.
    pub fn get_memory_pool(&self) -> (p: &MemoryPool)
        ensures
            *p == self.pool(),
    {
        &self.memory_pool
    }

    /// The monitor's string interner.
    pub fn get_string_interner(&self) -> (i: &StringInterner)
        ensures
            *i == self.interner(),
    {
        &self.string_interner
    }
}

} // verus!
