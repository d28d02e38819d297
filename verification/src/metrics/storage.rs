//! The decisions of metrics storage: which hourly files a time range reads,
//! which files are old enough to go, how the in-memory cache is trimmed and
//! what the storage statistics add up to. Reading and writing the files
//! happen outside.

use crate::assoc::{keys_distinct, pairs_view};
use crate::metrics::{StorageStats, TypeStats};
use crate::text::{has_prefix, parse_u64, parse_u64_spec, starts_with_str};
use vstd::prelude::*;

verus! {

/// Entries kept in a cache of metrics before it is trimmed.
pub const CACHE_LIMIT: usize = 1000;

/// The oldest entries dropped when a cache is trimmed.
pub const CACHE_DROPPED: usize = 500;

/// A cache after trimming: past `CACHE_LIMIT` entries its oldest
/// `CACHE_DROPPED` go.
pub open spec fn trimmed<T>(s: Seq<T>) -> Seq<T> {
    if s.len() > CACHE_LIMIT {
        s.skip(CACHE_DROPPED as int)
    } else {
        s
    }
}

/// Trims a cache of metrics.
pub fn trim_cache<T>(cache: &mut Vec<T>)
    ensures
        final(cache)@ == trimmed(old(cache)@),
{
    if cache.len() > CACHE_LIMIT {
        let kept = cache.split_off(CACHE_DROPPED);
        *cache = kept;
    }
}

/// A cache that is trimmed after each entry added never holds more than
/// `CACHE_LIMIT` entries, and keeps the newest one.
pub proof fn cache_stays_bounded<T>(s: Seq<T>, x: T)
    requires
        s.len() <= CACHE_LIMIT,
    ensures
        trimmed(s.push(x)).len() <= CACHE_LIMIT,
        trimmed(s.push(x)).last() == x,
{
}

/// Whether `s` ends with `suffix`, as `str::ends_with` tells.
pub open spec fn has_suffix(s: Seq<char>, suffix: Seq<char>) -> bool {
    suffix.len() <= s.len() && s.skip(s.len() - suffix.len()) == suffix
}

/// The timestamp in the name of a metrics file, `metrics_<timestamp>.json`.
pub open spec fn file_timestamp_of(name: Seq<char>) -> Option<u64> {
    let p = "metrics_"@;
    let x = ".json"@;
    if has_prefix(name, p) && has_suffix(name.skip(p.len() as int), x) {
        parse_u64_spec(name.subrange(p.len() as int, name.len() - x.len()))
    } else {
        None
    }
}

/// The timestamp in the name of a metrics file, when it has one.
pub fn file_timestamp(name: &str) -> (r: Option<u64>)
    ensures
        r == file_timestamp_of(name@),
{
    let prefix = "metrics_";
    let suffix = ".json";
    let n = name.unicode_len();
    let p = prefix.unicode_len();
    let x = suffix.unicode_len();
    if !starts_with_str(name, prefix) {
        return None;
    }
    let rest = name.substring_char(p, n);
    assert(rest@ =~= name@.skip(p as int));
    if x > n - p {
        return None;
    }
    let tail = rest.substring_char(n - p - x, n - p);
    assert(tail@ =~= rest@.skip(rest@.len() - x));
    if !crate::text::eq_str(&String::from_str(tail), suffix) {
        return None;
    }
    let middle = name.substring_char(p, n - x);
    parse_u64(middle)
}

/// The oldest timestamp kept when files older than `retention_hours` go.
pub open spec fn cutoff_for(now: u64, retention_hours: u64) -> u64 {
    if now >= retention_hours * 3600 {
        (now - retention_hours * 3600) as u64
    } else {
        0
    }
}

/// The oldest timestamp kept when files older than `retention_hours` go.
pub fn cleanup_cutoff(now: u64, retention_hours: u64) -> (c: u64)
    requires
        retention_hours * 3600 <= u64::MAX,
    ensures
        c == cutoff_for(now, retention_hours),
{
    now.saturating_sub(retention_hours * 3600)
}

/// Whether a file goes at clean-up: its name carries a timestamp before the
/// cutoff.
pub fn should_remove(name: &str, cutoff: u64) -> (b: bool)
    ensures
        b == (file_timestamp_of(name@) matches Some(t) && t < cutoff),
{
    match file_timestamp(name) {
        Some(t) => t < cutoff,
        None => false,
    }
}

/// The hours, as timestamps of their start, from the hour of `start` to the
/// hour of `end`.
pub open spec fn hours_between(start: u64, end: u64) -> Seq<u64> {
    let first = start / 3600;
    let last = end / 3600;
    if first <= last {
        Seq::new((last - first + 1) as nat, |k: int| ((first + k) * 3600) as u64)
    } else {
        Seq::empty()
    }
}

/// The hourly files' timestamps that a time range reads.
pub fn hourly_timestamps(start: u64, end: u64) -> (r: Vec<u64>)
    ensures
        r@ == hours_between(start, end),
{
    let first = start / 3600;
    let last = end / 3600;
    let mut r: Vec<u64> = Vec::new();
    if first > last {
        return r;
    }
    let mut h = first;
    while h <= last
        invariant
            first <= h <= last + 1,
            last == end / 3600,
            first == start / 3600,
            r@.len() == h - first,
            forall|k: int| 0 <= k < r@.len() ==> r@[k] == ((first + k) * 3600) as u64,
        decreases last + 1 - h,
    {
        assert(h * 3600 <= u64::MAX) by (nonlinear_arith)
            requires
                h <= last,
                last == end / 3600,
        ;
        r.push(h * 3600);
        h = h + 1;
    }
    assert(r@ =~= hours_between(start, end));
    r
}

/// Whether a stored timestamp falls in the range, both ends included.
pub fn in_time_range(timestamp: u64, start: u64, end: u64) -> (b: bool)
    ensures
        b == (start <= timestamp <= end),
{
    timestamp >= start && timestamp <= end
}

/// The sizes of the files, summed.
pub open spec fn size_sum(s: Seq<u64>) -> nat
    decreases s.len(),
{
    if s.len() == 0 {
        0
    } else {
        size_sum(s.drop_last()) + s.last() as nat
    }
}

/// The files of each kind, summed over the kinds.
pub open spec fn file_total(kinds: Seq<(String, Vec<u64>)>) -> nat
    decreases kinds.len(),
{
    if kinds.len() == 0 {
        0
    } else {
        file_total(kinds.drop_last()) + kinds.last().1@.len()
    }
}

/// The sizes of each kind's files, summed over the kinds.
pub open spec fn byte_total(kinds: Seq<(String, Vec<u64>)>) -> nat
    decreases kinds.len(),
{
    if kinds.len() == 0 {
        0
    } else {
        byte_total(kinds.drop_last()) + size_sum(kinds.last().1@)
    }
}

proof fn lemma_size_prefix(s: Seq<u64>, k: int)
    requires
        0 <= k <= s.len(),
    ensures
        size_sum(s.take(k)) <= size_sum(s),
    decreases s.len(),
{
    if k < s.len() {
        lemma_size_prefix(s.drop_last(), k);
        assert(s.drop_last().take(k) =~= s.take(k));
    } else {
        assert(s.take(k) =~= s);
    }
}

proof fn lemma_totals_prefix(s: Seq<(String, Vec<u64>)>, k: int)
    requires
        0 <= k <= s.len(),
    ensures
        file_total(s.take(k)) <= file_total(s),
        byte_total(s.take(k)) <= byte_total(s),
    decreases s.len(),
{
    if k < s.len() {
        lemma_totals_prefix(s.drop_last(), k);
        assert(s.drop_last().take(k) =~= s.take(k));
    } else {
        assert(s.take(k) =~= s);
    }
}

/// The file count and the summed size of one kind's files.
pub fn type_stats(sizes: &Vec<u64>) -> (r: TypeStats)
    requires
        size_sum(sizes@) <= u64::MAX,
    ensures
        r.file_count == sizes@.len(),
        r.total_size == size_sum(sizes@),
{
    let mut total: u64 = 0;
    let mut i: usize = 0;
    while i < sizes.len()
        invariant
            0 <= i <= sizes@.len(),
            size_sum(sizes@) <= u64::MAX,
            total == size_sum(sizes@.take(i as int)),
        decreases sizes.len() - i,
    {
        assert(sizes@.take(i + 1).drop_last() =~= sizes@.take(i as int));
        proof {
            lemma_size_prefix(sizes@, i + 1);
        }
        total = total + sizes[i];
        i = i + 1;
    }
    assert(sizes@.take(i as int) =~= sizes@);
    TypeStats { file_count: sizes.len() as u64, total_size: total }
}

/// The storage statistics from the sizes of the files of each kind (the
/// kinds distinct) and the estimated cache size: the files and bytes per
/// kind and in all.
pub fn storage_stats(kinds: &Vec<(String, Vec<u64>)>, cache_size: usize) -> (r: StorageStats)
    requires
        keys_distinct(pairs_view(kinds@)),
        file_total(kinds@) <= u64::MAX,
        byte_total(kinds@) <= u64::MAX,
    ensures
        r.total_files == file_total(kinds@),
        r.total_size == byte_total(kinds@),
        r.cache_size == cache_size,
        r.metrics_by_type@.len() == kinds@.len(),
        forall|i: int|
            0 <= i < kinds@.len() ==> {
                &&& (#[trigger] r.metrics_by_type@[i]).0@ == kinds@[i].0@
                &&& r.metrics_by_type@[i].1.file_count == kinds@[i].1@.len()
                &&& r.metrics_by_type@[i].1.total_size == size_sum(kinds@[i].1@)
            },
{
    let mut by_type: Vec<(String, TypeStats)> = Vec::new();
    let mut files: u64 = 0;
    let mut bytes: u64 = 0;
    let mut i: usize = 0;
    while i < kinds.len()
        invariant
            0 <= i <= kinds@.len(),
            file_total(kinds@) <= u64::MAX,
            byte_total(kinds@) <= u64::MAX,
            files == file_total(kinds@.take(i as int)),
            bytes == byte_total(kinds@.take(i as int)),
            by_type@.len() == i,
            forall|j: int|
                0 <= j < i ==> {
                    &&& (#[trigger] by_type@[j]).0@ == kinds@[j].0@
                    &&& by_type@[j].1.file_count == kinds@[j].1@.len()
                    &&& by_type@[j].1.total_size == size_sum(kinds@[j].1@)
                },
        decreases kinds.len() - i,
    {
        let ghost t = kinds@.take(i + 1);
        assert(t.drop_last() =~= kinds@.take(i as int));
        assert(t.last() == kinds@[i as int]);
        proof {
            lemma_totals_prefix(kinds@, i + 1);
            lemma_size_prefix(kinds@[i as int].1@, kinds@[i as int].1@.len() as int);
            assert(kinds@[i as int].1@.take(kinds@[i as int].1@.len() as int) =~= kinds@[i as int].1@);
        }
        let stats = type_stats(&kinds[i].1);
        let ghost before = by_type@;
        by_type.push((kinds[i].0.clone(), stats));
        assert(by_type@ == before.push(by_type@.last()));
        files = files + stats.file_count;
        bytes = bytes + stats.total_size;
        i = i + 1;
    }
    assert(kinds@.take(i as int) =~= kinds@);
    StorageStats { total_files: files, total_size: bytes, metrics_by_type: by_type, cache_size }
}

} // verus!
