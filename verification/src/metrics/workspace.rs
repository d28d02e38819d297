//! The whole-number figures of workspaces and of the framework, gathered
//! from per-process samples: process counts by state, memory, the latest
//! activity, and the latest sample of each process. CPU averages and health
//! scores, which are floating-point, are added outside.

use crate::assoc::{find_key, keys_distinct, lookup, pairs_view, set_value};
use crate::dashboard::UpdateScope;
use crate::metrics::{ProcessStatus, SystemHealthStatus};
use crate::text::strings_view;
use vstd::prelude::*;

verus! {

/// What the workspace figures read of one process's metrics.
pub struct ProcessSample {
    pub process_id: String,
    pub workspace: String,
    pub status: ProcessStatus,
    /// Memory in use, in bytes
    pub memory_usage: u64,
    /// Last activity, in seconds since the epoch
    pub last_activity: u64,
}

impl Clone for ProcessSample {
    fn clone(&self) -> (r: Self)
        ensures
            r == *self,
    {
        ProcessSample {
            process_id: self.process_id.clone(),
            workspace: self.workspace.clone(),
            status: self.status,
            memory_usage: self.memory_usage,
            last_activity: self.last_activity,
        }
    }
}

/// Whether a process in this state counts as running: running, idle or busy.
pub open spec fn counts_as_running(s: ProcessStatus) -> bool {
    s == ProcessStatus::Running || s == ProcessStatus::Idle || s == ProcessStatus::Busy
}

/// The number of samples whose process counts as running.
pub open spec fn running_count(s: Seq<ProcessSample>) -> nat
    decreases s.len(),
{
    if s.len() == 0 {
        0
    } else {
        running_count(s.drop_last()) + if counts_as_running(s.last().status) {
            1nat
        } else {
            0nat
        }
    }
}

/// The number of samples whose process has failed.
pub open spec fn failed_count(s: Seq<ProcessSample>) -> nat
    decreases s.len(),
{
    if s.len() == 0 {
        0
    } else {
        failed_count(s.drop_last()) + if s.last().status == ProcessStatus::Failed {
            1nat
        } else {
            0nat
        }
    }
}

/// The memory of the samples, summed.
pub open spec fn memory_sum(s: Seq<ProcessSample>) -> nat
    decreases s.len(),
{
    if s.len() == 0 {
        0
    } else {
        memory_sum(s.drop_last()) + s.last().memory_usage as nat
    }
}

/// The latest activity among the samples; 0 for none.
pub open spec fn latest_activity(s: Seq<ProcessSample>) -> u64
    decreases s.len(),
{
    if s.len() == 0 {
        0
    } else if s.last().last_activity > latest_activity(s.drop_last()) {
        s.last().last_activity
    } else {
        latest_activity(s.drop_last())
    }
}

/// The last sample of the process named `id`.
pub open spec fn last_sample_of(s: Seq<ProcessSample>, id: Seq<char>) -> Option<ProcessSample>
    decreases s.len(),
{
    if s.len() == 0 {
        None
    } else if s.last().process_id@ == id {
        Some(s.last())
    } else {
        last_sample_of(s.drop_last(), id)
    }
}

proof fn lemma_counts_bounded(s: Seq<ProcessSample>)
    ensures
        running_count(s) <= s.len(),
        failed_count(s) <= s.len(),
    decreases s.len(),
{
    if s.len() > 0 {
        lemma_counts_bounded(s.drop_last());
    }
}

proof fn lemma_memory_prefix(s: Seq<ProcessSample>, k: int)
    requires
        0 <= k <= s.len(),
    ensures
        memory_sum(s.take(k)) <= memory_sum(s),
    decreases s.len(),
{
    if k < s.len() {
        lemma_memory_prefix(s.drop_last(), k);
        assert(s.drop_last().take(k) =~= s.take(k));
    } else {
        assert(s.take(k) =~= s);
    }
}

/// The whole-number figures of a workspace.
pub struct WorkspaceMetrics {
    pub workspace_name: String,
    /// When the figures were gathered, in seconds since the epoch
    pub timestamp: u64,
    pub total_processes: u32,
    pub running_processes: u32,
    pub failed_processes: u32,
    /// Memory of all its processes, in bytes
    pub total_memory_usage: u64,
    /// Latest activity of its processes, in seconds since the epoch
    pub last_activity: u64,
    /// The latest sample of each process; no process occurs twice
    pub processes: Vec<(String, ProcessSample)>,
}

impl WorkspaceMetrics {
    /// Figures of a workspace with no process yet, gathered at `now`.
    pub fn new(workspace_name: String, now: u64) -> (m: Self)
        ensures
            m.workspace_name == workspace_name,
            m.timestamp == now,
            m.total_processes == 0,
            m.running_processes == 0,
            m.failed_processes == 0,
            m.total_memory_usage == 0,
            m.last_activity == now,
            m.processes@.len() == 0,
    {
        WorkspaceMetrics {
            workspace_name,
            timestamp: now,
            total_processes: 0,
            running_processes: 0,
            failed_processes: 0,
            total_memory_usage: 0,
            last_activity: now,
            processes: Vec::new(),
        }
    }

    /// Recomputes the figures from `samples`, gathered at `now`: the counts,
    /// the memory and the latest activity are those of the samples; each
    /// sample replaces the one kept for its process, the last one winning,
    /// and processes without a sample keep theirs.
    pub fn update_from_processes(&mut self, samples: &Vec<ProcessSample>, now: u64)
        requires
            keys_distinct(pairs_view(old(self).processes@)),
            samples@.len() <= u32::MAX,
            memory_sum(samples@) <= u64::MAX,
        ensures
            final(self).workspace_name == old(self).workspace_name,
            final(self).timestamp == now,
            final(self).total_processes == samples@.len(),
            final(self).running_processes == running_count(samples@),
            final(self).failed_processes == failed_count(samples@),
            final(self).total_memory_usage == memory_sum(samples@),
            final(self).last_activity == latest_activity(samples@),
            keys_distinct(pairs_view(final(self).processes@)),
            forall|id: Seq<char>|
                #[trigger] lookup(pairs_view(final(self).processes@), id) == match last_sample_of(
                    samples@,
                    id,
                ) {
                    Some(s) => Some(s),
                    None => lookup(pairs_view(old(self).processes@), id),
                },
    {
        self.timestamp = now;
        self.total_processes = samples.len() as u32;
        self.running_processes = 0;
        self.failed_processes = 0;
        self.total_memory_usage = 0;
        let mut latest: u64 = 0;
        let mut i: usize = 0;
        proof {
            lemma_counts_bounded(samples@);
        }
        while i < samples.len()
            invariant
                0 <= i <= samples@.len(),
                samples@.len() <= u32::MAX,
                memory_sum(samples@) <= u64::MAX,
                self.workspace_name == old(self).workspace_name,
                self.timestamp == now,
                self.total_processes == samples@.len(),
                self.running_processes == running_count(samples@.take(i as int)),
                self.failed_processes == failed_count(samples@.take(i as int)),
                self.total_memory_usage == memory_sum(samples@.take(i as int)),
                latest == latest_activity(samples@.take(i as int)),
                keys_distinct(pairs_view(self.processes@)),
                forall|id: Seq<char>|
                    #[trigger] lookup(pairs_view(self.processes@), id) == match last_sample_of(
                        samples@.take(i as int),
                        id,
                    ) {
                        Some(s) => Some(s),
                        None => lookup(pairs_view(old(self).processes@), id),
                    },
            decreases samples.len() - i,
        {
            let ghost t = samples@.take(i + 1);
            assert(t.drop_last() =~= samples@.take(i as int));
            assert(t.last() == samples@[i as int]);
            proof {
                lemma_counts_bounded(t);
                lemma_memory_prefix(samples@, i + 1);
            }
            let sample = samples[i].clone();
            if counts_running(sample.status) {
                self.running_processes = self.running_processes + 1;
            } else if sample.status == ProcessStatus::Failed {
                self.failed_processes = self.failed_processes + 1;
            }
            self.total_memory_usage = self.total_memory_usage + sample.memory_usage;
            if sample.last_activity > latest {
                latest = sample.last_activity;
            }
            let key = sample.process_id.clone();
            let ghost kv = key@;
            let ghost before = pairs_view(self.processes@);
            set_value(&mut self.processes, key, sample);
            assert forall|id: Seq<char>|
                #[trigger] lookup(pairs_view(self.processes@), id) == match last_sample_of(t, id) {
                    Some(s) => Some(s),
                    None => lookup(pairs_view(old(self).processes@), id),
                } by {
                if id != kv {
                    assert(lookup(pairs_view(self.processes@), id) == lookup(before, id));
                }
            }
            i = i + 1;
        }
        assert(samples@.take(i as int) =~= samples@);
        self.last_activity = latest;
    }
}

/// Whether a process in this state counts as running.
fn counts_running(s: ProcessStatus) -> (b: bool)
    ensures
        b == counts_as_running(s),
{
    match s {
        ProcessStatus::Running | ProcessStatus::Idle | ProcessStatus::Busy => true,
        _ => false,
    }
}

/// The processes of the workspaces, summed.
pub open spec fn process_sum(list: Seq<WorkspaceMetrics>) -> nat
    decreases list.len(),
{
    if list.len() == 0 {
        0
    } else {
        process_sum(list.drop_last()) + list.last().total_processes as nat
    }
}

/// The last figures of the workspace named `name`.
pub open spec fn last_workspace_of(list: Seq<WorkspaceMetrics>, name: Seq<char>) -> Option<WorkspaceMetrics>
    decreases list.len(),
{
    if list.len() == 0 {
        None
    } else if list.last().workspace_name@ == name {
        Some(list.last())
    } else {
        last_workspace_of(list.drop_last(), name)
    }
}

proof fn lemma_process_sum_prefix(s: Seq<WorkspaceMetrics>, k: int)
    requires
        0 <= k <= s.len(),
    ensures
        process_sum(s.take(k)) <= process_sum(s),
    decreases s.len(),
{
    if k < s.len() {
        lemma_process_sum_prefix(s.drop_last(), k);
        assert(s.drop_last().take(k) =~= s.take(k));
    } else {
        assert(s.take(k) =~= s);
    }
}

/// The whole-number figures of the framework.
pub struct FrameworkMetrics {
    /// When the figures were gathered, in seconds since the epoch
    pub timestamp: u64,
    /// The figures of each workspace; no workspace occurs twice
    pub workspaces: Vec<(String, WorkspaceMetrics)>,
    pub total_processes: u32,
    pub total_workspaces: u32,
    /// Seconds the framework has run
    pub framework_uptime: u64,
    pub overall_status: SystemHealthStatus,
}

impl FrameworkMetrics {
    /// Figures of a framework that is starting, with no workspace, gathered
    /// at `now`.
    pub fn new(now: u64) -> (m: Self)
        ensures
            m.timestamp == now,
            m.workspaces@.len() == 0,
            m.total_processes == 0,
            m.total_workspaces == 0,
            m.framework_uptime == 0,
            m.overall_status == SystemHealthStatus::Starting,
    {
        FrameworkMetrics {
            timestamp: now,
            workspaces: Vec::new(),
            total_processes: 0,
            total_workspaces: 0,
            framework_uptime: 0,
            overall_status: SystemHealthStatus::Starting,
        }
    }

    /// Recomputes the figures from the workspaces' figures, gathered at
    /// `now`: the workspace count and the sum of their processes; each
    /// workspace's figures replace those kept under its name, the last ones
    /// winning. With no workspace the framework is healthy; otherwise its
    /// status, which rests on the workspaces' health scores, is left to be
    /// set from them.
    pub fn update_from_workspaces(&mut self, list: Vec<WorkspaceMetrics>, now: u64)
        requires
            keys_distinct(pairs_view(old(self).workspaces@)),
            list@.len() <= u32::MAX,
            process_sum(list@) <= u32::MAX,
        ensures
            final(self).timestamp == now,
            final(self).total_workspaces == list@.len(),
            final(self).total_processes == process_sum(list@),
            final(self).framework_uptime == old(self).framework_uptime,
            list@.len() == 0 ==> final(self).overall_status == SystemHealthStatus::Healthy,
            list@.len() > 0 ==> final(self).overall_status == old(self).overall_status,
            keys_distinct(pairs_view(final(self).workspaces@)),
            forall|name: Seq<char>|
                #[trigger] lookup(pairs_view(final(self).workspaces@), name) == match last_workspace_of(
                    list@,
                    name,
                ) {
                    Some(w) => Some(w),
                    None => lookup(pairs_view(old(self).workspaces@), name),
                },
    {
        let ghost all = list@;
        let n = list.len();
        self.timestamp = now;
        self.total_workspaces = n as u32;
        self.total_processes = 0;
        if n == 0 {
            self.overall_status = SystemHealthStatus::Healthy;
        }
        let mut rest = list;
        let mut i: usize = 0;
        assert(all.skip(0) =~= all);
        while i < n
            invariant
                n == all.len(),
                0 <= i <= n,
                rest@ == all.skip(i as int),
                process_sum(all) <= u32::MAX,
                self.timestamp == now,
                self.total_workspaces == n,
                self.framework_uptime == old(self).framework_uptime,
                n == 0 ==> self.overall_status == SystemHealthStatus::Healthy,
                n > 0 ==> self.overall_status == old(self).overall_status,
                self.total_processes == process_sum(all.take(i as int)),
                keys_distinct(pairs_view(self.workspaces@)),
                forall|name: Seq<char>|
                    #[trigger] lookup(pairs_view(self.workspaces@), name) == match last_workspace_of(
                        all.take(i as int),
                        name,
                    ) {
                        Some(w) => Some(w),
                        None => lookup(pairs_view(old(self).workspaces@), name),
                    },
            decreases n - i,
        {
            let ghost t = all.take(i + 1);
            assert(t.drop_last() =~= all.take(i as int));
            assert(rest@[0] == all[i as int]);
            assert(t.last() == all[i as int]);
            proof {
                lemma_process_sum_prefix(all, i + 1);
            }
            let w = rest.remove(0);
            assert(rest@ =~= all.skip(i + 1));
            self.total_processes = self.total_processes + w.total_processes;
            let key = w.workspace_name.clone();
            let ghost kv = key@;
            let ghost before = pairs_view(self.workspaces@);
            set_value(&mut self.workspaces, key, w);
            assert forall|name: Seq<char>|
                #[trigger] lookup(pairs_view(self.workspaces@), name) == match last_workspace_of(t, name) {
                    Some(w) => Some(w),
                    None => lookup(pairs_view(old(self).workspaces@), name),
                } by {
                if name != kv {
                    assert(lookup(pairs_view(self.workspaces@), name) == lookup(before, name));
                }
            }
            i = i + 1;
        }
        assert(all.take(i as int) =~= all);
    }
}

/// The samples of the workspace named `workspace`, in order.
pub open spec fn in_workspace(s: Seq<ProcessSample>, workspace: Seq<char>) -> Seq<ProcessSample>
    decreases s.len(),
{
    if s.len() == 0 {
        Seq::empty()
    } else if s.last().workspace@ == workspace {
        in_workspace(s.drop_last(), workspace).push(s.last())
    } else {
        in_workspace(s.drop_last(), workspace)
    }
}

/// Whether some group is named `w`.
pub open spec fn has_group(groups: Seq<(String, Vec<ProcessSample>)>, w: Seq<char>) -> bool {
    exists|g: int| 0 <= g < groups.len() && #[trigger] groups[g].0@ == w
}

/// Groups the samples by workspace: one group per workspace that some
/// sample names, holding that workspace's samples in order.
pub fn group_by_workspace(samples: &Vec<ProcessSample>) -> (r: Vec<(String, Vec<ProcessSample>)>)
    ensures
        keys_distinct(pairs_view(r@)),
        forall|g: int|
            0 <= g < r@.len() ==> (#[trigger] r@[g]).1@ == in_workspace(samples@, r@[g].0@) && r@[g].1@.len()
                > 0,
        forall|j: int| 0 <= j < samples@.len() ==> has_group(r@, (#[trigger] samples@[j]).workspace@),
{
    let mut groups: Vec<(String, Vec<ProcessSample>)> = Vec::new();
    let mut i: usize = 0;
    while i < samples.len()
        invariant
            0 <= i <= samples@.len(),
            keys_distinct(pairs_view(groups@)),
            forall|g: int|
                0 <= g < groups@.len() ==> (#[trigger] groups@[g]).1@ == in_workspace(
                    samples@.take(i as int),
                    groups@[g].0@,
                ) && groups@[g].1@.len() > 0,
            forall|j: int| 0 <= j < i ==> has_group(groups@, (#[trigger] samples@[j]).workspace@),
            forall|w: Seq<char>|
                (forall|g: int| 0 <= g < groups@.len() ==> #[trigger] groups@[g].0@ != w) ==> #[trigger] in_workspace(
                    samples@.take(i as int),
                    w,
                ).len() == 0,
        decreases samples.len() - i,
    {
        let ghost t = samples@.take(i + 1);
        assert(t.drop_last() =~= samples@.take(i as int));
        assert(t.last() == samples@[i as int]);
        let sample = samples[i].clone();
        let ghost ws = sample.workspace@;
        let ghost old_groups = groups@;
        match find_key(&groups, sample.workspace.as_str()) {
            Some(k) => {
                let (name, mut members) = groups.remove(k);
                members.push(sample);
                groups.insert(k, (name, members));
                proof {
                    assert forall|a: int| 0 <= a < groups@.len() implies #[trigger] groups@[a].0@ == old_groups[a].0@ by {
                        if a != k {
                            assert(groups@[a] == old_groups[a]);
                        }
                    }
                    assert(keys_distinct(pairs_view(groups@))) by {
                        assert forall|a: int, b: int| 0 <= a < b < pairs_view(groups@).len() implies #[trigger] pairs_view(groups@)[a].0
                            != #[trigger] pairs_view(groups@)[b].0 by {
                            assert(pairs_view(old_groups)[a].0 != pairs_view(old_groups)[b].0);
                        }
                    }
                    assert forall|g: int| 0 <= g < groups@.len() implies (#[trigger] groups@[g]).1@ == in_workspace(
                        t,
                        groups@[g].0@,
                    ) && groups@[g].1@.len() > 0 by {
                        if g != k {
                            assert(groups@[g] == old_groups[g]);
                            assert(old_groups[g].0@ != ws) by {
                                assert(pairs_view(old_groups)[g].0 != pairs_view(old_groups)[k as int].0);
                            }
                        } else {
                            assert(groups@[g].1@ =~= old_groups[g].1@.push(samples@[i as int]));
                        }
                    }
                    assert forall|j: int| 0 <= j < i + 1 implies has_group(groups@, (#[trigger] samples@[j]).workspace@) by {
                        if j < i {
                            let g = choose|g: int|
                                0 <= g < old_groups.len() && #[trigger] old_groups[g].0@ == samples@[j].workspace@;
                            assert(groups@[g].0@ == old_groups[g].0@);
                        } else {
                            assert(groups@[k as int].0@ == ws);
                        }
                    }
                    assert forall|w: Seq<char>|
                        (forall|g: int| 0 <= g < groups@.len() ==> #[trigger] groups@[g].0@ != w) implies #[trigger] in_workspace(
                        t,
                        w,
                    ).len() == 0 by {
                        assert forall|g: int| 0 <= g < old_groups.len() implies #[trigger] old_groups[g].0@ != w by {
                            assert(groups@[g].0@ == old_groups[g].0@);
                        }
                        assert(groups@[k as int].0@ != w);
                        assert(in_workspace(samples@.take(i as int), w).len() == 0);
                        assert(in_workspace(t, w) == in_workspace(samples@.take(i as int), w));
                    }
                }
            },
            None => {
                let name = sample.workspace.clone();
                let mut members: Vec<ProcessSample> = Vec::new();
                members.push(sample);
                groups.push((name, members));
                proof {
                    assert(groups@ == old_groups.push(groups@.last()));
                    assert(in_workspace(samples@.take(i as int), ws).len() == 0) by {
                        assert forall|g: int| 0 <= g < old_groups.len() implies #[trigger] old_groups[g].0@ != ws by {
                            assert(pairs_view(old_groups)[g].0 == old_groups[g].0@);
                        }
                    }
                    assert(keys_distinct(pairs_view(groups@))) by {
                        assert forall|a: int, b: int| 0 <= a < b < pairs_view(groups@).len() implies #[trigger] pairs_view(groups@)[a].0
                            != #[trigger] pairs_view(groups@)[b].0 by {
                            if b == groups@.len() - 1 {
                                assert(pairs_view(groups@)[a].0 == old_groups[a].0@);
                                assert(pairs_view(old_groups)[a].0 == old_groups[a].0@);
                            } else {
                                assert(pairs_view(groups@)[a] == pairs_view(old_groups)[a]);
                                assert(pairs_view(groups@)[b] == pairs_view(old_groups)[b]);
                            }
                        }
                    }
                    assert forall|g: int| 0 <= g < groups@.len() implies (#[trigger] groups@[g]).1@ == in_workspace(
                        t,
                        groups@[g].0@,
                    ) && groups@[g].1@.len() > 0 by {
                        if g < old_groups.len() {
                            assert(groups@[g] == old_groups[g]);
                            assert(old_groups[g].0@ != ws) by {
                                assert(pairs_view(old_groups)[g].0 == old_groups[g].0@);
                            }
                        } else {
                            assert(groups@[g].1@ =~= Seq::<ProcessSample>::empty().push(samples@[i as int]));
                            assert(in_workspace(samples@.take(i as int), ws) =~= Seq::<ProcessSample>::empty());
                        }
                    }
                    assert forall|j: int| 0 <= j < i + 1 implies has_group(groups@, (#[trigger] samples@[j]).workspace@) by {
                        if j < i {
                            let g = choose|g: int|
                                0 <= g < old_groups.len() && #[trigger] old_groups[g].0@ == samples@[j].workspace@;
                            assert(groups@[g] == old_groups[g]);
                        } else {
                            assert(groups@[old_groups.len() as int].0@ == ws);
                        }
                    }
                    assert forall|w: Seq<char>|
                        (forall|g: int| 0 <= g < groups@.len() ==> #[trigger] groups@[g].0@ != w) implies #[trigger] in_workspace(
                        t,
                        w,
                    ).len() == 0 by {
                        assert forall|g: int| 0 <= g < old_groups.len() implies #[trigger] old_groups[g].0@ != w by {
                            assert(groups@[g] == old_groups[g]);
                        }
                        assert(groups@[old_groups.len() as int].0@ != w);
                        assert(in_workspace(samples@.take(i as int), w).len() == 0);
                        assert(in_workspace(t, w) == in_workspace(samples@.take(i as int), w));
                    }
                }
            },
        }
        i = i + 1;
    }
    assert(samples@.take(i as int) =~= samples@);
    groups
}

/// The samples kept after one more: the newest `max_points` of them.
pub open spec fn kept_history(s: Seq<ProcessSample>, max_points: nat) -> Seq<ProcessSample> {
    if s.len() > max_points {
        s.skip(s.len() - max_points)
    } else {
        s
    }
}

/// A process's history holds the newest `max_points` samples, or all of
/// them while there are fewer, and ends with the newest one.
pub proof fn history_stays_bounded(s: Seq<ProcessSample>, x: ProcessSample, max_points: nat)
    ensures
        kept_history(s.push(x), max_points).len() == if s.len() + 1 > max_points {
            max_points
        } else {
            s.len() + 1
        },
        max_points > 0 ==> kept_history(s.push(x), max_points).last() == x,
{
}

/// Adds a sample to the history of its process, keeping the newest
/// `max_points` samples of that process; other histories stay as they are.
pub fn record_sample(history: &mut Vec<(String, Vec<ProcessSample>)>, sample: ProcessSample, max_points: usize)
    requires
        keys_distinct(pairs_view(old(history)@)),
    ensures
        keys_distinct(pairs_view(final(history)@)),
        match lookup(pairs_view(final(history)@), sample.process_id@) {
            Some(v) => v@ == kept_history(
                match lookup(pairs_view(old(history)@), sample.process_id@) {
                    Some(o) => o@,
                    None => Seq::empty(),
                }.push(sample),
                max_points as nat,
            ),
            None => false,
        },
        forall|k: Seq<char>|
            k != sample.process_id@ ==> #[trigger] lookup(pairs_view(final(history)@), k) == lookup(
                pairs_view(old(history)@),
                k,
            ),
{
    let ghost before = pairs_view(history@);
    let key = sample.process_id.clone();
    let ghost kv = key@;
    let mut samples: Vec<ProcessSample> = match find_key(history, key.as_str()) {
        Some(k) => {
            proof {
                crate::assoc::lemma_lookup_at(before, k as int);
            }
            let (_, v) = history.remove(k);
            history.insert(k, (key.clone(), Vec::new()));
            proof {
                let placeholder = history@[k as int].1;
                assert(pairs_view(history@) =~= before.update(k as int, (before[k as int].0, placeholder)));
                crate::assoc::lemma_lookup_update(before, k as int, placeholder);
            }
            v
        },
        None => {
            proof {
                crate::assoc::lemma_lookup_absent(before, kv);
            }
            Vec::new()
        },
    };
    let ghost mid = pairs_view(history@);
    assert(keys_distinct(mid));
    assert(forall|k: Seq<char>| k != kv ==> #[trigger] lookup(mid, k) == lookup(before, k));
    let ghost prior = samples@;
    assert(prior == match lookup(before, kv) {
        Some(o) => o@,
        None => Seq::<ProcessSample>::empty(),
    });
    samples.push(sample);
    let ghost grown = samples@;
    assert(grown == prior.push(grown.last()));
    if samples.len() > max_points {
        let drop = samples.len() - max_points;
        samples = split_tail(samples, drop);
    }
    assert(samples@ == kept_history(grown, max_points as nat));
    set_value(history, key, samples);
    assert forall|k: Seq<char>| k != kv implies #[trigger] lookup(pairs_view(history@), k) == lookup(
        before,
        k,
    ) by {
        assert(lookup(pairs_view(history@), k) == lookup(mid, k));
    }
}

/// The elements of `v` from index `from` on.
fn split_tail(v: Vec<ProcessSample>, from: usize) -> (r: Vec<ProcessSample>)
    requires
        from <= v@.len(),
    ensures
        r@ == v@.skip(from as int),
{
    let mut v = v;
    let r = v.split_off(from);
    r
}

/// The names of the workspaces, in order.
pub open spec fn workspace_names(w: Seq<(String, WorkspaceMetrics)>) -> Seq<Seq<char>> {
    w.map_values(|p: (String, WorkspaceMetrics)| p.0@)
}

/// The workspace of each process of each workspace, workspace by workspace.
pub open spec fn process_workspaces(w: Seq<(String, WorkspaceMetrics)>) -> Seq<Seq<char>>
    decreases w.len(),
{
    if w.len() == 0 {
        Seq::empty()
    } else {
        process_workspaces(w.drop_last()) + w.last().1.processes@.map_values(
            |p: (String, ProcessSample)| p.1.workspace@,
        )
    }
}

/// What a full metrics update of the framework holds, as subscriptions see
/// it: system metrics, every workspace, and every process of each.
pub fn full_update_scope(framework: &FrameworkMetrics) -> (u: UpdateScope)
    ensures
        u.has_system,
        strings_view(u.workspace_names@) == workspace_names(framework.workspaces@),
        strings_view(u.process_workspaces@) == process_workspaces(framework.workspaces@),
{
    let ws = &framework.workspaces;
    let mut names: Vec<String> = Vec::new();
    let mut procs: Vec<String> = Vec::new();
    let mut i: usize = 0;
    while i < ws.len()
        invariant
            0 <= i <= ws@.len(),
            strings_view(names@) == workspace_names(ws@.take(i as int)),
            strings_view(procs@) == process_workspaces(ws@.take(i as int)),
        decreases ws.len() - i,
    {
        let ghost t = ws@.take(i + 1);
        assert(t.drop_last() =~= ws@.take(i as int));
        assert(t.last() == ws@[i as int]);
        let ghost before_names = names@;
        names.push(ws[i].0.clone());
        assert(names@ == before_names.push(names@.last()));
        assert(strings_view(names@) =~= strings_view(before_names).push(ws@[i as int].0@));
        assert(workspace_names(t) =~= workspace_names(ws@.take(i as int)).push(ws@[i as int].0@));
        let members = &ws[i].1.processes;
        let ghost start = procs@;
        let mut k: usize = 0;
        while k < members.len()
            invariant
                0 <= k <= members@.len(),
                procs@.len() == start.len() + k,
                forall|j: int| 0 <= j < start.len() ==> procs@[j] == start[j],
                forall|j: int| 0 <= j < k ==> (#[trigger] procs@[start.len() + j])@ == members@[j].1.workspace@,
            decreases members.len() - k,
        {
            procs.push(members[k].1.workspace.clone());
            k = k + 1;
        }
        assert(strings_view(procs@) =~= process_workspaces(t)) by {
            let added = members@.map_values(|p: (String, ProcessSample)| p.1.workspace@);
            assert(process_workspaces(t) == process_workspaces(ws@.take(i as int)) + added);
            assert forall|j: int| 0 <= j < procs@.len() implies #[trigger] strings_view(procs@)[j] == (
            process_workspaces(ws@.take(i as int)) + added)[j] by {
                if j < start.len() {
                    assert(procs@[j] == start[j]);
                    assert(strings_view(start)[j] == start[j]@);
                } else {
                    assert((procs@[start.len() + (j - start.len())])@ == members@[j - start.len()].1.workspace@);
                }
            }
        }
        i = i + 1;
    }
    assert(ws@.take(i as int) =~= ws@);
    UpdateScope { has_system: true, process_workspaces: procs, workspace_names: names }
}

} // verus!
