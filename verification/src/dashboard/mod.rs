//! The dashboard: connected clients and what they subscribe to, task boards,
//! and the answers to the actions clients ask for.
//!
//! The WebSocket connections and the HTTP server are outside; this module
//! keeps the clients and decides who gets which update.

pub mod task_board;

use crate::text::{eq_string};
use vstd::prelude::*;

verus! {

/// Settings of the dashboard's WebSocket server.
#[derive(Debug, Clone)]
pub struct DashboardConfig {
    pub port: u16,
    pub enabled: bool,
    /// Interval between metrics broadcasts, in milliseconds
    pub update_interval: u64,
    pub max_clients: usize,
    pub auth_enabled: bool,
    pub auth_token: Option<String>,
    pub compression: bool,
}

impl Default for DashboardConfig {
    fn default() -> (c: Self)
        ensures
            c.port == 9999,
            c.enabled,
            c.update_interval == 1000,
            c.max_clients == 10,
            !c.auth_enabled,
            c.auth_token is None,
            c.compression,
    {
        DashboardConfig {
            port: 9999,
            enabled: true,
            update_interval: 1000,
            max_clients: 10,
            auth_enabled: false,
            auth_token: None,
            compression: true,
        }
    }
}

impl DashboardConfig {
    /// Whether another client may connect while `connected` clients are.
    pub fn admits_client(&self, connected: usize) -> (b: bool)
        ensures
            b == (connected < self.max_clients),
    {
        connected < self.max_clients
    }
}

/// What a client subscribes to.
#[derive(Debug, PartialEq, Eq)]
pub enum MetricSubscription {
    /// Every update
    All,
    /// System metrics
    System,
    /// Process metrics of one workspace
    Process(String),
    /// Metrics of one workspace
    Workspace(String),
    /// Alerts
    Alerts,
    /// Performance metrics
    Performance,
}

/// A subscription as a plain value.
pub enum SubscriptionView {
    All,
    System,
    Process(Seq<char>),
    Workspace(Seq<char>),
    Alerts,
    Performance,
}

impl View for MetricSubscription {
    type V = SubscriptionView;

    open spec fn view(&self) -> SubscriptionView {
        match self {
            MetricSubscription::All => SubscriptionView::All,
            MetricSubscription::System => SubscriptionView::System,
            MetricSubscription::Process(w) => SubscriptionView::Process(w@),
            MetricSubscription::Workspace(w) => SubscriptionView::Workspace(w@),
            MetricSubscription::Alerts => SubscriptionView::Alerts,
            MetricSubscription::Performance => SubscriptionView::Performance,
        }
    }
}

impl Clone for MetricSubscription {
    fn clone(&self) -> (r: Self)
        ensures
            r@ == self@,
    {
        match self {
            MetricSubscription::All => MetricSubscription::All,
            MetricSubscription::System => MetricSubscription::System,
            MetricSubscription::Process(w) => MetricSubscription::Process(w.clone()),
            MetricSubscription::Workspace(w) => MetricSubscription::Workspace(w.clone()),
            MetricSubscription::Alerts => MetricSubscription::Alerts,
            MetricSubscription::Performance => MetricSubscription::Performance,
        }
    }
}

pub open spec fn subscriptions_view(s: Seq<MetricSubscription>) -> Seq<SubscriptionView> {
    s.map_values(|x: MetricSubscription| x@)
}

/// A connected client.
#[derive(Debug)]
pub struct ClientInfo {
    pub id: String,
    /// When it connected, in seconds since the epoch
    pub connected_at: u64,
    /// Kind of client (wezterm, web, ...)
    pub client_type: String,
    pub subscriptions: Vec<MetricSubscription>,
    /// When it was last heard from, in seconds since the epoch
    pub last_activity: u64,
}

/// Kinds of metrics update.
#[derive(Debug, Clone, Copy, PartialEq, Eq, Structural)]
pub enum UpdateType {
    Full,
    Incremental,
    Priority,
    Heartbeat,
}

/// Severity of a dashboard alert.
#[derive(Debug, Clone, Copy, PartialEq, Eq, Structural)]
pub enum AlertSeverity {
    Info,
    Warning,
    Critical,
    Resolved,
}

/// A change of a component's status.
#[derive(Debug, Clone)]
pub struct StatusChange {
    pub component: String,
    pub previous_status: String,
    pub new_status: String,
    pub reason: Option<String>,
    pub timestamp: u64,
}

/// Counts shown on the dashboard.
#[derive(Debug, Clone, Copy)]
pub struct DashboardStats {
    pub connected_clients: usize,
    pub total_workspaces: usize,
    pub total_processes: usize,
    pub uptime: u64,
    pub last_update: u64,
}

/// A column of a task board.
#[derive(Debug)]
pub struct TaskColumn {
    pub id: String,
    pub title: String,
    /// Ids of the tasks in the column, in order
    pub tasks: Vec<String>,
    pub color: Option<String>,
    /// Most tasks the column may hold
    pub max_tasks: Option<usize>,
    pub sort_order: usize,
}

/// What happened to a task.
#[derive(Debug, Clone, Copy, PartialEq, Eq, Structural)]
pub enum TaskAction {
    Created,
    Updated,
    Deleted,
    StatusChanged,
    ProgressUpdated,
    Moved,
}

/// Who can see a board.
#[derive(Debug, PartialEq, Eq)]
pub enum BoardVisibility {
    Public,
    Workspace(String),
    User(String),
}

/// A task board.
#[derive(Debug)]
pub struct TaskBoardConfig {
    pub id: String,
    pub title: String,
    pub columns: Vec<TaskColumn>,
    /// Refresh interval, in milliseconds
    pub refresh_interval: u64,
    pub real_time: bool,
    pub visibility: BoardVisibility,
}

/// What a metrics update holds, as far as subscriptions care.
#[derive(Debug, Clone)]
pub struct UpdateScope {
    /// Whether the update carries system metrics
    pub has_system: bool,
    /// The workspace of each process in the update
    pub process_workspaces: Vec<String>,
    /// The name of each workspace in the update
    pub workspace_names: Vec<String>,
}

/// Whether a subscription asks for an update.
pub open spec fn wants(s: SubscriptionView, u: UpdateScope) -> bool {
    match s {
        SubscriptionView::All => true,
        SubscriptionView::System => u.has_system,
        SubscriptionView::Process(w) => exists|i: int|
            0 <= i < u.process_workspaces@.len() && (#[trigger] u.process_workspaces@[i])@ == w,
        SubscriptionView::Workspace(n) => exists|i: int|
            0 <= i < u.workspace_names@.len() && (#[trigger] u.workspace_names@[i])@ == n,
        _ => false,
    }
}

/// Whether some string of `v` holds the characters `s`.
fn contains_string(v: &Vec<String>, s: &String) -> (b: bool)
    ensures
        b == exists|i: int| 0 <= i < v@.len() && (#[trigger] v@[i])@ == s@,
{
    let mut i: usize = 0;
    while i < v.len()
        invariant
            0 <= i <= v@.len(),
            forall|j: int| 0 <= j < i ==> (#[trigger] v@[j])@ != s@,
        decreases v.len() - i,
    {
        if eq_string(&v[i], s) {
            return true;
        }
        i = i + 1;
    }
    false
}

/// The connected clients.
pub struct DashboardState {
    /// No client id occurs twice.
    connected_clients: Vec<ClientInfo>,
}

impl DashboardState {
    pub closed spec fn clients(&self) -> Seq<ClientInfo> {
        self.connected_clients@
    }

    pub closed spec fn client_ids(&self) -> Seq<Seq<char>> {
        self.connected_clients@.map_values(|c: ClientInfo| c.id@)
    }

    pub closed spec fn wf(&self) -> bool {
        forall|i: int, j: int|
            0 <= i < j < self.connected_clients@.len() ==> #[trigger] self.connected_clients@[i].id@
                != #[trigger] self.connected_clients@[j].id@
    }

    /// The client with this id, if connected.
    pub open spec fn client(&self, id: Seq<char>) -> Option<ClientInfo> {
        if exists|i: int| 0 <= i < self.clients().len() && (#[trigger] self.clients()[i]).id@ == id {
            Some(self.clients()[choose|i: int| 0 <= i < self.clients().len() && (#[trigger] self.clients()[i]).id@ == id])
        } else {
            None
        }
    }

    /// No clients.
    pub fn new() -> (r: Self)
        ensures
            r.wf(),
            r.clients().len() == 0,
    {
        DashboardState { connected_clients: Vec::new() }
    }

    fn find(&self, id: &str) -> (r: Option<usize>)
        ensures
            match r {
                Some(i) => i < self.clients().len() && self.clients()[i as int].id@ == id@,
                None => forall|i: int| 0 <= i < self.clients().len() ==> (#[trigger] self.clients()[i]).id@ != id@,
            },
    {
        let mut i: usize = 0;
        while i < self.connected_clients.len()
            invariant
                0 <= i <= self.connected_clients@.len(),
                forall|j: int| 0 <= j < i ==> (#[trigger] self.connected_clients@[j]).id@ != id@,
            decreases self.connected_clients.len() - i,
        {
            if crate::text::eq_str(&self.connected_clients[i].id, id) {
                return Some(i);
            }
            i = i + 1;
        }
        None
    }

    /// Adds a client, replacing a client with the same id.
    pub fn register_client(&mut self, client_info: ClientInfo)
        requires
            old(self).wf(),
        ensures
            final(self).wf(),
            final(self).client(client_info.id@) == Some(client_info),
            forall|id: Seq<char>| id != client_info.id@ ==> #[trigger] final(self).client(id) == old(self).client(id),
    {
        let ghost ci = client_info;
        match self.find(client_info.id.as_str()) {
            Some(i) => {
                self.connected_clients.set(i, client_info);
                proof {
                    lemma_client_unique(self, i as int);
                    assert forall|id: Seq<char>| id != ci.id@ implies #[trigger] self.client(id) == old(self).client(id) by {
                        lemma_client_same_elsewhere(old(self), self, i as int, id);
                    }
                }
            },
            None => {
                self.connected_clients.push(client_info);
                proof {
                    let n = old(self).connected_clients@.len() as int;
                    assert(self.connected_clients@[n] == ci);
                    assert forall|a: int, b: int| 0 <= a < b < self.connected_clients@.len() implies #[trigger] self.connected_clients@[a].id@
                        != #[trigger] self.connected_clients@[b].id@ by {
                        assert(self.connected_clients@[a] == old(self).connected_clients@[a]);
                        if b < n {
                            assert(self.connected_clients@[b] == old(self).connected_clients@[b]);
                        } else {
                            assert(old(self).clients()[a].id@ != ci.id@);
                        }
                    }
                    lemma_client_unique(self, n);
                    assert forall|id: Seq<char>| id != ci.id@ implies #[trigger] self.client(id) == old(self).client(id) by {
                        lemma_client_pushed(old(self), self, id);
                    }
                }
            },
        }
    }

    /// Replaces a connected client's subscriptions and records activity at
    /// `now`; nothing changes for a client that is not connected.
    pub fn update_client_subscriptions(
        &mut self,
        client_id: &str,
        subscriptions: Vec<MetricSubscription>,
        now: u64,
    )
        requires
            old(self).wf(),
        ensures
            final(self).wf(),
            match old(self).client(client_id@) {
                Some(c) => final(self).client(client_id@) == Some(
                    ClientInfo { subscriptions, last_activity: now, ..c },
                ),
                None => final(self).client(client_id@) is None,
            },
            forall|id: Seq<char>| id != client_id@ ==> #[trigger] final(self).client(id) == old(self).client(id),
    {
        match self.find(client_id) {
            Some(i) => {
                proof {
                    lemma_client_at(old(self), i as int, client_id@);
                }
                let mut c = self.connected_clients.remove(i);
                c.subscriptions = subscriptions;
                c.last_activity = now;
                self.connected_clients.insert(i, c);
                proof {
                    self.lemma_replaced_at(old(self), i as int);
                    lemma_client_at(self, i as int, client_id@);
                    assert forall|id: Seq<char>| id != client_id@ implies #[trigger] self.client(id) == old(self).client(id) by {
                        lemma_client_same_elsewhere(old(self), self, i as int, id);
                    }
                }
            },
            None => {
                proof {
                    assert(old(self).client(client_id@) is None);
                }
            },
        }
    }

    /// Records activity of a connected client at `now`.
    pub fn record_client_activity(&mut self, client_id: &str, now: u64)
        requires
            old(self).wf(),
        ensures
            final(self).wf(),
            match old(self).client(client_id@) {
                Some(c) => final(self).client(client_id@) == Some(ClientInfo { last_activity: now, ..c }),
                None => final(self).client(client_id@) is None,
            },
            forall|id: Seq<char>| id != client_id@ ==> #[trigger] final(self).client(id) == old(self).client(id),
    {
        match self.find(client_id) {
            Some(i) => {
                proof {
                    lemma_client_at(old(self), i as int, client_id@);
                }
                let mut c = self.connected_clients.remove(i);
                c.last_activity = now;
                self.connected_clients.insert(i, c);
                proof {
                    self.lemma_replaced_at(old(self), i as int);
                    lemma_client_at(self, i as int, client_id@);
                    assert forall|id: Seq<char>| id != client_id@ implies #[trigger] self.client(id) == old(self).client(id) by {
                        lemma_client_same_elsewhere(old(self), self, i as int, id);
                    }
                }
            },
            None => {},
        }
    }

    /// After one client is replaced by one with the same id, ids stay distinct
    /// and the other clients stay where they were.
    proof fn lemma_replaced_at(&self, before: &DashboardState, i: int)
        requires
            before.wf(),
            0 <= i < before.clients().len(),
            self.clients().len() == before.clients().len(),
            self.clients()[i].id@ == before.clients()[i].id@,
            forall|j: int| 0 <= j < before.clients().len() && j != i ==> #[trigger] self.clients()[j] == before.clients()[j],
        ensures
            self.wf(),
    {
        assert forall|a: int, b: int| 0 <= a < b < self.connected_clients@.len() implies #[trigger] self.connected_clients@[a].id@
            != #[trigger] self.connected_clients@[b].id@ by {
            assert(self.clients()[a].id@ == before.clients()[a].id@);
            assert(self.clients()[b].id@ == before.clients()[b].id@);
            assert(before.connected_clients@[a].id@ != before.connected_clients@[b].id@);
        }
    }

    /// Removes a client, if connected.
    pub fn unregister_client(&mut self, client_id: &str)
        requires
            old(self).wf(),
        ensures
            final(self).wf(),
            final(self).client(client_id@) is None,
            forall|id: Seq<char>| id != client_id@ ==> #[trigger] final(self).client(id) == old(self).client(id),
    {
        match self.find(client_id) {
            Some(i) => {
                let ghost before = self.connected_clients@;
                self.connected_clients.remove(i);
                proof {
                    assert(self.connected_clients@ =~= before.remove(i as int));
                    assert forall|a: int, b: int| 0 <= a < b < self.connected_clients@.len() implies #[trigger] self.connected_clients@[a].id@
                        != #[trigger] self.connected_clients@[b].id@ by {
                        let oa = if a < i { a } else { a + 1 };
                        let ob = if b < i { b } else { b + 1 };
                        assert(self.connected_clients@[a] == before[oa]);
                        assert(self.connected_clients@[b] == before[ob]);
                    }
                    assert forall|j: int| 0 <= j < self.clients().len() implies (#[trigger] self.clients()[j]).id@ != client_id@ by {
                        let oj = if j < i { j } else { j + 1 };
                        assert(self.connected_clients@[j] == before[oj]);
                    }
                    assert forall|id: Seq<char>| id != client_id@ implies #[trigger] self.client(id) == old(self).client(id) by {
                        lemma_client_removed(old(self), self, i as int, id);
                    }
                }
            },
            None => {},
        }
    }

    /// The number of connected clients.
    pub fn client_count(&self) -> (n: usize)
        ensures
            n == self.clients().len(),
    {
        self.connected_clients.len()
    }

    /// Whether a client gets an update: it is connected and one of its
    /// subscriptions asks for the update.
    pub fn should_send_update(&self, client_id: &str, update: &UpdateScope) -> (b: bool)
        requires
            self.wf(),
        ensures
            b == match self.client(client_id@) {
                Some(c) => exists|i: int|
                    0 <= i < c.subscriptions@.len() && wants((#[trigger] c.subscriptions@[i])@, *update),
                None => false,
            },
    {
        match self.find(client_id) {
            None => false,
            Some(k) => {
                proof {
                    lemma_client_unique(self, k as int);
                }
                let subs = &self.connected_clients[k].subscriptions;
                let mut i: usize = 0;
                while i < subs.len()
                    invariant
                        0 <= i <= subs@.len(),
                        k < self.connected_clients@.len(),
                        self.client(client_id@) == Some(self.connected_clients@[k as int]),
                        subs@ == self.connected_clients@[k as int].subscriptions@,
                        forall|j: int| 0 <= j < i ==> !wants((#[trigger] subs@[j])@, *update),
                    decreases subs.len() - i,
                {
                    let hit = match &subs[i] {
                        MetricSubscription::All => true,
                        MetricSubscription::System => update.has_system,
                        MetricSubscription::Process(w) => contains_string(&update.process_workspaces, w),
                        MetricSubscription::Workspace(n) => contains_string(&update.workspace_names, n),
                        _ => false,
                    };
                    if hit {
                        assert(wants(subs@[i as int]@, *update));
                        assert(self.connected_clients@[k as int].subscriptions@[i as int] == subs@[i as int]);
                        let ghost c = self.client(client_id@)->Some_0;
                        assert(c == self.connected_clients@[k as int]);
                        assert(wants(c.subscriptions@[i as int]@, *update));
                        assert(exists|t: int| 0 <= t < c.subscriptions@.len() && wants((#[trigger] c.subscriptions@[t])@, *update));
                        return true;
                    }
                    i = i + 1;
                }
                false
            },
        }
    }

    /// The subscriptions of a client; none when it is not connected.
    pub fn get_client_subscriptions(&self, client_id: &str) -> (r: Vec<MetricSubscription>)
        requires
            self.wf(),
        ensures
            subscriptions_view(r@) == match self.client(client_id@) {
                Some(c) => subscriptions_view(c.subscriptions@),
                None => Seq::empty(),
            },
    {
        match self.find(client_id) {
            None => {
                let r: Vec<MetricSubscription> = Vec::new();
                assert(subscriptions_view(r@) =~= Seq::<SubscriptionView>::empty());
                r
            },
            Some(k) => {
                proof {
                    lemma_client_unique(self, k as int);
                }
                let subs = &self.connected_clients[k].subscriptions;
                let mut r: Vec<MetricSubscription> = Vec::new();
                let mut i: usize = 0;
                while i < subs.len()
                    invariant
                        0 <= i <= subs@.len(),
                        r@.len() == i,
                        forall|j: int| 0 <= j < i ==> (#[trigger] r@[j])@ == subs@[j]@,
                    decreases subs.len() - i,
                {
                    r.push(subs[i].clone());
                    i = i + 1;
                }
                assert(subscriptions_view(r@) =~= subscriptions_view(subs@));
                r
            },
        }
    }

    /// The dashboard counts, given the framework's counts.
    pub fn get_stats(&self, total_workspaces: usize, total_processes: usize, uptime: u64, last_update: u64) -> (s: DashboardStats)
        ensures
            s.connected_clients == self.clients().len(),
            s.total_workspaces == total_workspaces,
            s.total_processes == total_processes,
            s.uptime == uptime,
            s.last_update == last_update,
    {
        DashboardStats {
            connected_clients: self.connected_clients.len(),
            total_workspaces,
            total_processes,
            uptime,
            last_update,
        }
    }
}

proof fn lemma_client_unique(s: &DashboardState, i: int)
    requires
        s.wf(),
        0 <= i < s.clients().len(),
    ensures
        s.client(s.clients()[i].id@) == Some(s.clients()[i]),
{
    let id = s.clients()[i].id@;
    assert(s.clients()[i].id@ == id);
    let k = choose|k: int| 0 <= k < s.clients().len() && (#[trigger] s.clients()[k]).id@ == id;
    if k != i {
        if k < i {
            assert(s.connected_clients@[k].id@ != s.connected_clients@[i].id@);
        } else {
            assert(s.connected_clients@[i].id@ != s.connected_clients@[k].id@);
        }
    }
}

proof fn lemma_client_at(s: &DashboardState, i: int, id: Seq<char>)
    requires
        s.wf(),
        0 <= i < s.clients().len(),
        s.clients()[i].id@ == id,
    ensures
        s.client(id) == Some(s.clients()[i]),
{
    lemma_client_unique(s, i);
}

proof fn lemma_client_same_elsewhere(a: &DashboardState, b: &DashboardState, i: int, id: Seq<char>)
    requires
        a.wf(),
        b.wf(),
        a.clients().len() == b.clients().len(),
        0 <= i < a.clients().len(),
        a.clients()[i].id@ == b.clients()[i].id@,
        forall|j: int| 0 <= j < a.clients().len() && j != i ==> #[trigger] b.clients()[j] == a.clients()[j],
        id != a.clients()[i].id@,
    ensures
        b.client(id) == a.client(id),
{
    if exists|j: int| 0 <= j < a.clients().len() && (#[trigger] a.clients()[j]).id@ == id {
        let j = choose|j: int| 0 <= j < a.clients().len() && (#[trigger] a.clients()[j]).id@ == id;
        assert(j != i);
        lemma_client_at(a, j, id);
        assert(b.clients()[j] == a.clients()[j]);
        lemma_client_at(b, j, id);
    } else {
        assert forall|j: int| 0 <= j < b.clients().len() implies (#[trigger] b.clients()[j]).id@ != id by {
            if j != i {
                assert(b.clients()[j] == a.clients()[j]);
                assert(!(0 <= j < a.clients().len() && a.clients()[j].id@ == id));
            }
        }
    }
}

proof fn lemma_client_pushed(a: &DashboardState, b: &DashboardState, id: Seq<char>)
    requires
        a.wf(),
        b.wf(),
        b.clients().len() == a.clients().len() + 1,
        forall|j: int| 0 <= j < a.clients().len() ==> #[trigger] b.clients()[j] == a.clients()[j],
        id != b.clients()[a.clients().len() as int].id@,
    ensures
        b.client(id) == a.client(id),
{
    let n = a.clients().len() as int;
    if exists|j: int| 0 <= j < a.clients().len() && (#[trigger] a.clients()[j]).id@ == id {
        let j = choose|j: int| 0 <= j < a.clients().len() && (#[trigger] a.clients()[j]).id@ == id;
        lemma_client_at(a, j, id);
        assert(b.clients()[j] == a.clients()[j]);
        lemma_client_at(b, j, id);
    } else {
        assert forall|j: int| 0 <= j < b.clients().len() implies (#[trigger] b.clients()[j]).id@ != id by {
            if j < n {
                assert(b.clients()[j] == a.clients()[j]);
                assert(!(0 <= j < a.clients().len() && a.clients()[j].id@ == id));
            }
        }
    }
}

proof fn lemma_client_removed(a: &DashboardState, b: &DashboardState, i: int, id: Seq<char>)
    requires
        a.wf(),
        b.wf(),
        0 <= i < a.clients().len(),
        b.clients() == a.clients().remove(i),
        id != a.clients()[i].id@,
    ensures
        b.client(id) == a.client(id),
{
    if exists|j: int| 0 <= j < a.clients().len() && (#[trigger] a.clients()[j]).id@ == id {
        let j = choose|j: int| 0 <= j < a.clients().len() && (#[trigger] a.clients()[j]).id@ == id;
        assert(j != i);
        lemma_client_at(a, j, id);
        let bj = if j < i { j } else { j - 1 };
        assert(b.clients()[bj] == a.clients()[j]);
        lemma_client_at(b, bj, id);
    } else {
        assert forall|j: int| 0 <= j < b.clients().len() implies (#[trigger] b.clients()[j]).id@ != id by {
            let aj = if j < i { j } else { j + 1 };
            assert(b.clients()[j] == a.clients()[aj]);
            assert(!(0 <= aj < a.clients().len() && a.clients()[aj].id@ == id));
        }
    }
}

} // verus!
