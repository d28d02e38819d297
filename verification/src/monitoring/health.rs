//! Health checks of the framework's components.
//!
//! Probing a component (asking a manager for a count, looking at the socket,
//! writing a file) happens outside; this module turns what a probe observed
//! into the component's status, counts failures per component, combines the
//! components into one check and keeps the recent checks.

use super::{
    ComponentHealth, HealthCheck, HealthStatus, NamedComponent, current_timestamp, worse,
    worst_status,
};
use crate::assoc::{get_value, keys_distinct, lookup, pairs_view, set_value};
use crate::error::TimeSpan;
use crate::text::{decimal, eq_str, push_decimal};
use vstd::prelude::*;

verus! {

/// A value attached to a check result.
#[derive(Debug, Clone)]
pub enum DetailValue {
    Number(u64),
    /// A number that may be negative.
    Signed(i64),
    Text(String),
    Flag(bool),
    /// A floating-point number, held as its JSON text.
    Real(String),
    /// No value (JSON `null`).
    Null,
}

/// A detail value as a plain value.
pub enum DetailView {
    Number(nat),
    Signed(int),
    Text(Seq<char>),
    Flag(bool),
    Real(Seq<char>),
    Null,
}

impl View for DetailValue {
    type V = DetailView;

    open spec fn view(&self) -> DetailView {
        match self {
            DetailValue::Number(n) => DetailView::Number(*n as nat),
            DetailValue::Text(s) => DetailView::Text(s@),
            DetailValue::Flag(b) => DetailView::Flag(*b),
            DetailValue::Real(s) => DetailView::Real(s@),
            DetailValue::Signed(n) => DetailView::Signed(*n as int),
            DetailValue::Null => DetailView::Null,
        }
    }
}

/// A named detail of a check result.
#[derive(Debug, Clone)]
pub struct Detail {
    pub key: String,
    pub value: DetailValue,
}

pub open spec fn details_view(d: Seq<Detail>) -> Seq<(Seq<char>, DetailView)> {
    d.map_values(|x: Detail| (x.key@, x.value@))
}

/// What checking one component found.
#[derive(Debug, Clone)]
pub struct ComponentCheckResult {
    pub component_name: String,
    pub status: HealthStatus,
    pub message: String,
    pub response_time_ms: u64,
    pub details: Vec<Detail>,
}

/// What a write-and-read-back probe of the file system observed.
#[derive(Debug, Clone)]
pub enum FileProbe {
    /// The test file could not be written.
    WriteFailed,
    /// The test file was written but could not be read back.
    ReadFailed,
    /// The test file was written and read back with this content.
    ReadBack(String),
}

/// The socket path that the IPC check looks at.
pub open spec fn ipc_socket_path() -> Seq<char> {
    "/tmp/wezterm-parallel.sock"@
}

/// The file that the file system check writes.
pub open spec fn health_test_file() -> Seq<char> {
    "/tmp/wezterm-parallel-health-check"@
}

/// The content that the file system check writes.
pub open spec fn health_test_content() -> Seq<char> {
    "health check"@
}

/// How many health checks are kept.
pub const HISTORY_LIMIT: usize = 100;

fn detail_number(key: &str, n: u64) -> (d: Detail)
    ensures
        d.key@ == key@,
        d.value@ == DetailView::Number(n as nat),
{
    Detail { key: String::from_str(key), value: DetailValue::Number(n) }
}

fn detail_text(key: &str, s: &str) -> (d: Detail)
    ensures
        d.key@ == key@,
        d.value@ == DetailView::Text(s@),
{
    Detail { key: String::from_str(key), value: DetailValue::Text(String::from_str(s)) }
}

fn detail_flag(key: &str, b: bool) -> (d: Detail)
    ensures
        d.key@ == key@,
        d.value@ == DetailView::Flag(b),
{
    Detail { key: String::from_str(key), value: DetailValue::Flag(b) }
}

fn result(name: &str, status: HealthStatus, message: String, rt: u64, details: Vec<Detail>) -> (r:
    ComponentCheckResult)
    ensures
        r.component_name@ == name@,
        r.status == status,
        r.message@ == message@,
        r.response_time_ms == rt,
        r.details@ == details@,
{
    ComponentCheckResult {
        component_name: String::from_str(name),
        status,
        message,
        response_time_ms: rt,
        details,
    }
}

/// Keeps the health of the components and the recent health checks.
pub struct HealthCheckManager {
    check_interval: TimeSpan,
    /// Recent checks, oldest first; at most `HISTORY_LIMIT`.
    health_history: Vec<HealthCheck>,
    /// When each component was last healthy.
    last_success: Vec<(String, u64)>,
    /// Failed checks of each component since it was last healthy.
    failure_counts: Vec<(String, u32)>,
}

/// Whether two checks hold the same values.
pub open spec fn same_check(a: HealthCheck, b: HealthCheck) -> bool {
    &&& a.timestamp == b.timestamp
    &&& a.overall_status == b.overall_status
    &&& a.components@ == b.components@
    &&& a.check_duration_ms == b.check_duration_ms
}

/// The history after a check is added: the check at the end, and the oldest
/// check dropped when there are more than the limit.
pub open spec fn history_after(h: Seq<HealthCheck>, c: HealthCheck) -> Seq<HealthCheck> {
    if h.len() + 1 > HISTORY_LIMIT {
        h.push(c).drop_first()
    } else {
        h.push(c)
    }
}

/// A component check as the failure tracking reads it: its name and status.
pub open spec fn check_key(c: ComponentCheckResult) -> (Seq<char>, HealthStatus) {
    (c.component_name@, c.status)
}

/// The six results of a full health check, in the order they are checked.
pub open spec fn six_results(
    w: ComponentCheckResult,
    t: ComponentCheckResult,
    i: ComponentCheckResult,
    ws: ComponentCheckResult,
    f: ComponentCheckResult,
    p: ComponentCheckResult,
) -> Seq<ComponentCheckResult> {
    seq![w, t, i, ws, f, p]
}

/// The names and statuses of the six results, in order.
pub open spec fn six_checks(
    w: ComponentCheckResult,
    t: ComponentCheckResult,
    i: ComponentCheckResult,
    ws: ComponentCheckResult,
    f: ComponentCheckResult,
    p: ComponentCheckResult,
) -> Seq<(Seq<char>, HealthStatus)> {
    seq![check_key(w), check_key(t), check_key(i), check_key(ws), check_key(f), check_key(p)]
}

/// The failure count of component `k` after the checks `cs`, taken in order
/// from the counts `f`: a healthy check of it resets the count, any other
/// check of it adds one.
pub open spec fn failures_after(f: Seq<(Seq<char>, u32)>, cs: Seq<(Seq<char>, HealthStatus)>, k: Seq<char>) -> int
    decreases cs.len(),
{
    if cs.len() == 0 {
        match lookup(f, k) {
            Some(n) => n as int,
            None => 0,
        }
    } else if cs.last().0 == k {
        if cs.last().1 == HealthStatus::Healthy {
            0
        } else {
            failures_after(f, cs.drop_last(), k) + 1
        }
    } else {
        failures_after(f, cs.drop_last(), k)
    }
}

/// The last success of component `k` after the checks `cs`, taken in order
/// from the successes `s`, where a healthy check at position `j` recorded
/// `times[j]`.
pub open spec fn success_after(
    s: Seq<(Seq<char>, u64)>,
    cs: Seq<(Seq<char>, HealthStatus)>,
    times: Seq<Option<u64>>,
    k: Seq<char>,
) -> Option<u64>
    decreases cs.len(),
{
    if cs.len() == 0 {
        lookup(s, k)
    } else if cs.last().0 == k && cs.last().1 == HealthStatus::Healthy {
        times.last()
    } else {
        success_after(s, cs.drop_last(), times.drop_last(), k)
    }
}

/// The last successes the components report, in order.
pub open spec fn last_successes(c: Seq<NamedComponent>) -> Seq<Option<u64>> {
    c.map_values(|n: NamedComponent| n.health.last_success)
}

/// No failure count passes `u32::MAX` while the checks `cs` are taken.
pub open spec fn counts_fit(f: Seq<(Seq<char>, u32)>, cs: Seq<(Seq<char>, HealthStatus)>) -> bool {
    forall|j: int|
        0 <= j < cs.len() && (#[trigger] cs[j]).1 != HealthStatus::Healthy ==> failures_after(
            f,
            cs.take(j),
            cs[j].0,
        ) < u32::MAX
}

/// The worst of the statuses of the checks, starting from healthy.
pub open spec fn worst_of(cs: Seq<(Seq<char>, HealthStatus)>) -> HealthStatus
    decreases cs.len(),
{
    if cs.len() == 0 {
        HealthStatus::Healthy
    } else {
        worse(worst_of(cs.drop_last()), cs.last().1)
    }
}

impl HealthCheckManager {
    pub closed spec fn history_view(&self) -> Seq<HealthCheck> {
        self.health_history@
    }

    pub closed spec fn failures_view(&self) -> Seq<(Seq<char>, u32)> {
        pairs_view(self.failure_counts@)
    }

    pub closed spec fn successes_view(&self) -> Seq<(Seq<char>, u64)> {
        pairs_view(self.last_success@)
    }

    pub closed spec fn interval_spec(&self) -> TimeSpan {
        self.check_interval
    }

    /// The failure count recorded for a component; zero when none is.
    pub open spec fn failures_of(&self, name: Seq<char>) -> u32 {
        match lookup(self.failures_view(), name) {
            Some(n) => n,
            None => 0,
        }
    }

    pub closed spec fn wf(&self) -> bool {
        &&& self.health_history@.len() <= HISTORY_LIMIT
        &&& keys_distinct(self.failures_view())
        &&& keys_distinct(self.successes_view())
    }

    /// A manager that checks every `check_interval`, with no history yet.
    pub fn new(check_interval: TimeSpan) -> (r: Self)
        ensures
            r.wf(),
            r.history_view() == Seq::<HealthCheck>::empty(),
            r.failures_view() == Seq::<(Seq<char>, u32)>::empty(),
            r.successes_view() == Seq::<(Seq<char>, u64)>::empty(),
            r.interval_spec() == check_interval,
    {
        let r = HealthCheckManager {
            check_interval,
            health_history: Vec::new(),
            last_success: Vec::new(),
            failure_counts: Vec::new(),
        };
        assert(r.failures_view() =~= Seq::<(Seq<char>, u32)>::empty());
        assert(r.successes_view() =~= Seq::<(Seq<char>, u64)>::empty());
        r
    }

    /// The result for the workspace manager, given the number of workspaces (or
    /// `None` when it could not be had): more than 100 workspaces is degraded.
    pub fn check_workspace_manager(count: Option<u64>, response_time_ms: u64) -> (r:
        ComponentCheckResult)
        ensures
            r.component_name@ == "workspace_manager"@,
            r.response_time_ms == response_time_ms,
            match count {
                None => r.status == HealthStatus::Unhealthy && r.message@
                    == "Failed to get workspace count"@ && r.details@.len() == 0,
                Some(c) => details_view(r.details@) == seq![
                    ("workspace_count"@, DetailView::Number(c as nat)),
                ] && if c > 100 {
                    r.status == HealthStatus::Degraded && r.message@ == "High workspace count: "@
                        + decimal(c as nat)
                } else {
                    r.status == HealthStatus::Healthy && r.message@
                        == "Workspace manager healthy with "@ + decimal(c as nat) + " workspaces"@
                },
            },
    {
        match count {
            None => result(
                "workspace_manager",
                HealthStatus::Unhealthy,
                String::from_str("Failed to get workspace count"),
                response_time_ms,
                Vec::new(),
            ),
            Some(c) => {
                let details = vec![detail_number("workspace_count", c)];
                assert(details_view(details@) =~= seq![
                    ("workspace_count"@, DetailView::Number(c as nat)),
                ]);
                if c > 100 {
                    let mut m = String::from_str("High workspace count: ");
                    push_decimal(&mut m, c);
                    result("workspace_manager", HealthStatus::Degraded, m, response_time_ms, details)
                } else {
                    let mut m = String::from_str("Workspace manager healthy with ");
                    push_decimal(&mut m, c);
                    m.append(" workspaces");
                    result("workspace_manager", HealthStatus::Healthy, m, response_time_ms, details)
                }
            },
        }
    }

    /// The result for the task manager: a queue of more than 1000 tasks is degraded.
    pub fn check_task_manager(task_count: u64, queue_size: u64, response_time_ms: u64) -> (r:
        ComponentCheckResult)
        ensures
            r.component_name@ == "task_manager"@,
            r.response_time_ms == response_time_ms,
            r.status == (if queue_size > 1000 {
                HealthStatus::Degraded
            } else {
                HealthStatus::Healthy
            }),
            r.message@ == "Task manager healthy with "@ + decimal(task_count as nat) + " tasks, queue size: "@
                + decimal(queue_size as nat),
            details_view(r.details@) == seq![
                ("task_count"@, DetailView::Number(task_count as nat)),
                ("queue_size"@, DetailView::Number(queue_size as nat)),
            ],
    {
        let status = if queue_size > 1000 {
            HealthStatus::Degraded
        } else {
            HealthStatus::Healthy
        };
        let mut m = String::from_str("Task manager healthy with ");
        push_decimal(&mut m, task_count);
        m.append(" tasks, queue size: ");
        push_decimal(&mut m, queue_size);
        let details = vec![detail_number("task_count", task_count), detail_number("queue_size", queue_size)];
        assert(details_view(details@) =~= seq![
            ("task_count"@, DetailView::Number(task_count as nat)),
            ("queue_size"@, DetailView::Number(queue_size as nat)),
        ]);
        result("task_manager", status, m, response_time_ms, details)
    }

    /// The result for the IPC socket, given its size (or `None` when it cannot
    /// be looked at): a socket has size zero, any other size is degraded.
    pub fn check_ipc_system(socket_size: Option<u64>, response_time_ms: u64) -> (r:
        ComponentCheckResult)
        ensures
            r.component_name@ == "ipc_system"@,
            r.response_time_ms == response_time_ms,
            match socket_size {
                None => r.status == HealthStatus::Unhealthy && r.message@
                    == "IPC socket not accessible"@ && details_view(r.details@) == seq![
                    ("socket_path"@, DetailView::Text(ipc_socket_path())),
                    ("socket_exists"@, DetailView::Flag(false)),
                ],
                Some(0) => r.status == HealthStatus::Healthy && r.message@
                    == "IPC socket is accessible"@ && details_view(r.details@) == seq![
                    ("socket_path"@, DetailView::Text(ipc_socket_path())),
                    ("socket_exists"@, DetailView::Flag(true)),
                ],
                Some(n) => r.status == HealthStatus::Degraded && r.message@
                    == "IPC socket has unexpected size"@ && details_view(r.details@) == seq![
                    ("socket_path"@, DetailView::Text(ipc_socket_path())),
                    ("socket_size"@, DetailView::Number(n as nat)),
                ],
            },
    {
        let path = "/tmp/wezterm-parallel.sock";
        match socket_size {
            None => {
                let details = vec![detail_text("socket_path", path), detail_flag("socket_exists", false)];
                assert(details_view(details@) =~= seq![
                    ("socket_path"@, DetailView::Text(ipc_socket_path())),
                    ("socket_exists"@, DetailView::Flag(false)),
                ]);
                result(
                    "ipc_system",
                    HealthStatus::Unhealthy,
                    String::from_str("IPC socket not accessible"),
                    response_time_ms,
                    details,
                )
            },
            Some(n) => {
                if n == 0 {
                    let details = vec![detail_text("socket_path", path), detail_flag("socket_exists", true)];
                    assert(details_view(details@) =~= seq![
                        ("socket_path"@, DetailView::Text(ipc_socket_path())),
                        ("socket_exists"@, DetailView::Flag(true)),
                    ]);
                    result(
                        "ipc_system",
                        HealthStatus::Healthy,
                        String::from_str("IPC socket is accessible"),
                        response_time_ms,
                        details,
                    )
                } else {
                    let details = vec![detail_text("socket_path", path), detail_number("socket_size", n)];
                    assert(details_view(details@) =~= seq![
                        ("socket_path"@, DetailView::Text(ipc_socket_path())),
                        ("socket_size"@, DetailView::Number(n as nat)),
                    ]);
                    result(
                        "ipc_system",
                        HealthStatus::Degraded,
                        String::from_str("IPC socket has unexpected size"),
                        response_time_ms,
                        details,
                    )
                }
            },
        }
    }

    /// The result for the WebSocket server, given whether port 9999 accepted a
    /// connection.
    pub fn check_websocket_server(reachable: bool, response_time_ms: u64) -> (r:
        ComponentCheckResult)
        ensures
            r.component_name@ == "websocket_server"@,
            r.response_time_ms == response_time_ms,
            r.status == (if reachable {
                HealthStatus::Healthy
            } else {
                HealthStatus::Unhealthy
            }),
            r.message@ == (if reachable {
                "WebSocket server is listening"@
            } else {
                "WebSocket server is not reachable"@
            }),
            details_view(r.details@) == seq![
                ("port"@, DetailView::Number(9999)),
                ("listening"@, DetailView::Flag(reachable)),
            ],
    {
        let details = vec![detail_number("port", 9999), detail_flag("listening", reachable)];
        assert(details_view(details@) =~= seq![
            ("port"@, DetailView::Number(9999)),
            ("listening"@, DetailView::Flag(reachable)),
        ]);
        if reachable {
            result(
                "websocket_server",
                HealthStatus::Healthy,
                String::from_str("WebSocket server is listening"),
                response_time_ms,
                details,
            )
        } else {
            result(
                "websocket_server",
                HealthStatus::Unhealthy,
                String::from_str("WebSocket server is not reachable"),
                response_time_ms,
                details,
            )
        }
    }

    /// The result for the file system, given what writing the test file and
    /// reading it back observed.
    pub fn check_file_system(probe: &FileProbe, response_time_ms: u64) -> (r: ComponentCheckResult)
        ensures
            r.component_name@ == "file_system"@,
            r.response_time_ms == response_time_ms,
            match probe {
                FileProbe::WriteFailed => r.status == HealthStatus::Unhealthy && r.message@
                    == "File system write failed"@ && r.details@.len() == 0,
                FileProbe::ReadFailed => r.status == HealthStatus::Degraded && r.message@
                    == "File system read failed"@ && r.details@.len() == 0,
                FileProbe::ReadBack(content) => if content@ == health_test_content() {
                    r.status == HealthStatus::Healthy && r.message@
                        == "File system read/write operations successful"@ && details_view(
                        r.details@,
                    ) == seq![
                        ("test_file"@, DetailView::Text(health_test_file())),
                        ("read_write_ok"@, DetailView::Flag(true)),
                    ]
                } else {
                    r.status == HealthStatus::Degraded && r.message@
                        == "File system data integrity issue"@ && r.details@.len() == 0
                },
            },
    {
        match probe {
            FileProbe::WriteFailed => result(
                "file_system",
                HealthStatus::Unhealthy,
                String::from_str("File system write failed"),
                response_time_ms,
                Vec::new(),
            ),
            FileProbe::ReadFailed => result(
                "file_system",
                HealthStatus::Degraded,
                String::from_str("File system read failed"),
                response_time_ms,
                Vec::new(),
            ),
            FileProbe::ReadBack(content) => {
                if eq_str(content, "health check") {
                    let details = vec![
                        detail_text("test_file", "/tmp/wezterm-parallel-health-check"),
                        detail_flag("read_write_ok", true),
                    ];
                    assert(details_view(details@) =~= seq![
                        ("test_file"@, DetailView::Text(health_test_file())),
                        ("read_write_ok"@, DetailView::Flag(true)),
                    ]);
                    result(
                        "file_system",
                        HealthStatus::Healthy,
                        String::from_str("File system read/write operations successful"),
                        response_time_ms,
                        details,
                    )
                } else {
                    result(
                        "file_system",
                        HealthStatus::Degraded,
                        String::from_str("File system data integrity issue"),
                        response_time_ms,
                        Vec::new(),
                    )
                }
            },
        }
    }

    /// The result for the persistence layer, given the number of files in the
    /// workspace state directory (or `None` when it cannot be read).
    pub fn check_persistence_layer(file_count: Option<u64>, state_dir: &str, response_time_ms: u64) -> (r:
        ComponentCheckResult)
        ensures
            r.component_name@ == "persistence"@,
            r.response_time_ms == response_time_ms,
            match file_count {
                Some(n) => r.status == HealthStatus::Healthy && r.message@
                    == "Persistence layer healthy with "@ + decimal(n as nat) + " workspace files"@
                    && details_view(r.details@) == seq![
                    ("workspace_files"@, DetailView::Number(n as nat)),
                    ("state_dir"@, DetailView::Text(state_dir@)),
                ],
                None => r.status == HealthStatus::Degraded && r.message@
                    == "Workspace state directory not accessible"@ && details_view(r.details@)
                    == seq![("state_dir"@, DetailView::Text(state_dir@))],
            },
    {
        match file_count {
            Some(n) => {
                let mut m = String::from_str("Persistence layer healthy with ");
                push_decimal(&mut m, n);
                m.append(" workspace files");
                let details = vec![detail_number("workspace_files", n), detail_text("state_dir", state_dir)];
                assert(details_view(details@) =~= seq![
                    ("workspace_files"@, DetailView::Number(n as nat)),
                    ("state_dir"@, DetailView::Text(state_dir@)),
                ]);
                result("persistence", HealthStatus::Healthy, m, response_time_ms, details)
            },
            None => {
                let details = vec![detail_text("state_dir", state_dir)];
                assert(details_view(details@) =~= seq![("state_dir"@, DetailView::Text(state_dir@))]);
                result(
                    "persistence",
                    HealthStatus::Degraded,
                    String::from_str("Workspace state directory not accessible"),
                    response_time_ms,
                    details,
                )
            },
        }
    }

    /// The number of failed checks recorded for a component since it was last healthy.
    pub fn failure_count(&self, component_name: &str) -> (n: u32)
        requires
            self.wf(),
        ensures
            n == self.failures_of(component_name@),
    {
        match get_value(&self.failure_counts, component_name) {
            Some(n) => n,
            None => 0,
        }
    }

    /// The health of a component after a check: a healthy check resets its
    /// failure count and records the current time as its last success; any
    /// other check adds one to its failure count.
    pub fn create_component_health(&mut self, check_result: &ComponentCheckResult) -> (h:
        ComponentHealth)
        requires
            old(self).wf(),
            check_result.status != HealthStatus::Healthy ==> old(self).failures_of(
                check_result.component_name@,
            ) < u32::MAX,
        ensures
            final(self).wf(),
            final(self).history_view() == old(self).history_view(),
            h.status == check_result.status,
            h.message@ == check_result.message@,
            h.response_time_ms == check_result.response_time_ms,
            h.failure_count == final(self).failures_of(check_result.component_name@),
            h.last_success == lookup(final(self).successes_view(), check_result.component_name@),
            check_result.status == HealthStatus::Healthy ==> h.failure_count == 0
                && h.last_success is Some,
            check_result.status != HealthStatus::Healthy ==> h.failure_count == old(self).failures_of(
                check_result.component_name@,
            ) + 1 && h.last_success == lookup(
                old(self).successes_view(),
                check_result.component_name@,
            ),
            forall|k: Seq<char>|
                k != check_result.component_name@ ==> #[trigger] final(self).failures_of(k)
                    == old(self).failures_of(k),
            forall|k: Seq<char>|
                k != check_result.component_name@ ==> #[trigger] lookup(final(self).successes_view(), k)
                    == lookup(old(self).successes_view(), k),
    {
        let name = &check_result.component_name;
        let failure_count: u32 = if check_result.status == HealthStatus::Healthy {
            let now = current_timestamp();
            set_value(&mut self.failure_counts, name.clone(), 0);
            set_value(&mut self.last_success, name.clone(), now);
            0
        } else {
            let previous = match get_value(&self.failure_counts, name.as_str()) {
                Some(n) => n,
                None => 0,
            };
            set_value(&mut self.failure_counts, name.clone(), previous + 1);
            previous + 1
        };
        let last_success = get_value(&self.last_success, name.as_str());
        ComponentHealth {
            status: check_result.status,
            message: check_result.message.clone(),
            last_success,
            failure_count,
            response_time_ms: check_result.response_time_ms,
        }
    }

    /// Combines the results of the six components, checked in this order,
    /// into one health check: each component's health as `create_component_health`
    /// gives it, under a fixed name, and the worst of their statuses. The
    /// failure counts and last successes are tracked from check to check, as
    /// `failures_after` and `success_after` describe.
    pub fn perform_health_check(
        &mut self,
        workspace: &ComponentCheckResult,
        task: &ComponentCheckResult,
        ipc: &ComponentCheckResult,
        websocket: &ComponentCheckResult,
        file_system: &ComponentCheckResult,
        persistence: &ComponentCheckResult,
        check_duration_ms: u64,
    ) -> (c: HealthCheck)
        requires
            old(self).wf(),
            counts_fit(
                old(self).failures_view(),
                six_checks(*workspace, *task, *ipc, *websocket, *file_system, *persistence),
            ),
        ensures
            final(self).wf(),
            final(self).history_view() == old(self).history_view(),
            c.overall_status == worse(
                worse(
                    worse(
                        worse(worse(worse(HealthStatus::Healthy, workspace.status), task.status), ipc.status),
                        websocket.status,
                    ),
                    file_system.status,
                ),
                persistence.status,
            ),
            c.check_duration_ms == check_duration_ms,
            c.components@.len() == 6,
            c.components@[0].name@ == "workspace_manager"@,
            c.components@[1].name@ == "task_manager"@,
            c.components@[2].name@ == "ipc_system"@,
            c.components@[3].name@ == "websocket_server"@,
            c.components@[4].name@ == "file_system"@,
            c.components@[5].name@ == "persistence"@,
            forall|i: int|
                0 <= i < 6 ==> #[trigger] c.components@[i].health.status == six_results(
                    *workspace,
                    *task,
                    *ipc,
                    *websocket,
                    *file_system,
                    *persistence,
                )[i].status && c.components@[i].health.message@ == six_results(
                    *workspace,
                    *task,
                    *ipc,
                    *websocket,
                    *file_system,
                    *persistence,
                )[i].message@ && c.components@[i].health.response_time_ms == six_results(
                    *workspace,
                    *task,
                    *ipc,
                    *websocket,
                    *file_system,
                    *persistence,
                )[i].response_time_ms,
            forall|i: int|
                0 <= i < 6 ==> #[trigger] c.components@[i].health.failure_count == failures_after(
                    old(self).failures_view(),
                    six_checks(*workspace, *task, *ipc, *websocket, *file_system, *persistence).take(i + 1),
                    six_checks(*workspace, *task, *ipc, *websocket, *file_system, *persistence)[i].0,
                ),
            forall|i: int|
                0 <= i < 6 ==> #[trigger] c.components@[i].health.last_success == success_after(
                    old(self).successes_view(),
                    six_checks(*workspace, *task, *ipc, *websocket, *file_system, *persistence).take(i + 1),
                    last_successes(c.components@).take(i + 1),
                    six_checks(*workspace, *task, *ipc, *websocket, *file_system, *persistence)[i].0,
                ),
            forall|i: int|
                0 <= i < 6 && six_checks(*workspace, *task, *ipc, *websocket, *file_system, *persistence)[i].1
                    == HealthStatus::Healthy ==> (#[trigger] c.components@[i]).health.last_success is Some,
            forall|k: Seq<char>|
                #[trigger] final(self).failures_of(k) == failures_after(
                    old(self).failures_view(),
                    six_checks(*workspace, *task, *ipc, *websocket, *file_system, *persistence),
                    k,
                ),
            forall|k: Seq<char>|
                #[trigger] lookup(final(self).successes_view(), k) == success_after(
                    old(self).successes_view(),
                    six_checks(*workspace, *task, *ipc, *websocket, *file_system, *persistence),
                    last_successes(c.components@),
                    k,
                ),
    {
        let timestamp = current_timestamp();
        let ghost results = six_results(*workspace, *task, *ipc, *websocket, *file_system, *persistence);
        let ghost cs = six_checks(*workspace, *task, *ipc, *websocket, *file_system, *persistence);
        let ghost f0 = self.failures_view();
        let ghost s0 = self.successes_view();
        let checks: Vec<&ComponentCheckResult> = vec![workspace, task, ipc, websocket, file_system, persistence];
        let names: Vec<&str> = vec![
            "workspace_manager",
            "task_manager",
            "ipc_system",
            "websocket_server",
            "file_system",
            "persistence",
        ];
        assert(checks@.len() == 6 && names@.len() == 6);
        let mut overall = HealthStatus::Healthy;
        let mut components: Vec<NamedComponent> = Vec::new();
        let mut i: usize = 0;
        while i < 6
            invariant
                0 <= i <= 6,
                checks@.len() == 6,
                names@.len() == 6,
                forall|j: int| 0 <= j < 6 ==> *(#[trigger] checks@[j]) == results[j],
                forall|j: int| 0 <= j < 6 ==> #[trigger] cs[j] == check_key(results[j]),
                names@ == seq![
                    "workspace_manager",
                    "task_manager",
                    "ipc_system",
                    "websocket_server",
                    "file_system",
                    "persistence",
                ],
                cs.len() == 6,
                results.len() == 6,
                counts_fit(f0, cs),
                self.wf(),
                self.history_view() == old(self).history_view(),
                components@.len() == i,
                overall == worst_of(cs.take(i as int)),
                forall|j: int| 0 <= j < i ==> (#[trigger] components@[j]).name@ == names@[j]@,
                forall|j: int|
                    0 <= j < i ==> #[trigger] components@[j].health.status == results[j].status
                        && components@[j].health.message@ == results[j].message@
                        && components@[j].health.response_time_ms == results[j].response_time_ms,
                forall|j: int|
                    0 <= j < i ==> #[trigger] components@[j].health.failure_count == failures_after(
                        f0,
                        cs.take(j + 1),
                        cs[j].0,
                    ),
                forall|j: int|
                    0 <= j < i ==> #[trigger] components@[j].health.last_success == success_after(
                        s0,
                        cs.take(j + 1),
                        last_successes(components@).take(j + 1),
                        cs[j].0,
                    ),
                forall|j: int|
                    0 <= j < i && cs[j].1 == HealthStatus::Healthy ==> (
                    #[trigger] components@[j]).health.last_success is Some,
                forall|k: Seq<char>| #[trigger] self.failures_of(k) == failures_after(f0, cs.take(i as int), k),
                forall|k: Seq<char>|
                    #[trigger] lookup(self.successes_view(), k) == success_after(
                        s0,
                        cs.take(i as int),
                        last_successes(components@),
                        k,
                    ),
            decreases 6 - i,
        {
            let check = checks[i];
            let name = names[i];
            assert(cs.take(i + 1).drop_last() =~= cs.take(i as int));
            assert(cs.take(i + 1).last() == cs[i as int]);
            let ghost before = components@;
            let ghost sm = self.successes_view();
            let ghost cn = cs[i as int].0;
            assert(lookup(sm, cn) == success_after(s0, cs.take(i as int), last_successes(before), cn));
            proof {
                assert(self.failures_of(cs[i as int].0) == failures_after(f0, cs.take(i as int), cs[i as int].0));
            }
            assert(*check == results[i as int]);
            assert(cs[i as int] == check_key(results[i as int]));
            self.add_component(&mut overall, &mut components, name, check);
            let ghost ls = last_successes(components@);
            assert(components@.drop_last() == before);
            assert forall|j: int| 0 <= j < i implies #[trigger] components@[j] == before[j] by {
                assert(components@.drop_last()[j] == components@[j]);
            }
            assert(components@[i as int] == components@.last());
            assert(components@[i as int].health.failure_count == failures_after(
                f0,
                cs.take(i + 1),
                cs[i as int].0,
            ));
            assert(ls.drop_last() =~= last_successes(before));
            assert forall|j: int| 0 <= j < i implies #[trigger] ls.take(j + 1) =~= last_successes(before).take(j + 1) by {
                assert forall|t: int| 0 <= t < j + 1 implies #[trigger] ls.take(j + 1)[t] == last_successes(before).take(j + 1)[t] by {
                    assert(components@[t] == before[t]);
                }
            }
            assert(ls.take(i + 1) =~= ls);
            assert forall|j: int|
                0 <= j < i + 1 implies #[trigger] components@[j].health.last_success == success_after(
                s0,
                cs.take(j + 1),
                ls.take(j + 1),
                cs[j].0,
            ) by {
                if j < i {
                    assert(components@[j] == before[j]);
                } else {
                    assert(cs.take(j + 1).last() == cs[j]);
                    assert(cs.take(j + 1).drop_last() =~= cs.take(i as int));
                    assert(ls.take(j + 1).drop_last() =~= last_successes(before));
                    assert(ls.take(j + 1).last() == components@[j].health.last_success);
                }
            }
            assert forall|k: Seq<char>|
                #[trigger] lookup(self.successes_view(), k) == success_after(s0, cs.take(i + 1), ls, k) by {
                assert(ls.drop_last() =~= last_successes(before));
            }
            i = i + 1;
        }
        assert(cs.take(6) =~= cs);
        proof {
            reveal_with_fuel(worst_of, 7);
        }
        HealthCheck { timestamp, overall_status: overall, components, check_duration_ms }
    }

    /// Adds one component's health to a check being built.
    fn add_component(
        &mut self,
        overall: &mut HealthStatus,
        components: &mut Vec<NamedComponent>,
        name: &str,
        check: &ComponentCheckResult,
    )
        requires
            old(self).wf(),
            check.status != HealthStatus::Healthy ==> old(self).failures_of(check.component_name@) < u32::MAX,
        ensures
            final(self).wf(),
            final(self).history_view() == old(self).history_view(),
            *final(overall) == worse(*old(overall), check.status),
            final(components)@.len() == old(components)@.len() + 1,
            final(components)@.drop_last() == old(components)@,
            final(components)@.last().name@ == name@,
            final(components)@.last().health.status == check.status,
            final(components)@.last().health.message@ == check.message@,
            final(components)@.last().health.response_time_ms == check.response_time_ms,
            final(components)@.last().health.failure_count == final(self).failures_of(check.component_name@),
            final(components)@.last().health.last_success == lookup(
                final(self).successes_view(),
                check.component_name@,
            ),
            check.status == HealthStatus::Healthy ==> final(components)@.last().health.last_success is Some,
            forall|k: Seq<char>|
                #[trigger] final(self).failures_of(k) == if k == check.component_name@ {
                    if check.status == HealthStatus::Healthy {
                        0
                    } else {
                        old(self).failures_of(k) + 1
                    }
                } else {
                    old(self).failures_of(k) as int
                },
            forall|k: Seq<char>|
                #[trigger] lookup(final(self).successes_view(), k) == if k == check.component_name@
                    && check.status == HealthStatus::Healthy {
                    final(components)@.last().health.last_success
                } else {
                    lookup(old(self).successes_view(), k)
                },
    {
        if check.status != HealthStatus::Healthy {
            *overall = worst_status(*overall, check.status);
        }
        let health = self.create_component_health(check);
        let ghost h = health;
        components.push(NamedComponent { name: String::from_str(name), health });
        assert(components@.drop_last() =~= old(components)@);
        assert(components@.last().health == h);
        assert forall|k: Seq<char>|
            #[trigger] lookup(self.successes_view(), k) == if k == check.component_name@ && check.status
                == HealthStatus::Healthy {
                h.last_success
            } else {
                lookup(old(self).successes_view(), k)
            } by {
            if k == check.component_name@ {
                assert(h.last_success == lookup(self.successes_view(), k));
                if check.status != HealthStatus::Healthy {
                    assert(h.last_success == lookup(old(self).successes_view(), k));
                }
            } else {
                assert(lookup(self.successes_view(), k) == lookup(old(self).successes_view(), k));
            }
        }
    }

    /// Adds a check to the history, dropping the oldest beyond the limit.
    pub fn update_health_history(&mut self, health_check: HealthCheck)
        requires
            old(self).wf(),
        ensures
            final(self).wf(),
            final(self).history_view() == history_after(old(self).history_view(), health_check),
            final(self).failures_view() == old(self).failures_view(),
            final(self).successes_view() == old(self).successes_view(),
    {
        self.health_history.push(health_check);
        if self.health_history.len() > HISTORY_LIMIT {
            self.health_history.remove(0);
            assert(self.health_history@ =~= history_after(old(self).history_view(), health_check));
        }
    }

    /// The most recent check, if any.
    pub fn get_latest_health_check(&self) -> (r: Option<HealthCheck>)
        ensures
            match r {
                None => self.history_view().len() == 0,
                Some(c) => self.history_view().len() > 0 && same_check(c, self.history_view().last()),
            },
    {
        if self.health_history.len() == 0 {
            None
        } else {
            Some(self.health_history[self.health_history.len() - 1].clone())
        }
    }

    /// The most recent checks, newest first: all of them, or at most `limit`.
    pub fn get_health_history(&self, limit: Option<usize>) -> (r: Vec<HealthCheck>)
        ensures
            r@.len() == match limit {
                Some(l) => if l < self.history_view().len() {
                    l as int
                } else {
                    self.history_view().len() as int
                },
                None => self.history_view().len() as int,
            },
            forall|i: int|
                0 <= i < r@.len() ==> same_check(
                    #[trigger] r@[i],
                    self.history_view()[self.history_view().len() - 1 - i],
                ),
    {
        let n = self.health_history.len();
        let count = match limit {
            Some(l) => if l < n {
                l
            } else {
                n
            },
            None => n,
        };
        let mut r: Vec<HealthCheck> = Vec::new();
        let mut i: usize = 0;
        while i < count
            invariant
                0 <= i <= count <= n,
                n == self.health_history@.len(),
                r@.len() == i,
                forall|j: int|
                    0 <= j < i ==> same_check(#[trigger] r@[j], self.health_history@[n - 1 - j]),
            decreases count - i,
        {
            r.push(self.health_history[n - 1 - i].clone());
            i = i + 1;
        }
        r
    }
}

} // verus!
