//! Raising and resolving alerts from metrics.
//!
//! Comparing floating-point readings against their thresholds happens
//! outside; this module receives the outcome of those comparisons (and the
//! readings' text where a message shows them), decides which alerts to raise
//! or resolve, holds back repeats, and keeps the active alerts and the history.

use super::health::{Detail, DetailValue, DetailView, details_view};
use super::{AlertSeverity, ProcessStatus};
use crate::assoc::{get_value, keys_distinct, lookup, pairs_view, set_value};
use crate::text::{contains_str, decimal, eq_str, eq_string, push_decimal, seq_contains};
use vstd::prelude::*;

verus! {

/// How long an alert is held back after it was raised, in seconds.
pub const ALERT_COOLDOWN_SECS: u64 = 300;

/// Beyond this many alerts in the history, the oldest are dropped.
pub const HISTORY_MAX: usize = 1000;

/// How many of the oldest alerts are dropped at once.
pub const HISTORY_DROP: usize = 100;

/// An alert.
#[derive(Debug)]
pub struct Alert {
    pub id: String,
    pub severity: AlertSeverity,
    pub category: String,
    pub message: String,
    pub component: Option<String>,
    /// When it was raised, in seconds since the epoch.
    pub timestamp: u64,
    pub data: Vec<Detail>,
    pub resolved: bool,
    pub resolved_at: Option<u64>,
}

/// An alert as plain values.
pub struct AlertView {
    pub id: Seq<char>,
    pub severity: AlertSeverity,
    pub category: Seq<char>,
    pub message: Seq<char>,
    pub component: Option<Seq<char>>,
    pub timestamp: u64,
    pub data: Seq<(Seq<char>, DetailView)>,
    pub resolved: bool,
    pub resolved_at: Option<u64>,
}

pub open spec fn opt_view(o: Option<String>) -> Option<Seq<char>> {
    match o {
        Some(s) => Some(s@),
        None => None,
    }
}

pub open spec fn alerts_view(v: Seq<Alert>) -> Seq<AlertView> {
    v.map_values(|a: Alert| a@)
}

impl View for Alert {
    type V = AlertView;

    open spec fn view(&self) -> AlertView {
        AlertView {
            id: self.id@,
            severity: self.severity,
            category: self.category@,
            message: self.message@,
            component: opt_view(self.component),
            timestamp: self.timestamp,
            data: details_view(self.data@),
            resolved: self.resolved,
            resolved_at: self.resolved_at,
        }
    }
}

fn clone_details(d: &Vec<Detail>) -> (r: Vec<Detail>)
    ensures
        details_view(r@) == details_view(d@),
{
    let mut r: Vec<Detail> = Vec::new();
    let mut i: usize = 0;
    while i < d.len()
        invariant
            0 <= i <= d@.len(),
            r@.len() == i,
            forall|j: int| 0 <= j < i ==> (#[trigger] r@[j]).key@ == d@[j].key@ && r@[j].value@ == d@[j].value@,
        decreases d.len() - i,
    {
        let v = match &d[i].value {
            DetailValue::Number(n) => DetailValue::Number(*n),
            DetailValue::Text(s) => DetailValue::Text(s.clone()),
            DetailValue::Flag(b) => DetailValue::Flag(*b),
            DetailValue::Real(s) => DetailValue::Real(s.clone()),
            DetailValue::Signed(n) => DetailValue::Signed(*n),
            DetailValue::Null => DetailValue::Null,
        };
        r.push(Detail { key: d[i].key.clone(), value: v });
        i = i + 1;
    }
    assert(details_view(r@) =~= details_view(d@));
    r
}

impl Clone for Alert {
    fn clone(&self) -> (r: Self)
        ensures
            r@ == self@,
    {
        Alert {
            id: self.id.clone(),
            severity: self.severity,
            category: self.category.clone(),
            message: self.message.clone(),
            component: match &self.component {
                Some(c) => Some(c.clone()),
                None => None,
            },
            timestamp: self.timestamp,
            data: clone_details(&self.data),
            resolved: self.resolved,
            resolved_at: self.resolved_at,
        }
    }
}

/// An alert that the readings call for, before the cooldown and the active
/// alerts decide whether it is raised.
#[derive(Debug)]
pub struct AlertRequest {
    pub id: String,
    pub severity: AlertSeverity,
    pub category: String,
    pub message: String,
    pub component: Option<String>,
    pub data: Vec<Detail>,
}

/// An alert request as plain values.
pub struct RequestView {
    pub id: Seq<char>,
    pub severity: AlertSeverity,
    pub category: Seq<char>,
    pub message: Seq<char>,
    pub component: Option<Seq<char>>,
    pub data: Seq<(Seq<char>, DetailView)>,
}

impl View for AlertRequest {
    type V = RequestView;

    open spec fn view(&self) -> RequestView {
        RequestView {
            id: self.id@,
            severity: self.severity,
            category: self.category@,
            message: self.message@,
            component: opt_view(self.component),
            data: details_view(self.data@),
        }
    }
}

pub open spec fn requests_view(v: Seq<AlertRequest>) -> Seq<RequestView> {
    v.map_values(|r: AlertRequest| r@)
}

/// What the alert manager holds, as plain values.
#[verifier::ext_equal]
pub struct AlertState {
    pub active: Seq<AlertView>,
    pub history: Seq<AlertView>,
    /// When each alert id was last raised.
    pub last_raised: Map<Seq<char>, u64>,
}

/// Whether an alert with this id is active.
pub open spec fn is_active(active: Seq<AlertView>, id: Seq<char>) -> bool {
    exists|i: int| 0 <= i < active.len() && (#[trigger] active[i]).id == id
}

/// Whether a request is held back at time `now`: it was raised less than the
/// cooldown ago, or it is still active.
pub open spec fn held_back(s: AlertState, id: Seq<char>, now: u64) -> bool {
    (s.last_raised.contains_key(id) && now - s.last_raised[id] < ALERT_COOLDOWN_SECS) || is_active(
        s.active,
        id,
    )
}

/// The alert that a request raises at time `now`.
pub open spec fn raised(r: RequestView, now: u64) -> AlertView {
    AlertView {
        id: r.id,
        severity: r.severity,
        category: r.category,
        message: r.message,
        component: r.component,
        timestamp: now,
        data: r.data,
        resolved: false,
        resolved_at: None,
    }
}

/// The history with one more alert, the oldest dropped when it grows past the maximum.
pub open spec fn history_with(h: Seq<AlertView>, a: AlertView) -> Seq<AlertView> {
    if h.len() + 1 > HISTORY_MAX {
        h.push(a).subrange(HISTORY_DROP as int, h.len() + 1int)
    } else {
        h.push(a)
    }
}

/// The state after a request at time `now`.
pub open spec fn after_request(s: AlertState, r: RequestView, now: u64) -> AlertState {
    if held_back(s, r.id, now) {
        s
    } else {
        AlertState {
            active: s.active.push(raised(r, now)),
            history: history_with(s.history, raised(r, now)),
            last_raised: s.last_raised.insert(r.id, now),
        }
    }
}

/// The state after requests taken in order at time `now`.
pub open spec fn after_requests(s: AlertState, rs: Seq<RequestView>, now: u64) -> AlertState
    decreases rs.len(),
{
    if rs.len() == 0 {
        s
    } else {
        after_request(after_requests(s, rs.drop_last(), now), rs.last(), now)
    }
}

/// The alerts raised by requests taken in order at time `now`: one for each
/// request not held back when it is taken.
pub open spec fn raised_by(s: AlertState, rs: Seq<RequestView>, now: u64) -> Seq<AlertView>
    decreases rs.len(),
{
    if rs.len() == 0 {
        Seq::empty()
    } else if held_back(after_requests(s, rs.drop_last(), now), rs.last().id, now) {
        raised_by(s, rs.drop_last(), now)
    } else {
        raised_by(s, rs.drop_last(), now).push(raised(rs.last(), now))
    }
}

/// What the system readings showed, each comparison already made.
#[derive(Debug)]
pub struct SystemReadings {
    /// CPU usage above its threshold: the message and data of the alert.
    pub cpu_high: Option<(String, Vec<Detail>)>,
    /// Memory usage above its threshold: the message and data of the alert.
    pub memory_high: Option<(String, Vec<Detail>)>,
    /// Disk usage above its threshold: the message and data of the alert.
    pub disk_high: Option<(String, Vec<Detail>)>,
}

/// What was read of one process.
#[derive(Debug)]
pub struct ProcessReading {
    pub name: String,
    pub pid: u32,
    pub restart_count: u32,
    pub status: ProcessStatus,
    /// CPU usage above the per-process threshold (80%).
    pub cpu_high: bool,
    /// CPU usage at or below 70%, low enough to resolve a CPU alert.
    pub cpu_recovered: bool,
    /// The CPU usage with two decimals, as messages show it.
    pub cpu_text: String,
    /// The CPU usage as a JSON number.
    pub cpu_json: String,
}

/// What readings show about active alerts.
#[derive(Debug)]
pub struct RecoveryReadings {
    /// CPU usage at or below 90% of its threshold.
    pub cpu_recovered: bool,
    /// Memory usage at or below 90% of its threshold.
    pub memory_recovered: bool,
    /// Disk usage at or below 90% of its threshold.
    pub disk_recovered: bool,
    pub processes: Vec<ProcessReading>,
}

pub open spec fn system_request(id: Seq<char>, severity: AlertSeverity, m: (String, Vec<Detail>)) -> RequestView {
    RequestView {
        id,
        severity,
        category: "System"@,
        message: m.0@,
        component: Some("system"@),
        data: details_view(m.1@),
    }
}

/// The alerts that system readings call for, in the order CPU, memory, disk.
pub open spec fn system_requests(r: SystemReadings) -> Seq<RequestView> {
    (match r.cpu_high {
        Some(m) => seq![system_request("system_cpu_high"@, AlertSeverity::Warning, m)],
        None => Seq::empty(),
    }) + (match r.memory_high {
        Some(m) => seq![system_request("system_memory_high"@, AlertSeverity::Warning, m)],
        None => Seq::empty(),
    }) + (match r.disk_high {
        Some(m) => seq![system_request("system_disk_high"@, AlertSeverity::Critical, m)],
        None => Seq::empty(),
    })
}

/// The alerts that one process's readings call for: too many restarts, failure,
/// high CPU usage, in that order.
pub open spec fn process_requests(p: ProcessReading, restart_threshold: u32) -> Seq<RequestView> {
    let name = p.name@;
    (if p.restart_count > restart_threshold {
        seq![
            RequestView {
                id: "process_restart_"@ + name,
                severity: AlertSeverity::Error,
                category: "Process"@,
                message: "Process "@ + name + " has restarted "@ + decimal(p.restart_count as nat)
                    + " times (threshold: "@ + decimal(restart_threshold as nat) + ")"@,
                component: Some(name),
                data: seq![
                    ("process_name"@, DetailView::Text(name)),
                    ("restart_count"@, DetailView::Number(p.restart_count as nat)),
                    ("threshold"@, DetailView::Number(restart_threshold as nat)),
                ],
            },
        ]
    } else {
        Seq::empty()
    }) + (if p.status == ProcessStatus::Failed {
        seq![
            RequestView {
                id: "process_failed_"@ + name,
                severity: AlertSeverity::Critical,
                category: "Process"@,
                message: "Process "@ + name + " has failed"@,
                component: Some(name),
                data: seq![
                    ("process_name"@, DetailView::Text(name)),
                    ("pid"@, DetailView::Number(p.pid as nat)),
                    ("status"@, DetailView::Text("failed"@)),
                ],
            },
        ]
    } else {
        Seq::empty()
    }) + (if p.cpu_high {
        seq![
            RequestView {
                id: "process_cpu_high_"@ + name,
                severity: AlertSeverity::Warning,
                category: "Process"@,
                message: "Process "@ + name + " high CPU usage: "@ + p.cpu_text@ + "%"@,
                component: Some(name),
                data: seq![
                    ("process_name"@, DetailView::Text(name)),
                    ("cpu_usage"@, DetailView::Real(p.cpu_json@)),
                    ("pid"@, DetailView::Number(p.pid as nat)),
                ],
            },
        ]
    } else {
        Seq::empty()
    })
}

/// The alerts that all processes call for, process after process.
pub open spec fn all_process_requests(ps: Seq<ProcessReading>, restart_threshold: u32) -> Seq<RequestView>
    decreases ps.len(),
{
    if ps.len() == 0 {
        Seq::empty()
    } else {
        all_process_requests(ps.drop_last(), restart_threshold) + process_requests(ps.last(), restart_threshold)
    }
}

/// Whether the readings allow an active alert to be resolved.
pub open spec fn should_resolve(a: AlertView, r: RecoveryReadings) -> bool {
    if a.category == "System"@ {
        (a.id == "system_cpu_high"@ && r.cpu_recovered) || (a.id == "system_memory_high"@
            && r.memory_recovered) || (a.id == "system_disk_high"@ && r.disk_recovered)
    } else if a.category == "Process"@ {
        exists|i: int|
            0 <= i < r.processes@.len() && #[trigger] process_resolves(a.id, r.processes@[i])
    } else {
        false
    }
}

/// Whether a process's readings resolve the alert with this id.
pub open spec fn process_resolves(id: Seq<char>, p: ProcessReading) -> bool {
    seq_contains(id, p.name@) && ((seq_contains(id, "failed"@) && p.status == ProcessStatus::Running)
        || (seq_contains(id, "cpu_high"@) && p.cpu_recovered))
}

/// The active alerts that stay, in order.
pub open spec fn staying(active: Seq<AlertView>, r: RecoveryReadings) -> Seq<AlertView>
    decreases active.len(),
{
    if active.len() == 0 {
        active
    } else if should_resolve(active.last(), r) {
        staying(active.drop_last(), r)
    } else {
        staying(active.drop_last(), r).push(active.last())
    }
}

/// The active alerts that are resolved, in order, marked resolved at `now`.
pub open spec fn resolved_now(active: Seq<AlertView>, r: RecoveryReadings, now: u64) -> Seq<AlertView>
    decreases active.len(),
{
    if active.len() == 0 {
        active
    } else if should_resolve(active.last(), r) {
        resolved_now(active.drop_last(), r, now).push(
            AlertView { resolved: true, resolved_at: Some(now), ..active.last() },
        )
    } else {
        resolved_now(active.drop_last(), r, now)
    }
}

proof fn lemma_push_contains(s: Seq<AlertView>, a: AlertView, x: AlertView)
    ensures
        s.push(a).contains(x) <==> (s.contains(x) || x == a),
{
    if s.contains(x) {
        let k = choose|k: int| 0 <= k < s.len() && s[k] == x;
        assert(s.push(a)[k] == x);
    }
    if x == a {
        assert(s.push(a)[s.len() as int] == x);
    }
    if s.push(a).contains(x) && x != a {
        let k = choose|k: int| 0 <= k < s.push(a).len() && s.push(a)[k] == x;
        assert(k < s.len());
        assert(s[k] == x);
    }
}

proof fn lemma_staying_contains(active: Seq<AlertView>, r: RecoveryReadings, x: AlertView)
    ensures
        staying(active, r).contains(x) <==> (active.contains(x) && !should_resolve(x, r)),
    decreases active.len(),
{
    if active.len() == 0 {
        assert(!staying(active, r).contains(x));
    } else {
        let t = active.drop_last();
        let l = active.last();
        lemma_staying_contains(t, r, x);
        assert(active =~= t.push(l));
        lemma_push_contains(t, l, x);
        if !should_resolve(l, r) {
            lemma_push_contains(staying(t, r), l, x);
        }
    }
}

proof fn lemma_resolved_contains(active: Seq<AlertView>, r: RecoveryReadings, now: u64, i: int)
    requires
        0 <= i < active.len(),
        should_resolve(active[i], r),
    ensures
        resolved_now(active, r, now).contains(AlertView { resolved: true, resolved_at: Some(now), ..active[i] }),
    decreases active.len(),
{
    let m = AlertView { resolved: true, resolved_at: Some(now), ..active[i] };
    let t = active.drop_last();
    if i == active.len() - 1 {
        let s = resolved_now(active, r, now);
        assert(s == resolved_now(t, r, now).push(m));
        assert(s[s.len() - 1] == m);
    } else {
        assert(t[i] == active[i]);
        lemma_resolved_contains(t, r, now, i);
        let k = choose|k: int| 0 <= k < resolved_now(t, r, now).len() && resolved_now(t, r, now)[k] == m;
        let s = resolved_now(active, r, now);
        if should_resolve(active.last(), r) {
            assert(s[k] == m);
        } else {
            assert(s[k] == m);
        }
    }
}

/// A system alert is resolved exactly when the reading it is about has
/// recovered: CPU usage for `system_cpu_high`, memory for
/// `system_memory_high`, disk usage for `system_disk_high`. Resolved, it
/// leaves the active alerts and is returned marked resolved at `now`; any
/// other system alert stays active.
pub proof fn system_alerts_resolve_on_recovery(active: Seq<AlertView>, r: RecoveryReadings, now: u64, i: int)
    requires
        0 <= i < active.len(),
        active[i].category == "System"@,
    ensures
        ((active[i].id == "system_cpu_high"@ && r.cpu_recovered) || (active[i].id
            == "system_memory_high"@ && r.memory_recovered) || (active[i].id == "system_disk_high"@
            && r.disk_recovered)) ==> !staying(active, r).contains(active[i]) && resolved_now(
            active,
            r,
            now,
        ).contains(AlertView { resolved: true, resolved_at: Some(now), ..active[i] }),
        !((active[i].id == "system_cpu_high"@ && r.cpu_recovered) || (active[i].id
            == "system_memory_high"@ && r.memory_recovered) || (active[i].id == "system_disk_high"@
            && r.disk_recovered)) ==> staying(active, r).contains(active[i]),
{
    lemma_staying_contains(active, r, active[i]);
    assert(active.contains(active[i]));
    if should_resolve(active[i], r) {
        lemma_resolved_contains(active, r, now, i);
    }
}

/// A process alert is resolved when a reading of a process named in its id
/// shows the process running again (for a failure alert, whose id holds
/// `failed`) or its CPU usage recovered (for a CPU alert, whose id holds
/// `cpu_high`); with no such reading it stays. Alerts of any other category
/// than system and process are never resolved by readings.
pub proof fn process_and_other_alerts_on_recovery(active: Seq<AlertView>, r: RecoveryReadings, now: u64, i: int)
    requires
        0 <= i < active.len(),
    ensures
        active[i].category != "System"@ && active[i].category != "Process"@ ==> staying(
            active,
            r,
        ).contains(active[i]),
        active[i].category == "Process"@ ==> ((exists|j: int|
            0 <= j < r.processes@.len() && seq_contains(active[i].id, (#[trigger] r.processes@[j]).name@) && (
            (seq_contains(active[i].id, "failed"@) && r.processes@[j].status == ProcessStatus::Running) || (
            seq_contains(active[i].id, "cpu_high"@) && r.processes@[j].cpu_recovered))) <==> !staying(
            active,
            r,
        ).contains(active[i])),
{
    lemma_staying_contains(active, r, active[i]);
    assert(active.contains(active[i]));
    reveal_strlit("System");
    reveal_strlit("Process");
    assert("System"@[0] != "Process"@[0]);
    let a = active[i];
    if a.category == "Process"@ {
        if exists|j: int|
            0 <= j < r.processes@.len() && seq_contains(a.id, (#[trigger] r.processes@[j]).name@) && (
            (seq_contains(a.id, "failed"@) && r.processes@[j].status == ProcessStatus::Running) || (
            seq_contains(a.id, "cpu_high"@) && r.processes@[j].cpu_recovered)) {
            let j = choose|j: int|
                0 <= j < r.processes@.len() && seq_contains(a.id, (#[trigger] r.processes@[j]).name@) && (
                (seq_contains(a.id, "failed"@) && r.processes@[j].status == ProcessStatus::Running) || (
                seq_contains(a.id, "cpu_high"@) && r.processes@[j].cpu_recovered));
            assert(process_resolves(a.id, r.processes@[j]));
        }
        if should_resolve(a, r) {
            let j = choose|j: int| 0 <= j < r.processes@.len() && #[trigger] process_resolves(a.id, r.processes@[j]);
            assert(seq_contains(a.id, r.processes@[j].name@));
        }
    }
}

/// Raises alerts from metrics, holds back repeats, and resolves alerts.
pub struct AlertManager {
    /// More restarts than this raise an alert.
    restart_threshold: u32,
    /// Active alerts; no id occurs twice.
    active_alerts: Vec<Alert>,
    alert_history: Vec<Alert>,
    /// When each alert id was last raised.
    last_alert_times: Vec<(String, u64)>,
}

fn request(id: String, severity: AlertSeverity, category: &str, message: String, component: Option<String>, data: Vec<Detail>) -> (r: AlertRequest)
    ensures
        r.id@ == id@,
        r.severity == severity,
        r.category@ == category@,
        r.message@ == message@,
        opt_view(r.component) == opt_view(component),
        r.data@ == data@,
{
    AlertRequest { id, severity, category: String::from_str(category), message, component, data }
}

fn prefixed(prefix: &str, name: &String) -> (s: String)
    ensures
        s@ == prefix@ + name@,
{
    let mut s = String::from_str(prefix);
    s.append(name.as_str());
    s
}

fn restart_request(p: &ProcessReading, threshold: u32) -> (q: AlertRequest)
    ensures
        q@ == (RequestView {
            id: "process_restart_"@ + p.name@,
            severity: AlertSeverity::Error,
            category: "Process"@,
            message: "Process "@ + p.name@ + " has restarted "@ + decimal(p.restart_count as nat)
                + " times (threshold: "@ + decimal(threshold as nat) + ")"@,
            component: Some(p.name@),
            data: seq![
                ("process_name"@, DetailView::Text(p.name@)),
                ("restart_count"@, DetailView::Number(p.restart_count as nat)),
                ("threshold"@, DetailView::Number(threshold as nat)),
            ],
        }),
{
    let name = &p.name;
    let mut m = prefixed("Process ", name);
    m.append(" has restarted ");
    push_decimal(&mut m, p.restart_count as u64);
    m.append(" times (threshold: ");
    push_decimal(&mut m, threshold as u64);
    m.append(")");
    let data = vec![
        Detail { key: String::from_str("process_name"), value: DetailValue::Text(name.clone()) },
        Detail { key: String::from_str("restart_count"), value: DetailValue::Number(p.restart_count as u64) },
        Detail { key: String::from_str("threshold"), value: DetailValue::Number(threshold as u64) },
    ];
    let q = request(prefixed("process_restart_", name), AlertSeverity::Error, "Process", m, Some(name.clone()), data);
    assert(q@.data =~= seq![
        ("process_name"@, DetailView::Text(p.name@)),
        ("restart_count"@, DetailView::Number(p.restart_count as nat)),
        ("threshold"@, DetailView::Number(threshold as nat)),
    ]);
    q
}

fn failed_request(p: &ProcessReading) -> (q: AlertRequest)
    ensures
        q@ == (RequestView {
            id: "process_failed_"@ + p.name@,
            severity: AlertSeverity::Critical,
            category: "Process"@,
            message: "Process "@ + p.name@ + " has failed"@,
            component: Some(p.name@),
            data: seq![
                ("process_name"@, DetailView::Text(p.name@)),
                ("pid"@, DetailView::Number(p.pid as nat)),
                ("status"@, DetailView::Text("failed"@)),
            ],
        }),
{
    let name = &p.name;
    let mut m = prefixed("Process ", name);
    m.append(" has failed");
    let data = vec![
        Detail { key: String::from_str("process_name"), value: DetailValue::Text(name.clone()) },
        Detail { key: String::from_str("pid"), value: DetailValue::Number(p.pid as u64) },
        Detail { key: String::from_str("status"), value: DetailValue::Text(String::from_str("failed")) },
    ];
    let q = request(prefixed("process_failed_", name), AlertSeverity::Critical, "Process", m, Some(name.clone()), data);
    assert(q@.data =~= seq![
        ("process_name"@, DetailView::Text(p.name@)),
        ("pid"@, DetailView::Number(p.pid as nat)),
        ("status"@, DetailView::Text("failed"@)),
    ]);
    q
}

fn cpu_request(p: &ProcessReading) -> (q: AlertRequest)
    ensures
        q@ == (RequestView {
            id: "process_cpu_high_"@ + p.name@,
            severity: AlertSeverity::Warning,
            category: "Process"@,
            message: "Process "@ + p.name@ + " high CPU usage: "@ + p.cpu_text@ + "%"@,
            component: Some(p.name@),
            data: seq![
                ("process_name"@, DetailView::Text(p.name@)),
                ("cpu_usage"@, DetailView::Real(p.cpu_json@)),
                ("pid"@, DetailView::Number(p.pid as nat)),
            ],
        }),
{
    let name = &p.name;
    let mut m = prefixed("Process ", name);
    m.append(" high CPU usage: ");
    m.append(p.cpu_text.as_str());
    m.append("%");
    let data = vec![
        Detail { key: String::from_str("process_name"), value: DetailValue::Text(name.clone()) },
        Detail { key: String::from_str("cpu_usage"), value: DetailValue::Real(p.cpu_json.clone()) },
        Detail { key: String::from_str("pid"), value: DetailValue::Number(p.pid as u64) },
    ];
    let q = request(prefixed("process_cpu_high_", name), AlertSeverity::Warning, "Process", m, Some(name.clone()), data);
    assert(q@.data =~= seq![
        ("process_name"@, DetailView::Text(p.name@)),
        ("cpu_usage"@, DetailView::Real(p.cpu_json@)),
        ("pid"@, DetailView::Number(p.pid as nat)),
    ]);
    q
}

impl AlertManager {
    pub closed spec fn state(&self) -> AlertState {
        AlertState {
            active: alerts_view(self.active_alerts@),
            history: alerts_view(self.alert_history@),
            last_raised: Map::new(
                |k: Seq<char>| lookup(pairs_view(self.last_alert_times@), k) is Some,
                |k: Seq<char>| lookup(pairs_view(self.last_alert_times@), k)->Some_0,
            ),
        }
    }

    pub closed spec fn restart_threshold_spec(&self) -> u32 {
        self.restart_threshold
    }

    pub closed spec fn wf(&self) -> bool {
        keys_distinct(pairs_view(self.last_alert_times@))
    }

    /// A manager with no alerts; more than `restart_threshold` restarts of a
    /// process raise an alert.
    pub fn new(restart_threshold: u32) -> (r: Self)
        ensures
            r.wf(),
            r.restart_threshold_spec() == restart_threshold,
            r.state().active.len() == 0,
            r.state().history.len() == 0,
            r.state().last_raised == Map::<Seq<char>, u64>::empty(),
    {
        let r = AlertManager {
            restart_threshold,
            active_alerts: Vec::new(),
            alert_history: Vec::new(),
            last_alert_times: Vec::new(),
        };
        assert(r.state().last_raised =~= Map::<Seq<char>, u64>::empty());
        r
    }

    fn find_active(&self, id: &String) -> (r: Option<usize>)
        ensures
            match r {
                Some(i) => i < self.active_alerts@.len() && self.active_alerts@[i as int].id@ == id@,
                None => !is_active(self.state().active, id@),
            },
    {
        let mut i: usize = 0;
        while i < self.active_alerts.len()
            invariant
                0 <= i <= self.active_alerts@.len(),
                forall|j: int| 0 <= j < i ==> #[trigger] self.active_alerts@[j].id@ != id@,
            decreases self.active_alerts.len() - i,
        {
            if eq_string(&self.active_alerts[i].id, id) {
                return Some(i);
            }
            i = i + 1;
        }
        assert forall|j: int| 0 <= j < self.state().active.len() implies (
        #[trigger] self.state().active[j]).id != id@ by {
            assert(self.state().active[j] == self.active_alerts@[j]@);
        }
        None
    }

    /// Raises the requested alert at time `now` unless it was raised less than
    /// `ALERT_COOLDOWN_SECS` ago or is still active; returns the alert when it is
    /// raised, to be sent to the notification senders.
    pub fn create_alert_if_needed(&mut self, req: AlertRequest, now: u64) -> (r: Option<Alert>)
        requires
            old(self).wf(),
            old(self).state().last_raised.contains_key(req.id@) ==> now >= old(
                self,
            ).state().last_raised[req.id@],
        ensures
            final(self).wf(),
            final(self).restart_threshold_spec() == old(self).restart_threshold_spec(),
            final(self).state() == after_request(old(self).state(), req@, now),
            match r {
                Some(a) => !held_back(old(self).state(), req.id@, now) && a@ == raised(req@, now),
                None => held_back(old(self).state(), req.id@, now),
            },
    {
        let ghost s0 = self.state();
        let last = get_value(&self.last_alert_times, req.id.as_str());
        if let Some(t) = last {
            if now - t < ALERT_COOLDOWN_SECS {
                return None;
            }
        }
        if self.find_active(&req.id).is_some() {
            proof {
                let i = choose|i: int| 0 <= i < self.active_alerts@.len() && self.active_alerts@[i].id@ == req.id@;
                assert(s0.active[i] == self.active_alerts@[i]@);
            }
            return None;
        }
        let alert = Alert {
            id: req.id.clone(),
            severity: req.severity,
            category: req.category,
            message: req.message,
            component: req.component,
            timestamp: now,
            data: req.data,
            resolved: false,
            resolved_at: None,
        };
        let ghost av = alert@;
        assert(av == raised(req@, now));
        self.active_alerts.push(alert.clone());
        set_value(&mut self.last_alert_times, req.id, now);
        self.alert_history.push(alert.clone());
        let ghost hist_pushed = self.alert_history@;
        if self.alert_history.len() > HISTORY_MAX {
            let mut kept: Vec<Alert> = Vec::new();
            let mut i: usize = HISTORY_DROP;
            while i < self.alert_history.len()
                invariant
                    HISTORY_DROP <= i <= self.alert_history@.len(),
                    self.alert_history@ == hist_pushed,
                    kept@.len() == i - HISTORY_DROP,
                    forall|j: int| 0 <= j < kept@.len() ==> (#[trigger] kept@[j])@ == hist_pushed[j + HISTORY_DROP]@,
                decreases self.alert_history.len() - i,
            {
                let c = self.alert_history[i].clone();
                kept.push(c);
                i = i + 1;
            }
            assert(alerts_view(kept@) =~= alerts_view(hist_pushed).subrange(HISTORY_DROP as int, hist_pushed.len() as int));
            self.alert_history = kept;
        }
        proof {
            let s1 = self.state();
            let expected = after_request(s0, req@, now);
            assert(s1.active =~= expected.active);
            assert(s1.history =~= expected.history);
            assert(s1.last_raised =~= expected.last_raised);
        }
        Some(alert)
    }

    /// The alerts that system readings call for.
    pub fn system_alert_requests(readings: SystemReadings) -> (r: Vec<AlertRequest>)
        ensures
            requests_view(r@) == system_requests(readings),
    {
        let ghost g = readings;
        let mut r: Vec<AlertRequest> = Vec::new();
        if let Some((m, d)) = readings.cpu_high {
            r.push(request(String::from_str("system_cpu_high"), AlertSeverity::Warning, "System", m, Some(String::from_str("system")), d));
        }
        let ghost after_cpu = requests_view(r@);
        if let Some((m, d)) = readings.memory_high {
            r.push(request(String::from_str("system_memory_high"), AlertSeverity::Warning, "System", m, Some(String::from_str("system")), d));
        }
        let ghost after_memory = requests_view(r@);
        if let Some((m, d)) = readings.disk_high {
            r.push(request(String::from_str("system_disk_high"), AlertSeverity::Critical, "System", m, Some(String::from_str("system")), d));
        }
        assert(requests_view(r@) =~= system_requests(g));
        r
    }

    /// The alerts that one process's readings call for.
    pub fn process_alert_requests(&self, p: &ProcessReading) -> (r: Vec<AlertRequest>)
        ensures
            requests_view(r@) == process_requests(*p, self.restart_threshold_spec()),
    {
        let ghost pr = process_requests(*p, self.restart_threshold_spec());
        let mut r: Vec<AlertRequest> = Vec::new();
        let ghost part1: Seq<RequestView> = if p.restart_count > self.restart_threshold {
            seq![pr[0]]
        } else {
            Seq::empty()
        };
        if p.restart_count > self.restart_threshold {
            let q = restart_request(p, self.restart_threshold);
            r.push(q);
        }
        assert(requests_view(r@) =~= (if p.restart_count > self.restart_threshold_spec() {
            seq![process_requests(*p, self.restart_threshold_spec())[0]]
        } else {
            Seq::<RequestView>::empty()
        }));
        let ghost after1 = requests_view(r@);
        if p.status == ProcessStatus::Failed {
            let q = failed_request(p);
            r.push(q);
            assert(requests_view(r@) =~= after1.push(q@));
        }
        let ghost after2 = requests_view(r@);
        if p.cpu_high {
            let q = cpu_request(p);
            r.push(q);
            assert(requests_view(r@) =~= after2.push(q@));
        }
        assert(requests_view(r@) =~= process_requests(*p, self.restart_threshold_spec()));
        r
    }

    /// Raises, in order, the alerts that `requests` call for at time `now`,
    /// returning those raised.
    pub fn raise_all(&mut self, requests: Vec<AlertRequest>, now: u64) -> (raised_alerts: Vec<Alert>)
        requires
            old(self).wf(),
            forall|k: Seq<char>| #[trigger] old(self).state().last_raised.contains_key(k) ==> now >= old(self).state().last_raised[k],
        ensures
            final(self).wf(),
            final(self).restart_threshold_spec() == old(self).restart_threshold_spec(),
            final(self).state() == after_requests(old(self).state(), requests_view(requests@), now),
            alerts_view(raised_alerts@) == raised_by(old(self).state(), requests_view(requests@), now),
    {
        let ghost s0 = self.state();
        let ghost rs = requests_view(requests@);
        let mut out: Vec<Alert> = Vec::new();
        let mut reqs = requests;
        let mut remaining: Vec<AlertRequest> = Vec::new();
        // Take the requests out in order.
        let n = reqs.len();
        let mut i: usize = 0;
        while i < n
            invariant
                n == rs.len(),
                reqs@.len() == n - i,
                0 <= i <= n,
                forall|j: int| 0 <= j < n - i ==> #[trigger] reqs@[j]@ == rs[j],
                remaining@.len() == i,
                forall|j: int| 0 <= j < i ==> #[trigger] remaining@[j]@ == rs[n - 1 - j],
            decreases n - i,
        {
            let r = reqs.pop().unwrap();
            assert(r@ == rs[n - 1 - i]);
            remaining.push(r);
            i = i + 1;
        }
        // `remaining` now holds the requests last to first.
        let mut k: usize = 0;
        while k < n
            invariant
                n == rs.len(),
                remaining@.len() == n - k,
                0 <= k <= n,
                forall|j: int| 0 <= j < n - k ==> #[trigger] remaining@[j]@ == rs[n - 1 - j],
                self.wf(),
                self.restart_threshold_spec() == old(self).restart_threshold_spec(),
                self.state() == after_requests(s0, rs.take(k as int), now),
                alerts_view(out@) == raised_by(s0, rs.take(k as int), now),
                forall|key: Seq<char>| #[trigger] self.state().last_raised.contains_key(key) ==> now >= self.state().last_raised[key],
            decreases n - k,
        {
            let r = remaining.pop().unwrap();
            assert(r@ == rs[k as int]);
            assert(rs.take(k + 1).drop_last() =~= rs.take(k as int));
            assert(rs.take(k + 1).last() == rs[k as int]);
            let ghost before = alerts_view(out@);
            let res = self.create_alert_if_needed(r, now);
            if let Some(a) = res {
                out.push(a);
                assert(alerts_view(out@) =~= before.push(a@));
            }
            k = k + 1;
        }
        assert(rs.take(n as int) =~= rs);
        out
    }

    /// Raises the system alerts that the readings call for at time `now`
    /// (CPU, memory, disk), returning those raised.
    pub fn check_system_alerts(&mut self, readings: SystemReadings, now: u64) -> (raised_alerts: Vec<Alert>)
        requires
            old(self).wf(),
            forall|k: Seq<char>| #[trigger] old(self).state().last_raised.contains_key(k) ==> now >= old(self).state().last_raised[k],
        ensures
            final(self).wf(),
            final(self).restart_threshold_spec() == old(self).restart_threshold_spec(),
            final(self).state() == after_requests(old(self).state(), system_requests(readings), now),
            alerts_view(raised_alerts@) == raised_by(old(self).state(), system_requests(readings), now),
    {
        let requests = Self::system_alert_requests(readings);
        self.raise_all(requests, now)
    }

    /// Raises the process alerts that the readings call for at time `now`,
    /// process after process, returning those raised.
    pub fn check_process_alerts(&mut self, processes: &Vec<ProcessReading>, now: u64) -> (raised_alerts: Vec<Alert>)
        requires
            old(self).wf(),
            forall|k: Seq<char>| #[trigger] old(self).state().last_raised.contains_key(k) ==> now >= old(self).state().last_raised[k],
        ensures
            final(self).wf(),
            final(self).restart_threshold_spec() == old(self).restart_threshold_spec(),
            final(self).state() == after_requests(
                old(self).state(),
                all_process_requests(processes@, old(self).restart_threshold_spec()),
                now,
            ),
            alerts_view(raised_alerts@) == raised_by(
                old(self).state(),
                all_process_requests(processes@, old(self).restart_threshold_spec()),
                now,
            ),
    {
        let mut requests: Vec<AlertRequest> = Vec::new();
        let mut i: usize = 0;
        while i < processes.len()
            invariant
                0 <= i <= processes@.len(),
                requests_view(requests@) == all_process_requests(processes@.take(i as int), self.restart_threshold_spec()),
            decreases processes.len() - i,
        {
            let ghost before = requests_view(requests@);
            let mut more = self.process_alert_requests(&processes[i]);
            let ghost extra = requests_view(more@);
            requests.append(&mut more);
            assert(requests_view(requests@) =~= before + extra);
            assert(processes@.take(i + 1).drop_last() =~= processes@.take(i as int));
            i = i + 1;
        }
        assert(processes@.take(i as int) =~= processes@);
        self.raise_all(requests, now)
    }

    /// Resolves the active alerts that the readings allow, at time `now`: they
    /// leave the active alerts, marked resolved at `now`, and join the history.
    /// Returns them, to be sent to the notification senders.
    pub fn check_resolved_alerts(&mut self, readings: &RecoveryReadings, now: u64) -> (resolved: Vec<Alert>)
        requires
            old(self).wf(),
        ensures
            final(self).wf(),
            final(self).restart_threshold_spec() == old(self).restart_threshold_spec(),
            final(self).state().active == staying(old(self).state().active, *readings),
            final(self).state().history == old(self).state().history + resolved_now(old(self).state().active, *readings, now),
            final(self).state().last_raised == old(self).state().last_raised,
            alerts_view(resolved@) == resolved_now(old(self).state().active, *readings, now),
    {
        let ghost s0 = self.state();
        let mut stay: Vec<Alert> = Vec::new();
        let mut done: Vec<Alert> = Vec::new();
        let mut i: usize = 0;
        while i < self.active_alerts.len()
            invariant
                0 <= i <= self.active_alerts@.len(),
                s0.active == alerts_view(self.active_alerts@),
                alerts_view(stay@) == staying(s0.active.take(i as int), *readings),
                alerts_view(done@) == resolved_now(s0.active.take(i as int), *readings, now),
            decreases self.active_alerts.len() - i,
        {
            let ghost t = s0.active.take(i + 1);
            assert(t.drop_last() =~= s0.active.take(i as int));
            assert(t.last() == self.active_alerts@[i as int]@);
            let a = &self.active_alerts[i];
            if self.resolves(a, readings) {
                let mut c = a.clone();
                c.resolved = true;
                c.resolved_at = Some(now);
                let ghost before = done@;
                done.push(c);
                assert(alerts_view(done@) =~= alerts_view(before).push(c@));
            } else {
                let c = a.clone();
                let ghost before = stay@;
                stay.push(c);
                assert(alerts_view(stay@) =~= alerts_view(before).push(c@));
            }
            i = i + 1;
        }
        assert(s0.active.take(i as int) =~= s0.active);
        let mut j: usize = 0;
        let ghost h0 = self.alert_history@;
        while j < done.len()
            invariant
                0 <= j <= done@.len(),
                self.alert_history@.len() == h0.len() + j,
                forall|t: int| 0 <= t < h0.len() ==> (#[trigger] self.alert_history@[t]) == h0[t],
                forall|t: int| 0 <= t < j ==> (#[trigger] self.alert_history@[h0.len() + t])@ == done@[t]@,
                self.last_alert_times@ == old(self).last_alert_times@,
                self.restart_threshold == old(self).restart_threshold,
            decreases done.len() - j,
        {
            let c = done[j].clone();
            self.alert_history.push(c);
            j = j + 1;
        }
        assert forall|t: int| 0 <= t < self.alert_history@.len() implies #[trigger] alerts_view(self.alert_history@)[t] == (alerts_view(h0) + alerts_view(done@))[t] by {
            if t < h0.len() {
                assert(self.alert_history@[t] == h0[t]);
            } else {
                assert(self.alert_history@[h0.len() + (t - h0.len())]@ == done@[t - h0.len()]@);
            }
        }
        assert(alerts_view(self.alert_history@) =~= alerts_view(h0) + alerts_view(done@));
        self.active_alerts = stay;
        assert(self.state().last_raised =~= s0.last_raised);
        done
    }

    /// Whether the readings allow this active alert to be resolved.
    fn resolves(&self, a: &Alert, r: &RecoveryReadings) -> (b: bool)
        ensures
            b == should_resolve(a@, *r),
    {
        if eq_str(&a.category, "System") {
            (eq_str(&a.id, "system_cpu_high") && r.cpu_recovered) || (eq_str(&a.id, "system_memory_high")
                && r.memory_recovered) || (eq_str(&a.id, "system_disk_high") && r.disk_recovered)
        } else if eq_str(&a.category, "Process") {
            let mut i: usize = 0;
            while i < r.processes.len()
                invariant
                    0 <= i <= r.processes@.len(),
                    a.category@ == "Process"@,
                    a.category@ != "System"@,
                    forall|j: int| 0 <= j < i ==> !#[trigger] process_resolves(a.id@, r.processes@[j]),
                decreases r.processes.len() - i,
            {
                let p = &r.processes[i];
                let id = a.id.as_str();
                if contains_str(id, p.name.as_str()) && ((contains_str(id, "failed") && p.status
                    == ProcessStatus::Running) || (contains_str(id, "cpu_high") && p.cpu_recovered)) {
                    assert(a@.id == a.id@);
                    assert(a@.category == a.category@);
                    assert(process_resolves(a@.id, r.processes@[i as int]));

                    return true;
                }
                i = i + 1;
            }
            false
        } else {
            false
        }
    }

    /// The active alerts, in the order they were raised.
    pub fn get_active_alerts(&self) -> (r: Vec<Alert>)
        ensures
            alerts_view(r@) == self.state().active,
    {
        let mut r: Vec<Alert> = Vec::new();
        let mut i: usize = 0;
        while i < self.active_alerts.len()
            invariant
                0 <= i <= self.active_alerts@.len(),
                r@.len() == i,
                forall|j: int| 0 <= j < i ==> (#[trigger] r@[j])@ == self.active_alerts@[j]@,
            decreases self.active_alerts.len() - i,
        {
            let c = self.active_alerts[i].clone();
            r.push(c);
            i = i + 1;
        }
        assert(alerts_view(r@) =~= self.state().active);
        r
    }

    /// The alert history, newest first: all of it, or at most `limit` alerts.
    pub fn get_alert_history(&self, limit: Option<usize>) -> (r: Vec<Alert>)
        ensures
            r@.len() == match limit {
                Some(l) => if l < self.state().history.len() { l as int } else { self.state().history.len() as int },
                None => self.state().history.len() as int,
            },
            forall|i: int| 0 <= i < r@.len() ==> (#[trigger] r@[i])@ == self.state().history[self.state().history.len() - 1 - i],
    {
        let n = self.alert_history.len();
        let count = match limit {
            Some(l) => if l < n { l } else { n },
            None => n,
        };
        let mut r: Vec<Alert> = Vec::new();
        let mut i: usize = 0;
        while i < count
            invariant
                0 <= i <= count <= n,
                n == self.alert_history@.len(),
                r@.len() == i,
                forall|j: int| 0 <= j < i ==> (#[trigger] r@[j])@ == self.alert_history@[n - 1 - j]@,
            decreases count - i,
        {
            r.push(self.alert_history[n - 1 - i].clone());
            i = i + 1;
        }
        r
    }

    /// Resolves an active alert by hand at time `now`; returns whether it was active.
    pub fn resolve_alert(&mut self, alert_id: &str, now: u64) -> (found: bool)
        requires
            old(self).wf(),
        ensures
            final(self).wf(),
            final(self).restart_threshold_spec() == old(self).restart_threshold_spec(),
            found == is_active(old(self).state().active, alert_id@),
            !found ==> final(self).state() == old(self).state(),
            found ==> exists|i: int|
                0 <= i < old(self).state().active.len() && old(self).state().active[i].id == alert_id@
                    && final(self).state().active == old(self).state().active.remove(i)
                    && final(self).state().history == old(self).state().history.push(
                    AlertView { resolved: true, resolved_at: Some(now), ..old(self).state().active[i] },
                ) && final(self).state().last_raised == old(self).state().last_raised,
    {
        let key = String::from_str(alert_id);
        match self.find_active(&key) {
            None => false,
            Some(i) => {
                let ghost s0 = self.state();
                let mut a = self.active_alerts.remove(i);
                a.resolved = true;
                a.resolved_at = Some(now);
                self.alert_history.push(a);
                proof {
                    assert(self.state().active =~= s0.active.remove(i as int));
                    assert(self.state().history =~= s0.history.push(
                        AlertView { resolved: true, resolved_at: Some(now), ..s0.active[i as int] },
                    ));
                    assert(self.state().last_raised =~= s0.last_raised);
                    assert(s0.active[i as int].id == alert_id@);
                }
                true
            },
        }
    }
}

/// Prints alerts on the console.
#[derive(Debug, Clone, Copy)]
pub struct ConsoleAlertSender;

/// The icon shown for a severity.
pub open spec fn severity_icon(s: AlertSeverity) -> Seq<char> {
    match s {
        AlertSeverity::Info => "ℹ️"@,
        AlertSeverity::Warning => "⚠️"@,
        AlertSeverity::Error => "❌"@,
        AlertSeverity::Critical => "🚨"@,
    }
}

impl ConsoleAlertSender {
    /// The sender's name.
    pub fn name(&self) -> (s: &'static str)
        ensures
            s@ == "console"@,
    {
        "console"
    }

    /// The line printed for an alert: its icon, whether it is resolved or
    /// active, its category and its message.
    pub fn alert_line(&self, alert: &Alert) -> (s: String)
        ensures
            s@ == severity_icon(alert.severity) + " ["@ + (if alert.resolved {
                "RESOLVED"@
            } else {
                "ACTIVE"@
            }) + "] "@ + alert.category@ + " - "@ + alert.message@,
    {
        let mut s = match alert.severity {
            AlertSeverity::Info => String::from_str("ℹ️"),
            AlertSeverity::Warning => String::from_str("⚠️"),
            AlertSeverity::Error => String::from_str("❌"),
            AlertSeverity::Critical => String::from_str("🚨"),
        };
        s.append(" [");
        if alert.resolved {
            s.append("RESOLVED");
        } else {
            s.append("ACTIVE");
        }
        s.append("] ");
        s.append(alert.category.as_str());
        s.append(" - ");
        s.append(alert.message.as_str());
        s
    }
}

/// Appends alerts as JSON lines to a log file.
#[derive(Debug, Clone)]
pub struct LogAlertSender {
    pub log_path: String,
}

impl LogAlertSender {
    /// A sender that writes to `log_path`.
    pub fn new(log_path: String) -> (r: Self)
        ensures
            r.log_path == log_path,
    {
        LogAlertSender { log_path }
    }

    /// The sender's name.
    pub fn name(&self) -> (s: &'static str)
        ensures
            s@ == "log_file"@,
    {
        "log_file"
    }
}

/// Once an alert is raised, the same request is held back for the cooldown:
/// asking again less than `ALERT_COOLDOWN_SECS` later changes nothing.
pub proof fn raised_alert_is_held_back(s: AlertState, r: RequestView, t: u64, later: u64)
    requires
        !held_back(s, r.id, t),
        t <= later,
        later - t < ALERT_COOLDOWN_SECS,
    ensures
        held_back(after_request(s, r, t), r.id, later),
        after_request(after_request(s, r, t), r, later) == after_request(s, r, t),
{
}

/// While an alert is active, asking for it again changes nothing, whenever it is asked.
pub proof fn active_alert_is_not_raised_twice(s: AlertState, r: RequestView, now: u64)
    requires
        is_active(s.active, r.id),
    ensures
        after_request(s, r, now) == s,
{
}

} // verus!
