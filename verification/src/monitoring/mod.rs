//! Monitoring: the health of the framework's components, alerts raised from
//! metrics, and the analysis of log messages.

pub mod alerts;
pub mod analytics;
pub mod health;
pub mod logger;
pub mod readings;

use vstd::prelude::*;

verus! {

/// Health of a component or of the whole system.
#[derive(Debug, Clone, Copy, PartialEq, Eq, Structural)]
pub enum HealthStatus {
    /// The component is healthy
    Healthy,
    /// The component has minor issues
    Degraded,
    /// The component has significant issues
    Unhealthy,
    /// The health check itself failed
    Unknown,
}

/// How bad a status is: `Unknown` is worst, then `Unhealthy`, `Degraded`, `Healthy`.
pub open spec fn badness(s: HealthStatus) -> nat {
    match s {
        HealthStatus::Healthy => 0,
        HealthStatus::Degraded => 1,
        HealthStatus::Unhealthy => 2,
        HealthStatus::Unknown => 3,
    }
}

/// The worse of two statuses.
pub open spec fn worse(a: HealthStatus, b: HealthStatus) -> HealthStatus {
    if badness(a) >= badness(b) {
        a
    } else {
        b
    }
}

/// The worse of two statuses.
pub fn worst_status(status1: HealthStatus, status2: HealthStatus) -> (r: HealthStatus)
    ensures
        r == worse(status1, status2),
{
    match (status1, status2) {
        (HealthStatus::Unknown, _) | (_, HealthStatus::Unknown) => HealthStatus::Unknown,
        (HealthStatus::Unhealthy, _) | (_, HealthStatus::Unhealthy) => HealthStatus::Unhealthy,
        (HealthStatus::Degraded, _) | (_, HealthStatus::Degraded) => HealthStatus::Degraded,
        (HealthStatus::Healthy, HealthStatus::Healthy) => HealthStatus::Healthy,
    }
}

/// The upper-case name of a status.
pub open spec fn status_name(s: HealthStatus) -> Seq<char> {
    match s {
        HealthStatus::Healthy => "HEALTHY"@,
        HealthStatus::Degraded => "DEGRADED"@,
        HealthStatus::Unhealthy => "UNHEALTHY"@,
        HealthStatus::Unknown => "UNKNOWN"@,
    }
}

/// The upper-case name of a status.
pub fn health_status_to_string(status: &HealthStatus) -> (s: &'static str)
    ensures
        s@ == status_name(*status),
{
    match status {
        HealthStatus::Healthy => "HEALTHY",
        HealthStatus::Degraded => "DEGRADED",
        HealthStatus::Unhealthy => "UNHEALTHY",
        HealthStatus::Unknown => "UNKNOWN",
    }
}

/// `worst_status` orders statuses: it is commutative, associative and
/// idempotent, `Healthy` changes nothing and `Unknown` absorbs everything.
pub proof fn worst_status_is_an_order(a: HealthStatus, b: HealthStatus, c: HealthStatus)
    ensures
        worse(a, b) == worse(b, a),
        worse(worse(a, b), c) == worse(a, worse(b, c)),
        worse(a, a) == a,
        worse(a, HealthStatus::Healthy) == a,
        worse(a, HealthStatus::Unknown) == HealthStatus::Unknown,
        badness(worse(a, b)) >= badness(a),
        badness(worse(a, b)) >= badness(b),
{
}

/// Seconds since the Unix epoch, from the system clock; zero when the clock is
/// before the epoch. Nothing is claimed of the value, which depends on the time.
#[verifier::external_body]
pub fn current_timestamp() -> (t: u64) {
    std::time::SystemTime::now().duration_since(std::time::UNIX_EPOCH).map(|d| d.as_secs()).unwrap_or(
        0,
    )
}

/// Network traffic counters.
#[derive(Debug, Clone, Copy)]
pub struct NetworkIO {
    pub bytes_received: u64,
    pub bytes_sent: u64,
    pub packets_received: u64,
    pub packets_sent: u64,
}

/// State of a monitored process.
#[derive(Debug, Clone, Copy, PartialEq, Eq, Structural)]
pub enum ProcessStatus {
    Running,
    Starting,
    Stopping,
    Stopped,
    Failed,
    Restarting,
}

/// How urgent an alert is.
#[derive(Debug, Clone, Copy, PartialEq, Eq, Structural)]
pub enum AlertSeverity {
    Info,
    Warning,
    Error,
    Critical,
}

/// The upper-case name of a severity, as alerts display it.
pub open spec fn severity_label(s: AlertSeverity) -> Seq<char> {
    match s {
        AlertSeverity::Info => "INFO"@,
        AlertSeverity::Warning => "WARNING"@,
        AlertSeverity::Error => "ERROR"@,
        AlertSeverity::Critical => "CRITICAL"@,
    }
}

impl AlertSeverity {
    /// The upper-case name of the severity.
    pub fn to_string(&self) -> (s: String)
        ensures
            s@ == severity_label(*self),
    {
        match self {
            AlertSeverity::Info => String::from_str("INFO"),
            AlertSeverity::Warning => String::from_str("WARNING"),
            AlertSeverity::Error => String::from_str("ERROR"),
            AlertSeverity::Critical => String::from_str("CRITICAL"),
        }
    }
}

/// Formats of log output.
#[derive(Debug, Clone, Copy, PartialEq, Eq, Structural)]
pub enum LogFormat {
    Json,
    Pretty,
    Compact,
}

/// Where log output goes.
#[derive(Debug, Clone)]
pub enum LogOutput {
    Console,
    File { path: String },
    Both { path: String },
    Syslog,
}

/// Health of one component.
#[derive(Debug)]
pub struct ComponentHealth {
    pub status: HealthStatus,
    pub message: String,
    /// When the component was last seen healthy, in seconds since the epoch.
    pub last_success: Option<u64>,
    /// Failed checks since the last healthy one.
    pub failure_count: u32,
    pub response_time_ms: u64,
}

impl Clone for ComponentHealth {
    fn clone(&self) -> (r: Self)
        ensures
            r == *self,
    {
        ComponentHealth {
            status: self.status,
            message: self.message.clone(),
            last_success: self.last_success,
            failure_count: self.failure_count,
            response_time_ms: self.response_time_ms,
        }
    }
}

/// The health of one named component within a health check.
#[derive(Debug)]
pub struct NamedComponent {
    pub name: String,
    pub health: ComponentHealth,
}

impl Clone for NamedComponent {
    fn clone(&self) -> (r: Self)
        ensures
            r == *self,
    {
        NamedComponent { name: self.name.clone(), health: self.health.clone() }
    }
}

/// The result of checking every component.
#[derive(Debug)]
pub struct HealthCheck {
    /// When the check was made, in seconds since the epoch.
    pub timestamp: u64,
    pub overall_status: HealthStatus,
    /// The components, each name once, in the order they were checked.
    pub components: Vec<NamedComponent>,
    pub check_duration_ms: u64,
}

impl Clone for HealthCheck {
    fn clone(&self) -> (r: Self)
        ensures
            r.timestamp == self.timestamp,
            r.overall_status == self.overall_status,
            r.components@ == self.components@,
            r.check_duration_ms == self.check_duration_ms,
    {
        let mut components: Vec<NamedComponent> = Vec::new();
        let mut i: usize = 0;
        while i < self.components.len()
            invariant
                0 <= i <= self.components@.len(),
                components@ == self.components@.take(i as int),
            decreases self.components.len() - i,
        {
            components.push(self.components[i].clone());
            assert(components@ =~= self.components@.take(i + 1));
            i = i + 1;
        }
        assert(components@ =~= self.components@);
        HealthCheck {
            timestamp: self.timestamp,
            overall_status: self.overall_status,
            components,
            check_duration_ms: self.check_duration_ms,
        }
    }
}

} // verus!
