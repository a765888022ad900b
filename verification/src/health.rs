//! Liveness and readiness: how each dependency's probe is judged and how
//! the probes add up to the answer of `/readyz`.
use vstd::prelude::*;
use crate::error::AppError;

verus! {

/// The state of one dependency.
#[derive(Debug, Clone, Copy, PartialEq, Eq, Structural)]
pub enum HealthStatus {
    Healthy,
    Degraded,
    Unhealthy,
}

/// The outcome of one probe.
#[derive(Debug)]
pub struct HealthCheckResult {
    pub status: HealthStatus,
    pub error: Option<String>,
}

impl HealthCheckResult {
    pub fn healthy() -> (r: HealthCheckResult)
        ensures
            r.status == HealthStatus::Healthy,
            r.error is None,
    {
        HealthCheckResult { status: HealthStatus::Healthy, error: None }
    }

    pub fn unhealthy(error: String) -> (r: HealthCheckResult)
        ensures
            r.status == HealthStatus::Unhealthy,
            r.error == Some(error),
    {
        HealthCheckResult { status: HealthStatus::Unhealthy, error: Some(error) }
    }

    /// A probe counts against readiness only when it failed outright.
    pub fn is_healthy(&self) -> (b: bool)
        ensures
            b == (self.status != HealthStatus::Unhealthy),
    {
        self.status != HealthStatus::Unhealthy
    }
}

/// The verdict of a dependency's own health query: `Ok(true)` is healthy,
/// `Ok(false)` and errors are not.
pub open spec fn spec_judge_query(answer: Result<bool, AppError>, r: HealthCheckResult) -> bool {
    match answer {
        Ok(true) => r.status == HealthStatus::Healthy && r.error is None,
        Ok(false) => r.status == HealthStatus::Unhealthy
            && (r.error matches Some(m) && m@ == "health check returned false"@),
        Err(e) => r.status == HealthStatus::Unhealthy && (r.error matches Some(m) && m@ == e.message@),
    }
}

fn judge_health_query(answer: Result<bool, AppError>) -> (r: HealthCheckResult)
    ensures
        spec_judge_query(answer, r),
{
    match answer {
        Ok(true) => HealthCheckResult::healthy(),
        Ok(false) => HealthCheckResult::unhealthy("health check returned false".to_string()),
        Err(e) => HealthCheckResult::unhealthy(e.message),
    }
}

/// Probes a database store through its own health query.
pub struct StoreHealthChecker {
    name: String,
}

impl StoreHealthChecker {
    pub fn new(name: &str) -> (c: StoreHealthChecker)
        ensures
            c.name_view() == name@,
    {
        StoreHealthChecker { name: name.to_string() }
    }

    pub closed spec fn name_view(&self) -> Seq<char> {
        self.name@
    }

    pub fn name(&self) -> (n: &str)
        ensures
            n@ == self.name_view(),
    {
        self.name.as_str()
    }

    /// The probe's result from the store's answer.
    pub fn judge(&self, answer: Result<bool, AppError>) -> (r: HealthCheckResult)
        ensures
            spec_judge_query(answer, r),
    {
        judge_health_query(answer)
    }
}

/// Probes a message bus through its own health query.
pub struct MessageBusHealthChecker {
    name: String,
}

impl MessageBusHealthChecker {
    pub fn new(name: &str) -> (c: MessageBusHealthChecker)
        ensures
            c.name_view() == name@,
    {
        MessageBusHealthChecker { name: name.to_string() }
    }

    pub closed spec fn name_view(&self) -> Seq<char> {
        self.name@
    }

    pub fn name(&self) -> (n: &str)
        ensures
            n@ == self.name_view(),
    {
        self.name.as_str()
    }

    /// The probe's result from the bus's answer.
    pub fn judge(&self, answer: Result<bool, AppError>) -> (r: HealthCheckResult)
        ensures
            spec_judge_query(answer, r),
    {
        judge_health_query(answer)
    }
}

/// Probes a cache by asking whether a probe key exists.
pub struct CacheHealthChecker {
    name: String,
}

impl CacheHealthChecker {
    pub fn new(name: &str) -> (c: CacheHealthChecker)
        ensures
            c.name_view() == name@,
    {
        CacheHealthChecker { name: name.to_string() }
    }

    pub closed spec fn name_view(&self) -> Seq<char> {
        self.name@
    }

    pub fn name(&self) -> (n: &str)
        ensures
            n@ == self.name_view(),
    {
        self.name.as_str()
    }

    /// The key the probe looks up.
    pub fn probe_key(&self) -> (k: &'static str)
        ensures
            k@ == "__health_probe__"@,
    {
        "__health_probe__"
    }

    /// The probe's result: any answer is healthy, an error is not.
    pub fn judge(&self, answer: Result<bool, AppError>) -> (r: HealthCheckResult)
        ensures
            match answer {
                Ok(_) => r.status == HealthStatus::Healthy && r.error is None,
                Err(e) => r.status == HealthStatus::Unhealthy && (r.error matches Some(m) && m@ == e.message@),
            },
    {
        match answer {
            Ok(_) => HealthCheckResult::healthy(),
            Err(e) => HealthCheckResult::unhealthy(e.message),
        }
    }
}

/// One line of the readiness report.
#[derive(Debug)]
pub struct CheckReport {
    pub name: String,
    pub status: String,
    pub error: Option<String>,
}

/// The readiness answer.
#[derive(Debug)]
pub struct Readiness {
    pub http_status: u16,
    pub status: String,
    pub checks: Vec<CheckReport>,
}

/// How a probe's status is written in the report.
pub open spec fn status_word(s: HealthStatus) -> Seq<char> {
    match s {
        HealthStatus::Healthy => "ok"@,
        HealthStatus::Degraded => "degraded"@,
        HealthStatus::Unhealthy => "fail"@,
    }
}

/// Whether every probe passed.
pub open spec fn all_ready(results: Seq<(String, HealthCheckResult)>) -> bool {
    forall|i: int| 0 <= i < results.len() ==> (#[trigger] results[i]).1.status != HealthStatus::Unhealthy
}

fn status_text(s: HealthStatus) -> (t: String)
    ensures
        t@ == status_word(s),
{
    match s {
        HealthStatus::Healthy => "ok".to_string(),
        HealthStatus::Degraded => "degraded".to_string(),
        HealthStatus::Unhealthy => "fail".to_string(),
    }
}

/// The liveness answer.
pub fn liveness() -> (s: &'static str)
    ensures
        s@ == "alive"@,
{
    "alive"
}

/// The readiness answer from every probe's name and result, in order:
/// 200 and `ready` when no probe failed, else 503 and `not_ready`.
pub fn readiness(results: Vec<(String, HealthCheckResult)>) -> (r: Readiness)
    ensures
        r.http_status == (if all_ready(results@) { 200u16 } else { 503u16 }),
        r.status@ == (if all_ready(results@) { "ready"@ } else { "not_ready"@ }),
        r.checks@.len() == results@.len(),
        forall|i: int| 0 <= i < results@.len() ==> {
            &&& (#[trigger] r.checks@[i]).name@ == results@[i].0@
            &&& r.checks@[i].status@ == status_word(results@[i].1.status)
            &&& r.checks@[i].error == results@[i].1.error
        },
{
    let ghost all = results@;
    let mut checks: Vec<CheckReport> = Vec::new();
    let mut all_ok = true;
    let mut rest = results;
    let ghost mut done: int = 0;
    while rest.len() > 0
        invariant
            0 <= done <= all.len(),
            rest@ == all.subrange(done, all.len() as int),
            checks@.len() == done,
            all_ok == forall|i: int| 0 <= i < done ==> (#[trigger] all[i]).1.status != HealthStatus::Unhealthy,
            forall|i: int| 0 <= i < done ==> {
                &&& (#[trigger] checks@[i]).name@ == all[i].0@
                &&& checks@[i].status@ == status_word(all[i].1.status)
                &&& checks@[i].error == all[i].1.error
            },
        decreases rest@.len(),
    {
        let (name, result) = rest.remove(0);
        assert((name, result) == all[done]);
        if !result.is_healthy() {
            all_ok = false;
        }
        checks.push(CheckReport { name, status: status_text(result.status), error: result.error });
        proof { done = done + 1; }
        assert(rest@ =~= all.subrange(done, all.len() as int));
    }
    Readiness {
        http_status: if all_ok { 200 } else { 503 },
        status: if all_ok { "ready".to_string() } else { "not_ready".to_string() },
        checks,
    }
}


/// The body of the plain `/health` endpoint.
#[derive(Debug)]
pub struct HealthData {
    pub status: String,
}

impl HealthData {
    /// The server answers, so it is healthy.
    pub fn healthy() -> (d: HealthData)
        ensures
            d.status@ == "healthy"@,
    {
        HealthData { status: "healthy".to_string() }
    }
}

} // verus!
