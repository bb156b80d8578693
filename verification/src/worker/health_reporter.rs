//! Health checks for worker components.
//!
//! Components register under a name and are polled for a health check
//! result; the overall status is the worst component status (any unhealthy
//! component makes the system unhealthy, any degraded one makes it
//! degraded, and a system with no failing components is healthy).

use crate::shared::utils::{str_eq, timestamp_millis};
use vstd::prelude::*;

verus! {

/// Health status of a component or of the whole system.
#[derive(Clone, Copy, Debug, PartialEq, Eq, Structural)]
pub enum HealthStatus {
    /// Functioning normally.
    Healthy,
    /// Functioning, but impaired.
    Degraded,
    /// Not functioning.
    Unhealthy,
    /// No information.
    Unknown,
}

/// Result of one health check.
#[derive(Debug)]
pub struct HealthCheckResult {
    /// The component the result is about.
    pub component_name: String,
    /// The status the check found.
    pub status: HealthStatus,
    /// An optional human-readable note.
    pub message: Option<String>,
    /// When the check ran, milliseconds.
    pub last_check: u64,
    /// How long the check took, milliseconds.
    pub response_time_ms: u64,
}

/// A component that can be health-checked.
pub trait HealthCheckable {
    /// Runs the component's health check.
    fn check_health(&self) -> HealthCheckResult;

    /// The component's name.
    fn get_name(&self) -> String;
}

/// Overall system health report.
#[derive(Debug)]
pub struct HealthReport {
    /// The worst status over all components.
    pub overall_status: HealthStatus,
    /// The most recent check result of each component, keyed by name.
    pub component_results: Vec<(String, HealthCheckResult)>,
    /// When the report was drawn up, milliseconds.
    pub timestamp: u64,
    /// How long the reporter has been running, seconds.
    pub uptime_seconds: u64,
}

/// The worst status over the results: unhealthy beats degraded beats
/// healthy; a system with no failing components is healthy.
pub open spec fn spec_overall(rs: Seq<(String, HealthCheckResult)>) -> HealthStatus {
    if exists|i: int| 0 <= i < rs.len() && (#[trigger] rs[i]).1.status == HealthStatus::Unhealthy {
        HealthStatus::Unhealthy
    } else if exists|i: int|
        0 <= i < rs.len() && (#[trigger] rs[i]).1.status == HealthStatus::Degraded {
        HealthStatus::Degraded
    } else {
        HealthStatus::Healthy
    }
}

/// Runs health checks over registered components and aggregates the
/// results.
pub struct HealthReporter<C: HealthCheckable> {
    components: Vec<(String, C)>,
    check_results: Vec<(String, HealthCheckResult)>,
    start_time_ms: u64,
    check_interval_ms: u64,
}

impl<C: HealthCheckable> HealthReporter<C> {
    /// The registered components, keyed by name, in registration order.
    pub closed spec fn components_seq(self) -> Seq<(String, C)> {
        self.components@
    }

    /// The most recent check results, keyed by name.
    pub closed spec fn results_seq(self) -> Seq<(String, HealthCheckResult)> {
        self.check_results@
    }

    /// The configured interval between check rounds, milliseconds.
    pub closed spec fn check_interval_spec(self) -> u64 {
        self.check_interval_ms
    }

    /// Creates a reporter that runs checks every `check_interval_ms`
    /// milliseconds, with no components yet.
    pub fn new(check_interval_ms: u64) -> (r: Self)
        ensures
            r.components_seq() == Seq::<(String, C)>::empty(),
            r.results_seq() == Seq::<(String, HealthCheckResult)>::empty(),
            r.check_interval_spec() == check_interval_ms,
    {
        HealthReporter {
            components: Vec::new(),
            check_results: Vec::new(),
            start_time_ms: timestamp_millis(),
            check_interval_ms,
        }
    }

    /// Whether a component is registered under the name `name`.
    pub open spec fn has_component(self, name: Seq<char>) -> bool {
        exists|i: int|
            0 <= i < self.components_seq().len() && (#[trigger] self.components_seq()[i]).0@
                == name
    }

    /// Registers a component under `name`, replacing the component already
    /// registered under that name, if any.
    pub fn register_component(&mut self, name: String, component: C)
        ensures
            final(self).results_seq() == old(self).results_seq(),
            final(self).check_interval_spec() == old(self).check_interval_spec(),
            old(self).has_component(name@) ==> exists|i: int|
                0 <= i < old(self).components_seq().len() && (#[trigger] old(self).components_seq()[i]).0@ == name@ && final(self).components_seq() == old(self).components_seq().update(i, (name, component)),
            !old(self).has_component(name@) ==> final(self).components_seq() == old(self).components_seq().push((name, component)),
    {
        let n = self.components.len();
        for i in 0..n
            invariant
                *self == *old(self),
                n == self.components@.len(),
                forall|k: int| 0 <= k < i ==> (#[trigger] self.components@[k]).0@ != name@,
        {
            if str_eq(self.components[i].0.as_str(), name.as_str()) {
                self.components.set(i, (name, component));
                return ;
            }
        }
        self.components.push((name, component));
    }

    /// Runs the health check of every registered component and stores the
    /// results, one per component, under the component's name. What each
    /// check returns is up to the component.
    pub fn run_health_checks(&mut self)
        ensures
            final(self).components_seq() == old(self).components_seq(),
            final(self).check_interval_spec() == old(self).check_interval_spec(),
            final(self).results_seq().len() == old(self).components_seq().len(),
            forall|i: int|
                0 <= i < final(self).results_seq().len() ==> (#[trigger] final(self).results_seq()[i]).0 == old(self).components_seq()[i].0,
    {
        let mut results: Vec<(String, HealthCheckResult)> = Vec::new();
        let n = self.components.len();
        for i in 0..n
            invariant
                n == self.components@.len(),
                results@.len() == i,
                forall|k: int| 0 <= k < i ==> (#[trigger] results@[k]).0 == self.components@[k].0,
        {
            let result = self.components[i].1.check_health();
            let name = self.components[i].0.clone();
            results.push((name, result));
        }
        self.check_results = results;
    }

    /// The worst status over the stored results.
    fn overall_of(results: &Vec<(String, HealthCheckResult)>) -> (r: HealthStatus)
        ensures
            r == spec_overall(results@),
    {
        let n = results.len();
        let mut any_unhealthy = false;
        let mut any_degraded = false;
        for i in 0..n
            invariant
                n == results@.len(),
                any_unhealthy == exists|k: int|
                    0 <= k < i && (#[trigger] results@[k]).1.status == HealthStatus::Unhealthy,
                any_degraded == exists|k: int|
                    0 <= k < i && (#[trigger] results@[k]).1.status == HealthStatus::Degraded,
        {
            if results[i].1.status == HealthStatus::Unhealthy {
                any_unhealthy = true;
            }
            if results[i].1.status == HealthStatus::Degraded {
                any_degraded = true;
            }
        }
        if any_unhealthy {
            HealthStatus::Unhealthy
        } else if any_degraded {
            HealthStatus::Degraded
        } else {
            HealthStatus::Healthy
        }
    }

    /// Copies one stored result.
    fn clone_result(r: &HealthCheckResult) -> (c: HealthCheckResult)
        ensures
            c == *r,
    {
        HealthCheckResult {
            component_name: r.component_name.clone(),
            status: r.status,
            message: match &r.message {
                Some(m) => Some(m.clone()),
                None => None,
            },
            last_check: r.last_check,
            response_time_ms: r.response_time_ms,
        }
    }

    /// Draws up the current health report: the stored results and their
    /// worst status, stamped with the wall clock.
    pub fn get_health_report(&self) -> (r: HealthReport)
        ensures
            r.overall_status == spec_overall(self.results_seq()),
            r.component_results@ == self.results_seq(),
    {
        let n = self.check_results.len();
        let mut component_results: Vec<(String, HealthCheckResult)> = Vec::new();
        for i in 0..n
            invariant
                n == self.check_results@.len(),
                component_results@.len() == i,
                forall|k: int| 0 <= k < i ==> #[trigger] component_results@[k] == self.check_results@[k],
        {
            let name = self.check_results[i].0.clone();
            let result = Self::clone_result(&self.check_results[i].1);
            component_results.push((name, result));
        }
        proof {
            assert(component_results@ =~= self.check_results@);
        }
        let overall_status = Self::overall_of(&self.check_results);
        let now = timestamp_millis();
        let uptime_ms = if now >= self.start_time_ms {
            now - self.start_time_ms
        } else {
            0
        };
        HealthReport {
            overall_status,
            component_results,
            timestamp: now,
            uptime_seconds: uptime_ms / 1000,
        }
    }

    /// The most recent check result of the component registered under
    /// `component_name`, if any.
    pub fn get_component_health(&self, component_name: &str) -> (r: Option<HealthCheckResult>)
        ensures
            r is Some <==> exists|i: int|
                0 <= i < self.results_seq().len() && (#[trigger] self.results_seq()[i]).0@
                    == component_name@,
            r is Some ==> exists|i: int|
                0 <= i < self.results_seq().len() && (#[trigger] self.results_seq()[i]).0@
                    == component_name@ && r == Some(self.results_seq()[i].1),
    {
        let n = self.check_results.len();
        for i in 0..n
            invariant
                n == self.check_results@.len(),
                forall|k: int| 0 <= k < i ==> (#[trigger] self.check_results@[k]).0@ != component_name@,
        {
            if str_eq(self.check_results[i].0.as_str(), component_name) {
                let found = Self::clone_result(&self.check_results[i].1);
                proof {
                    let gi = i as int;
                    assert(0 <= gi < self.results_seq().len() && self.results_seq()[gi].0@
                        == component_name@ && Some(found) == Some(self.results_seq()[gi].1));
                }
                return Some(found);
            }
        }
        None
    }

    /// Whether every component passed its last check: no stored result is
    /// unhealthy or degraded.
    pub fn is_healthy(&self) -> (r: bool)
        ensures
            r == (spec_overall(self.results_seq()) == HealthStatus::Healthy),
    {
        let overall = Self::overall_of(&self.check_results);
        overall == HealthStatus::Healthy
    }

    /// How long the reporter has been running, milliseconds by the wall
    /// clock; 0 if the clock moved backwards.
    pub fn get_uptime(&self) -> u64 {
        let now = timestamp_millis();
        if now >= self.start_time_ms {
            now - self.start_time_ms
        } else {
            0
        }
    }
}

/// A trivially healthy component, useful as a placeholder and in tests.
#[derive(Debug)]
pub struct DummyComponent {
    name: String,
}

impl DummyComponent {
    /// The component's name, as a character sequence.
    pub closed spec fn name_spec(self) -> Seq<char> {
        self.name@
    }

    /// Creates a component that always reports itself healthy.
    pub fn new(name: String) -> (r: Self)
        ensures
            r.name_spec() == name@,
    {
        DummyComponent { name }
    }
}

impl HealthCheckable for DummyComponent {
    fn check_health(&self) -> HealthCheckResult {
        HealthCheckResult {
            component_name: self.name.clone(),
            status: HealthStatus::Healthy,
            message: Some("Component is functioning normally".to_owned()),
            last_check: timestamp_millis(),
            response_time_ms: 10,
        }
    }

    fn get_name(&self) -> String {
        self.name.clone()
    }
}

} // verus!
