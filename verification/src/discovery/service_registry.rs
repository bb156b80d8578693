//! Registration and discovery of services.
//!
//! Services register under a unique identifier with a type, a version,
//! capabilities, and metadata; queries filter on any of those. A service
//! that stops heartbeating past the timeout is pruned.

use crate::shared::error::ProtocolError;
use crate::shared::utils::{str_eq, timestamp_millis};
use vstd::prelude::*;

verus! {

/// The role a service plays.
#[derive(Debug)]
pub enum ServiceType {
    /// Task orchestration.
    Orchestrator,
    /// Validation and consensus.
    Validator,
    /// Task execution.
    Worker,
    /// Data storage.
    Storage,
    /// Monitoring and metrics.
    Monitoring,
    /// Ingress and egress.
    Gateway,
    /// Any other role, under a free-form name.
    Custom(String),
}

/// Whether two service types name the same role.
pub open spec fn st_eq(a: ServiceType, b: ServiceType) -> bool {
    match (a, b) {
        (ServiceType::Orchestrator, ServiceType::Orchestrator) => true,
        (ServiceType::Validator, ServiceType::Validator) => true,
        (ServiceType::Worker, ServiceType::Worker) => true,
        (ServiceType::Storage, ServiceType::Storage) => true,
        (ServiceType::Monitoring, ServiceType::Monitoring) => true,
        (ServiceType::Gateway, ServiceType::Gateway) => true,
        (ServiceType::Custom(x), ServiceType::Custom(y)) => x@ == y@,
        _ => false,
    }
}

/// A registered service as the registry tracks it.
#[derive(Debug)]
pub struct ServiceInfo {
    /// Unique service identifier.
    pub service_id: String,
    /// The role the service plays.
    pub service_type: ServiceType,
    /// The service's version.
    pub version: String,
    /// Where the service can be reached.
    pub endpoint: String,
    /// Capabilities the service advertises.
    pub capabilities: Vec<String>,
    /// Endpoint of the service's health check, if it offers one.
    pub health_check_endpoint: Option<String>,
    /// Free-form metadata, as key-value pairs.
    pub metadata: Vec<(String, String)>,
    /// When the service registered, milliseconds.
    pub registered_at: u64,
    /// When the service last heartbeated, milliseconds.
    pub last_heartbeat: u64,
}

/// Criteria a service query filters on; an empty query matches everything.
#[derive(Debug)]
pub struct ServiceQuery {
    /// Keep only services of this type.
    pub service_type: Option<ServiceType>,
    /// Keep only services that advertise all of these capabilities.
    pub capabilities: Vec<String>,
    /// Keep only services of this version.
    pub version: Option<String>,
    /// Keep only services whose metadata holds all of these pairs.
    pub metadata_filters: Vec<(String, String)>,
}

impl Default for ServiceQuery {
    /// A query that matches every service.
    fn default() -> (r: Self)
        ensures
            r.service_type is None,
            r.capabilities@ == Seq::<String>::empty(),
            r.version is None,
            r.metadata_filters@ == Seq::<(String, String)>::empty(),
    {
        ServiceQuery {
            service_type: None,
            capabilities: Vec::new(),
            version: None,
            metadata_filters: Vec::new(),
        }
    }
}

/// What a service hands the registry to register itself.
#[derive(Debug)]
pub struct ServiceRegistration {
    /// Unique service identifier.
    pub service_id: String,
    /// The role the service plays.
    pub service_type: ServiceType,
    /// The service's version.
    pub version: String,
    /// Where the service can be reached.
    pub endpoint: String,
    /// Capabilities the service advertises.
    pub capabilities: Vec<String>,
    /// Endpoint of the service's health check, if it offers one.
    pub health_check_endpoint: Option<String>,
    /// Free-form metadata, as key-value pairs.
    pub metadata: Vec<(String, String)>,
    /// How long the registration is meant to live, milliseconds.
    pub ttl_ms: u64,
}

/// Whether a capability reading `cap` appears in `offered`.
pub open spec fn svc_has_cap(offered: Seq<String>, cap: Seq<char>) -> bool {
    exists|j: int| 0 <= j < offered.len() && (#[trigger] offered[j])@ == cap
}

/// Whether the metadata holds the pair `(k, v)`.
pub open spec fn meta_has(md: Seq<(String, String)>, k: Seq<char>, v: Seq<char>) -> bool {
    exists|j: int| 0 <= j < md.len() && (#[trigger] md[j]).0@ == k && md[j].1@ == v
}

/// Whether a service satisfies every criterion of a query.
pub open spec fn matches_query(s: ServiceInfo, q: ServiceQuery) -> bool {
    &&& match q.service_type {
        Some(t) => st_eq(s.service_type, t),
        None => true,
    }
    &&& forall|i: int|
        0 <= i < q.capabilities@.len() ==> #[trigger] svc_has_cap(
            s.capabilities@,
            q.capabilities@[i]@,
        )
    &&& match q.version {
        Some(v) => s.version@ == v@,
        None => true,
    }
    &&& forall|i: int|
        0 <= i < q.metadata_filters@.len() ==> #[trigger] meta_has(
            s.metadata@,
            q.metadata_filters@[i].0@,
            q.metadata_filters@[i].1@,
        )
}

/// Whether two service records agree in every observable field.
pub open spec fn info_matches(a: ServiceInfo, b: ServiceInfo) -> bool {
    &&& a.service_id@ == b.service_id@
    &&& st_eq(a.service_type, b.service_type)
    &&& a.version@ == b.version@
    &&& a.endpoint@ == b.endpoint@
    &&& a.capabilities@ == b.capabilities@
    &&& a.health_check_endpoint == b.health_check_endpoint
    &&& a.metadata@ == b.metadata@
    &&& a.registered_at == b.registered_at
    &&& a.last_heartbeat == b.last_heartbeat
}

/// No two services share an identifier.
pub open spec fn unique_service_ids(s: Seq<ServiceInfo>) -> bool {
    forall|i: int, j: int|
        0 <= i < s.len() && 0 <= j < s.len() && i != j ==> (#[trigger] s[i]).service_id@ != (
        #[trigger] s[j]).service_id@
}

/// Whether a service with identifier `id` is registered.
pub open spec fn has_service(s: Seq<ServiceInfo>, id: Seq<char>) -> bool {
    exists|i: int| 0 <= i < s.len() && (#[trigger] s[i]).service_id@ == id
}

/// The index of the service with identifier `id`.
pub open spec fn svc_idx(s: Seq<ServiceInfo>, id: Seq<char>) -> int {
    choose|i: int| 0 <= i < s.len() && (#[trigger] s[i]).service_id@ == id
}

/// The service with identifier `id`.
pub open spec fn service_at(s: Seq<ServiceInfo>, id: Seq<char>) -> ServiceInfo {
    s[svc_idx(s, id)]
}

/// Whether the service heartbeated within the timeout, as seen at `now`.
pub open spec fn service_fresh(s: ServiceInfo, timeout_ms: u64, now: u64) -> bool {
    now - s.last_heartbeat <= timeout_ms
}

/// The services of `s` that are still fresh at time `now`.
pub open spec fn fresh_services(s: Seq<ServiceInfo>, timeout_ms: u64, now: u64) -> Seq<
    ServiceInfo,
> {
    s.filter(|x: ServiceInfo| service_fresh(x, timeout_ms, now))
}

proof fn lemma_fresh_push(s: Seq<ServiceInfo>, x: ServiceInfo, timeout_ms: u64, now: u64)
    ensures
        service_fresh(x, timeout_ms, now) ==> fresh_services(s.push(x), timeout_ms, now)
            == fresh_services(s, timeout_ms, now).push(x),
        !service_fresh(x, timeout_ms, now) ==> fresh_services(s.push(x), timeout_ms, now)
            == fresh_services(s, timeout_ms, now),
{
    reveal_with_fuel(Seq::filter, 2);
    assert(s.push(x).drop_last() =~= s);
}

/// The services of `s` that satisfy every criterion of `q`.
pub open spec fn q_filter(s: Seq<ServiceInfo>, q: ServiceQuery) -> Seq<ServiceInfo> {
    s.filter(|x: ServiceInfo| matches_query(x, q))
}

/// The services of `s` whose role is `t`.
pub open spec fn t_filter(s: Seq<ServiceInfo>, t: ServiceType) -> Seq<ServiceInfo> {
    s.filter(|x: ServiceInfo| st_eq(x.service_type, t))
}

/// Whether some type in `out` names the same role as `t`.
pub open spec fn types_has(out: Seq<ServiceType>, t: ServiceType) -> bool {
    exists|u: int| 0 <= u < out.len() && st_eq(#[trigger] out[u], t)
}

/// Whether some registered service plays the role `t`.
pub open spec fn type_among(t: ServiceType, s: Seq<ServiceInfo>) -> bool {
    exists|j: int| 0 <= j < s.len() && st_eq(t, (#[trigger] s[j]).service_type)
}

proof fn lemma_q_filter_push(s: Seq<ServiceInfo>, x: ServiceInfo, q: ServiceQuery)
    ensures
        matches_query(x, q) ==> q_filter(s.push(x), q) == q_filter(s, q).push(x),
        !matches_query(x, q) ==> q_filter(s.push(x), q) == q_filter(s, q),
{
    reveal_with_fuel(Seq::filter, 2);
    assert(s.push(x).drop_last() =~= s);
}

proof fn lemma_t_filter_push(s: Seq<ServiceInfo>, x: ServiceInfo, t: ServiceType)
    ensures
        st_eq(x.service_type, t) ==> t_filter(s.push(x), t) == t_filter(s, t).push(x),
        !st_eq(x.service_type, t) ==> t_filter(s.push(x), t) == t_filter(s, t),
{
    reveal_with_fuel(Seq::filter, 2);
    assert(s.push(x).drop_last() =~= s);
}

/// With unique ids, an index holding `id` is *the* index of `id`.
proof fn lemma_svc_idx_is(s: Seq<ServiceInfo>, id: Seq<char>, i: int)
    requires
        unique_service_ids(s),
        0 <= i < s.len(),
        s[i].service_id@ == id,
    ensures
        has_service(s, id),
        svc_idx(s, id) == i,
{
    assert(has_service(s, id));
    let j = svc_idx(s, id);
    assert(0 <= j < s.len() && s[j].service_id@ == id);
}

/// Manages service registration and discovery.
pub struct ServiceRegistry {
    services: Vec<ServiceInfo>,
    heartbeat_timeout_ms: u64,
}

impl ServiceRegistry {
    /// The registered services, in registration order.
    pub closed spec fn services_seq(self) -> Seq<ServiceInfo> {
        self.services@
    }

    /// How long a service may stay silent before it is pruned,
    /// milliseconds.
    pub closed spec fn timeout_spec(self) -> u64 {
        self.heartbeat_timeout_ms
    }

    /// Well-formedness: service identifiers are unique.
    pub open spec fn wf(self) -> bool {
        unique_service_ids(self.services_seq())
    }

    /// Creates an empty registry with the given heartbeat timeout.
    pub fn new(heartbeat_timeout_ms: u64) -> (r: Self)
        ensures
            r.wf(),
            r.services_seq() == Seq::<ServiceInfo>::empty(),
            r.timeout_spec() == heartbeat_timeout_ms,
    {
        ServiceRegistry { services: Vec::new(), heartbeat_timeout_ms }
    }

    /// The index of the service with identifier `service_id`, if any.
    fn find_service(&self, service_id: &str) -> (r: Option<usize>)
        ensures
            match r {
                Some(i) => i < self.services_seq().len()
                    && self.services_seq()[i as int].service_id@ == service_id@,
                None => !has_service(self.services_seq(), service_id@),
            },
    {
        let n = self.services.len();
        for i in 0..n
            invariant
                n == self.services@.len(),
                forall|k: int| 0 <= k < i ==> (#[trigger] self.services@[k]).service_id@ != service_id@,
        {
            if str_eq(self.services[i].service_id.as_str(), service_id) {
                return Some(i);
            }
        }
        None
    }

    /// Registers a service; refused with `AlreadyRegistered` when the
    /// identifier is taken. Registration and heartbeat are stamped with the
    /// wall clock.
    pub fn register_service(&mut self, registration: ServiceRegistration) -> (r: Result<
        (),
        ProtocolError,
    >)
        requires
            old(self).wf(),
        ensures
            final(self).wf(),
            final(self).timeout_spec() == old(self).timeout_spec(),
            has_service(old(self).services_seq(), registration.service_id@) ==> r == Err::<
                (),
                ProtocolError,
            >(ProtocolError::AlreadyRegistered) && *final(self) == *old(self),
            !has_service(old(self).services_seq(), registration.service_id@) ==> {
                &&& r == Ok::<(), ProtocolError>(())
                &&& final(self).services_seq().len() == old(self).services_seq().len() + 1
                &&& final(self).services_seq().subrange(0, old(self).services_seq().len() as int)
                    == old(self).services_seq()
                &&& {
                    let s = final(self).services_seq().last();
                    &&& s.service_id == registration.service_id
                    &&& s.service_type == registration.service_type
                    &&& s.version == registration.version
                    &&& s.endpoint == registration.endpoint
                    &&& s.capabilities == registration.capabilities
                    &&& s.health_check_endpoint == registration.health_check_endpoint
                    &&& s.metadata == registration.metadata
                    &&& s.registered_at == s.last_heartbeat
                }
            },
    {
        if self.find_service(registration.service_id.as_str()).is_some() {
            return Err(ProtocolError::AlreadyRegistered);
        }
        let ghost prev = self.services@;
        let now = timestamp_millis();
        self.services.push(
            ServiceInfo {
                service_id: registration.service_id,
                service_type: registration.service_type,
                version: registration.version,
                endpoint: registration.endpoint,
                capabilities: registration.capabilities,
                health_check_endpoint: registration.health_check_endpoint,
                metadata: registration.metadata,
                registered_at: now,
                last_heartbeat: now,
            },
        );
        proof {
            assert(self.services@.subrange(0, prev.len() as int) =~= prev);
        }
        Ok(())
    }

    /// Deregisters a service; refused with `NotFound` when no service
    /// carries the identifier.
    pub fn deregister_service(&mut self, service_id: &str) -> (r: Result<(), ProtocolError>)
        requires
            old(self).wf(),
        ensures
            final(self).wf(),
            final(self).timeout_spec() == old(self).timeout_spec(),
            !has_service(old(self).services_seq(), service_id@) ==> r == Err::<(), ProtocolError>(
                ProtocolError::NotFound,
            ) && *final(self) == *old(self),
            has_service(old(self).services_seq(), service_id@) ==> r == Ok::<(), ProtocolError>(())
                && final(self).services_seq() == old(self).services_seq().remove(
                svc_idx(old(self).services_seq(), service_id@),
            ),
    {
        let found = self.find_service(service_id);
        match found {
            None => Err(ProtocolError::NotFound),
            Some(i) => {
                proof {
                    lemma_svc_idx_is(self.services@, service_id@, i as int);
                }
                self.services.remove(i);
                Ok(())
            },
        }
    }

    /// Refreshes a service's heartbeat from the wall clock; refused with
    /// `NotFound` when no service carries the identifier.
    pub fn heartbeat(&mut self, service_id: &str) -> (r: Result<(), ProtocolError>)
        requires
            old(self).wf(),
        ensures
            final(self).wf(),
            final(self).timeout_spec() == old(self).timeout_spec(),
            !has_service(old(self).services_seq(), service_id@) ==> r == Err::<(), ProtocolError>(
                ProtocolError::NotFound,
            ) && *final(self) == *old(self),
            has_service(old(self).services_seq(), service_id@) ==> {
                let si = svc_idx(old(self).services_seq(), service_id@);
                let p = old(self).services_seq()[si];
                let s = final(self).services_seq()[si];
                &&& r == Ok::<(), ProtocolError>(())
                &&& final(self).services_seq().len() == old(self).services_seq().len()
                &&& (forall|k: int|
                    0 <= k < old(self).services_seq().len() && k != si
                        ==> #[trigger] final(self).services_seq()[k] == old(self).services_seq()[k])
                &&& s == ServiceInfo { last_heartbeat: s.last_heartbeat, ..p }
            },
    {
        let found = self.find_service(service_id);
        match found {
            None => Err(ProtocolError::NotFound),
            Some(i) => {
                proof {
                    lemma_svc_idx_is(self.services@, service_id@, i as int);
                }
                let ghost prev = self.services@;
                let now = timestamp_millis();
                let mut s = self.services.remove(i);
                s.last_heartbeat = now;
                self.services.insert(i, s);
                proof {
                    assert(self.services@ =~= prev.update(
                        i as int,
                        ServiceInfo { last_heartbeat: now, ..prev[i as int] },
                    ));
                }
                Ok(())
            },
        }
    }

    /// Copies a service record; the copy agrees with the original in every
    /// field.
    fn clone_info(s: &ServiceInfo) -> (c: ServiceInfo)
        ensures
            info_matches(c, *s),
    {
        let service_type = match &s.service_type {
            ServiceType::Orchestrator => ServiceType::Orchestrator,
            ServiceType::Validator => ServiceType::Validator,
            ServiceType::Worker => ServiceType::Worker,
            ServiceType::Storage => ServiceType::Storage,
            ServiceType::Monitoring => ServiceType::Monitoring,
            ServiceType::Gateway => ServiceType::Gateway,
            ServiceType::Custom(name) => ServiceType::Custom(name.clone()),
        };
        let n = s.capabilities.len();
        let mut capabilities: Vec<String> = Vec::new();
        for i in 0..n
            invariant
                n == s.capabilities@.len(),
                capabilities@.len() == i,
                forall|k: int| 0 <= k < i ==> #[trigger] capabilities@[k] == s.capabilities@[k],
        {
            capabilities.push(s.capabilities[i].clone());
        }
        let m = s.metadata.len();
        let mut metadata: Vec<(String, String)> = Vec::new();
        for i in 0..m
            invariant
                m == s.metadata@.len(),
                metadata@.len() == i,
                forall|k: int| 0 <= k < i ==> #[trigger] metadata@[k] == s.metadata@[k],
        {
            metadata.push((s.metadata[i].0.clone(), s.metadata[i].1.clone()));
        }
        proof {
            assert(capabilities@ =~= s.capabilities@);
            assert(metadata@ =~= s.metadata@);
        }
        ServiceInfo {
            service_id: s.service_id.clone(),
            service_type,
            version: s.version.clone(),
            endpoint: s.endpoint.clone(),
            capabilities,
            health_check_endpoint: match &s.health_check_endpoint {
                Some(e) => Some(e.clone()),
                None => None,
            },
            metadata,
            registered_at: s.registered_at,
            last_heartbeat: s.last_heartbeat,
        }
    }

    /// A copy of the service registered under `service_id`, if any.
    pub fn get_service(&self, service_id: &str) -> (r: Option<ServiceInfo>)
        requires
            self.wf(),
        ensures
            r is Some <==> has_service(self.services_seq(), service_id@),
            r matches Some(s) ==> info_matches(s, service_at(self.services_seq(), service_id@)),
    {
        let found = self.find_service(service_id);
        match found {
            None => None,
            Some(i) => {
                proof {
                    lemma_svc_idx_is(self.services@, service_id@, i as int);
                }
                Some(Self::clone_info(&self.services[i]))
            },
        }
    }

    /// Whether two service types name the same role.
    fn type_eq(a: &ServiceType, b: &ServiceType) -> (r: bool)
        ensures
            r == st_eq(*a, *b),
    {
        match (a, b) {
            (ServiceType::Orchestrator, ServiceType::Orchestrator) => true,
            (ServiceType::Validator, ServiceType::Validator) => true,
            (ServiceType::Worker, ServiceType::Worker) => true,
            (ServiceType::Storage, ServiceType::Storage) => true,
            (ServiceType::Monitoring, ServiceType::Monitoring) => true,
            (ServiceType::Gateway, ServiceType::Gateway) => true,
            (ServiceType::Custom(x), ServiceType::Custom(y)) => str_eq(x.as_str(), y.as_str()),
            _ => false,
        }
    }

    /// Whether `offered` contains a capability reading `cap`.
    fn offers_cap(offered: &Vec<String>, cap: &String) -> (r: bool)
        ensures
            r == svc_has_cap(offered@, cap@),
    {
        let m = offered.len();
        for j in 0..m
            invariant
                m == offered@.len(),
                forall|t: int| 0 <= t < j ==> (#[trigger] offered@[t])@ != cap@,
        {
            if str_eq(offered[j].as_str(), cap.as_str()) {
                proof {
                    let gj = j as int;
                    assert(0 <= gj < offered@.len() && (offered@[gj])@ == cap@);
                }
                return true;
            }
        }
        false
    }

    /// Whether the metadata holds the pair `(k, v)`.
    fn metadata_holds(md: &Vec<(String, String)>, k: &String, v: &String) -> (r: bool)
        ensures
            r == meta_has(md@, k@, v@),
    {
        let m = md.len();
        for j in 0..m
            invariant
                m == md@.len(),
                forall|t: int|
                    0 <= t < j ==> !((#[trigger] md@[t]).0@ == k@ && md@[t].1@ == v@),
        {
            if str_eq(md[j].0.as_str(), k.as_str()) && str_eq(md[j].1.as_str(), v.as_str()) {
                proof {
                    let gj = j as int;
                    assert(0 <= gj < md@.len() && md@[gj].0@ == k@ && md@[gj].1@ == v@);
                }
                return true;
            }
        }
        false
    }

    /// Whether a service satisfies every criterion of a query.
    fn query_matches(s: &ServiceInfo, q: &ServiceQuery) -> (r: bool)
        ensures
            r == matches_query(*s, *q),
    {
        if let Some(t) = &q.service_type {
            if !Self::type_eq(&s.service_type, t) {
                return false;
            }
        }
        let n = q.capabilities.len();
        for i in 0..n
            invariant
                n == q.capabilities@.len(),
                forall|k: int|
                    0 <= k < i ==> #[trigger] svc_has_cap(s.capabilities@, q.capabilities@[k]@),
        {
            if !Self::offers_cap(&s.capabilities, &q.capabilities[i]) {
                return false;
            }
        }
        if let Some(v) = &q.version {
            if !str_eq(s.version.as_str(), v.as_str()) {
                return false;
            }
        }
        let m = q.metadata_filters.len();
        for i in 0..m
            invariant
                m == q.metadata_filters@.len(),
                forall|k: int|
                    0 <= k < i ==> #[trigger] meta_has(
                        s.metadata@,
                        q.metadata_filters@[k].0@,
                        q.metadata_filters@[k].1@,
                    ),
        {
            if !Self::metadata_holds(
                &s.metadata,
                &q.metadata_filters[i].0,
                &q.metadata_filters[i].1,
            ) {
                return false;
            }
        }
        true
    }

    /// The services that satisfy every criterion of the query, in
    /// registration order, as copies.
    pub fn query_services(&self, query: ServiceQuery) -> (r: Vec<ServiceInfo>)
        ensures
            r@.len() == q_filter(self.services_seq(), query).len(),
            forall|k: int|
                0 <= k < r@.len() ==> info_matches(
                    #[trigger] r@[k],
                    q_filter(self.services_seq(), query)[k],
                ),
    {
        let n = self.services.len();
        let mut out: Vec<ServiceInfo> = Vec::new();
        for i in 0..n
            invariant
                n == self.services@.len(),
                out@.len() == q_filter(self.services@.subrange(0, i as int), query).len(),
                forall|k: int|
                    0 <= k < out@.len() ==> info_matches(
                        #[trigger] out@[k],
                        q_filter(self.services@.subrange(0, i as int), query)[k],
                    ),
        {
            proof {
                assert(self.services@.subrange(0, i + 1) =~= self.services@.subrange(
                    0,
                    i as int,
                ).push(self.services@[i as int]));
                lemma_q_filter_push(
                    self.services@.subrange(0, i as int),
                    self.services@[i as int],
                    query,
                );
            }
            if Self::query_matches(&self.services[i], &query) {
                let c = Self::clone_info(&self.services[i]);
                let ghost before = out@;
                out.push(c);
                proof {
                    assert(info_matches(out@.last(), self.services@[i as int]));
                    assert(forall|k: int| 0 <= k < before.len() ==> #[trigger] out@[k] == before[k]);
                }
            }
        }
        proof {
            assert(self.services@.subrange(0, n as int) =~= self.services@);
        }
        out
    }

    /// The services of the given type, in registration order, as copies.
    pub fn get_services_by_type(&self, service_type: &ServiceType) -> (r: Vec<ServiceInfo>)
        ensures
            r@.len() == t_filter(self.services_seq(), *service_type).len(),
            forall|k: int|
                0 <= k < r@.len() ==> info_matches(
                    #[trigger] r@[k],
                    t_filter(self.services_seq(), *service_type)[k],
                ),
    {
        let n = self.services.len();
        let mut out: Vec<ServiceInfo> = Vec::new();
        for i in 0..n
            invariant
                n == self.services@.len(),
                out@.len() == t_filter(self.services@.subrange(0, i as int), *service_type).len(),
                forall|k: int|
                    0 <= k < out@.len() ==> info_matches(
                        #[trigger] out@[k],
                        t_filter(self.services@.subrange(0, i as int), *service_type)[k],
                    ),
        {
            proof {
                assert(self.services@.subrange(0, i + 1) =~= self.services@.subrange(
                    0,
                    i as int,
                ).push(self.services@[i as int]));
                lemma_t_filter_push(
                    self.services@.subrange(0, i as int),
                    self.services@[i as int],
                    *service_type,
                );
            }
            if Self::type_eq(&self.services[i].service_type, service_type) {
                let c = Self::clone_info(&self.services[i]);
                let ghost before = out@;
                out.push(c);
                proof {
                    assert(info_matches(out@.last(), self.services@[i as int]));
                    assert(forall|k: int| 0 <= k < before.len() ==> #[trigger] out@[k] == before[k]);
                }
            }
        }
        proof {
            assert(self.services@.subrange(0, n as int) =~= self.services@);
        }
        out
    }

    /// Prunes every service whose last heartbeat lies more than the timeout
    /// before `now`.
    pub fn prune_stale(&mut self, now: u64)
        requires
            old(self).wf(),
        ensures
            final(self).wf(),
            final(self).timeout_spec() == old(self).timeout_spec(),
            final(self).services_seq() == fresh_services(
                old(self).services_seq(),
                old(self).timeout_spec(),
                now,
            ),
    {
        let ghost orig = self.services@;
        let ghost timeout = self.heartbeat_timeout_ms;
        let mut i: usize = 0;
        let ghost mut k: int = 0;
        while i < self.services.len()
            invariant
                self.wf(),
                self.heartbeat_timeout_ms == timeout,
                0 <= k <= orig.len(),
                i as int == fresh_services(orig.subrange(0, k), timeout, now).len(),
                self.services@ == fresh_services(orig.subrange(0, k), timeout, now)
                    + orig.subrange(k, orig.len() as int),
            decreases orig.len() - k,
        {
            proof {
                assert(self.services@[i as int] == orig[k]);
                assert(orig.subrange(0, k + 1) =~= orig.subrange(0, k).push(orig[k]));
                lemma_fresh_push(orig.subrange(0, k), orig[k], timeout, now);
            }
            let fresh = now.saturating_sub(self.services[i].last_heartbeat)
                <= self.heartbeat_timeout_ms;
            if fresh {
                i = i + 1;
                proof {
                    k = k + 1;
                    assert(self.services@ =~= fresh_services(orig.subrange(0, k), timeout, now)
                        + orig.subrange(k, orig.len() as int));
                }
            } else {
                self.services.remove(i);
                proof {
                    k = k + 1;
                    assert(self.services@ =~= fresh_services(orig.subrange(0, k), timeout, now)
                        + orig.subrange(k, orig.len() as int));
                }
            }
        }
        proof {
            assert(orig.subrange(0, orig.len() as int) =~= orig);
            assert(self.services@ =~= fresh_services(orig, timeout, now));
        }
    }

    /// Prunes every service that stopped heartbeating past the timeout, as
    /// seen from the wall clock.
    pub fn cleanup_stale_services(&mut self)
        requires
            old(self).wf(),
        ensures
            final(self).wf(),
            final(self).timeout_spec() == old(self).timeout_spec(),
            exists|t: u64|
                final(self).services_seq() == #[trigger] fresh_services(
                    old(self).services_seq(),
                    old(self).timeout_spec(),
                    t,
                ),
    {
        let now = timestamp_millis();
        self.prune_stale(now);
    }

    /// How many services are registered.
    pub fn service_count(&self) -> (r: usize)
        ensures
            r == self.services_seq().len(),
    {
        self.services.len()
    }

    /// Whether `out` already holds a type naming the same role as `t`.
    fn holds_type(out: &Vec<ServiceType>, t: &ServiceType) -> (r: bool)
        ensures
            r == types_has(out@, *t),
    {
        let m = out.len();
        for u in 0..m
            invariant
                m == out@.len(),
                forall|w: int| 0 <= w < u ==> !st_eq(#[trigger] out@[w], *t),
        {
            if Self::type_eq(&out[u], t) {
                proof {
                    let gu = u as int;
                    assert(0 <= gu < out@.len() && st_eq(out@[gu], *t));
                }
                return true;
            }
        }
        false
    }

    /// The distinct roles among the registered services, in order of first
    /// appearance, as copies.
    pub fn get_service_types(&self) -> (r: Vec<ServiceType>)
        ensures
            forall|a: int, b: int|
                0 <= a < r@.len() && 0 <= b < r@.len() && a != b ==> !st_eq(
                    #[trigger] r@[a],
                    #[trigger] r@[b],
                ),
            forall|k: int|
                0 <= k < r@.len() ==> #[trigger] type_among(r@[k], self.services_seq()),
            forall|j: int|
                0 <= j < self.services_seq().len() ==> types_has(
                    r@,
                    (#[trigger] self.services_seq()[j]).service_type,
                ),
    {
        let n = self.services.len();
        let mut out: Vec<ServiceType> = Vec::new();
        for i in 0..n
            invariant
                n == self.services@.len(),
                forall|a: int, b: int|
                    0 <= a < out@.len() && 0 <= b < out@.len() && a != b ==> !st_eq(
                        #[trigger] out@[a],
                        #[trigger] out@[b],
                    ),
                forall|k: int|
                    0 <= k < out@.len() ==> #[trigger] type_among(out@[k], self.services@),
                forall|j: int|
                    0 <= j < i ==> types_has(
                        out@,
                        (#[trigger] self.services@[j]).service_type,
                    ),
        {
            let seen = Self::holds_type(&out, &self.services[i].service_type);
            if !seen {
                let copied = match &self.services[i].service_type {
                    ServiceType::Orchestrator => ServiceType::Orchestrator,
                    ServiceType::Validator => ServiceType::Validator,
                    ServiceType::Worker => ServiceType::Worker,
                    ServiceType::Storage => ServiceType::Storage,
                    ServiceType::Monitoring => ServiceType::Monitoring,
                    ServiceType::Gateway => ServiceType::Gateway,
                    ServiceType::Custom(name) => ServiceType::Custom(name.clone()),
                };
                proof {
                    assert(st_eq(copied, self.services@[i as int].service_type));
                }
                let ghost before = out@;
                out.push(copied);
                proof {
                    let gi = i as int;
                    let last = out@.len() - 1;
                    assert(out@[last] == copied);
                    assert(forall|k: int| 0 <= k < before.len() ==> #[trigger] out@[k] == before[k]);
                    assert forall|a: int, b: int|
                        0 <= a < out@.len() && 0 <= b < out@.len() && a != b implies !st_eq(
                        #[trigger] out@[a],
                        #[trigger] out@[b],
                    ) by {
                        if a == last && b < last {
                            assert(!types_has(before, copied));
                            if st_eq(out@[a], out@[b]) {
                                assert(st_eq(before[b], copied)) by {
                                    Self::lemma_st_eq_sym(out@[a], out@[b]);
                                }
                            }
                        } else if b == last && a < last {
                            assert(!types_has(before, copied));
                            if st_eq(out@[a], out@[b]) {
                                assert(st_eq(before[a], copied));
                            }
                        } else {
                            assert(out@[a] == before[a] && out@[b] == before[b]);
                        }
                    }
                    assert forall|k: int|
                        0 <= k < out@.len() implies #[trigger] type_among(
                        out@[k],
                        self.services@,
                    ) by {
                        if k < last {
                            assert(out@[k] == before[k]);
                            assert(type_among(before[k], self.services@));
                        } else {
                            assert(st_eq(out@[k], self.services@[gi].service_type));
                        }
                    }
                    assert forall|j: int|
                        0 <= j < gi + 1 implies types_has(
                        out@,
                        (#[trigger] self.services@[j]).service_type,
                    ) by {
                        if j < gi {
                            let u = choose|u: int|
                                0 <= u < before.len() && st_eq(
                                    #[trigger] before[u],
                                    self.services@[j].service_type,
                                );
                            assert(st_eq(out@[u], self.services@[j].service_type));
                        } else {
                            assert(st_eq(out@[last], self.services@[gi].service_type));
                        }
                    }
                }
            } else {
                proof {
                    let gi = i as int;
                    assert(types_has(out@, self.services@[gi].service_type));
                }
            }
        }
        out
    }

    /// Naming the same role is symmetric.
    proof fn lemma_st_eq_sym(a: ServiceType, b: ServiceType)
        requires
            st_eq(a, b),
        ensures
            st_eq(b, a),
    {
    }
}

impl Default for ServiceRegistry {
    /// A registry with a five-minute heartbeat timeout.
    fn default() -> (r: Self)
        ensures
            r.wf(),
            r.services_seq() == Seq::<ServiceInfo>::empty(),
            r.timeout_spec() == 300000,
    {
        ServiceRegistry::new(300000)
    }
}

} // verus!
