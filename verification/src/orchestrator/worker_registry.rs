//! Registry of workers: health via heartbeats, and deterministic candidate
//! selection.
//!
//! A worker is a candidate for a task only while it is healthy, heartbeated
//! within the timeout, advertises every required capability, and has the
//! capacity the task needs. Survivors are ranked by load, then by worker id,
//! so selection is deterministic.

use crate::shared::error::ProtocolError;
use crate::shared::types::{WorkerId, WorkerInfo, WorkerResources};
use crate::shared::utils::str_eq;
use crate::worker::health_reporter::HealthStatus;
use vstd::pervasive::VecAdditionalExecFns;
use vstd::prelude::*;

verus! {

/// Whether some capability in `offered` reads `cap`.
pub open spec fn has_cap(offered: Seq<String>, cap: Seq<char>) -> bool {
    exists|j: int| 0 <= j < offered.len() && (#[trigger] offered[j])@ == cap
}

/// Whether every capability in `needed` appears among `offered`.
pub open spec fn caps_subset(needed: Seq<String>, offered: Seq<String>) -> bool {
    forall|i: int| 0 <= i < needed.len() ==> #[trigger] has_cap(offered, needed[i]@)
}

/// Whether `have` can satisfy `need` in every dimension.
pub open spec fn resources_satisfy(have: WorkerResources, need: WorkerResources) -> bool {
    &&& have.cpu_cores >= need.cpu_cores
    &&& have.memory_bytes >= need.memory_bytes
    &&& have.gpu_count >= need.gpu_count
    &&& have.disk_bytes >= need.disk_bytes
}

/// Whether the worker heartbeated within the timeout, as seen at `now`.
pub open spec fn heartbeat_fresh(w: WorkerInfo, timeout_ms: u64, now: u64) -> bool {
    now - w.last_heartbeat <= timeout_ms
}

/// Whether the worker qualifies as a candidate: healthy, fresh, capable,
/// and with enough capacity.
pub open spec fn eligible(
    w: WorkerInfo,
    caps: Seq<String>,
    need: WorkerResources,
    timeout_ms: u64,
    now: u64,
) -> bool {
    &&& w.healthy
    &&& heartbeat_fresh(w, timeout_ms, now)
    &&& caps_subset(caps, w.capabilities@)
    &&& resources_satisfy(w.resources, need)
}

/// Whether worker `a` ranks strictly before worker `b`: lower load first,
/// lower id on equal load.
pub open spec fn ranks_before(a: WorkerInfo, b: WorkerInfo) -> bool {
    a.load_permille < b.load_permille || (a.load_permille == b.load_permille && a.id < b.id)
}

/// No two workers share an id.
pub open spec fn unique_worker_ids(s: Seq<WorkerInfo>) -> bool {
    forall|i: int, j: int|
        0 <= i < s.len() && 0 <= j < s.len() && i != j ==> (#[trigger] s[i]).id != (
        #[trigger] s[j]).id
}

/// Whether a worker with identifier `id` is registered.
pub open spec fn has_worker(s: Seq<WorkerInfo>, id: WorkerId) -> bool {
    exists|i: int| 0 <= i < s.len() && (#[trigger] s[i]).id == id
}

/// The index of the worker with identifier `id`.
pub open spec fn worker_idx(s: Seq<WorkerInfo>, id: WorkerId) -> int {
    choose|i: int| 0 <= i < s.len() && (#[trigger] s[i]).id == id
}

/// The worker with identifier `id`.
pub open spec fn worker_at(s: Seq<WorkerInfo>, id: WorkerId) -> WorkerInfo {
    s[worker_idx(s, id)]
}

/// With unique ids, an index holding `id` is *the* index of `id`.
proof fn lemma_worker_idx_is(s: Seq<WorkerInfo>, id: WorkerId, i: int)
    requires
        unique_worker_ids(s),
        0 <= i < s.len(),
        s[i].id == id,
    ensures
        has_worker(s, id),
        worker_idx(s, id) == i,
{
    assert(has_worker(s, id));
    let j = worker_idx(s, id);
    assert(0 <= j < s.len() && s[j].id == id);
}

/// Tracks worker health and load, and selects assignment candidates.
pub struct WorkerRegistry {
    workers: Vec<WorkerInfo>,
    heartbeat_timeout_ms: u64,
}

impl WorkerRegistry {
    /// The registered workers, in registration order.
    pub closed spec fn workers_seq(self) -> Seq<WorkerInfo> {
        self.workers@
    }

    /// How long a worker may stay silent before it is excluded,
    /// milliseconds.
    pub closed spec fn timeout_spec(self) -> u64 {
        self.heartbeat_timeout_ms
    }

    /// Well-formedness: worker ids are unique.
    pub open spec fn wf(self) -> bool {
        unique_worker_ids(self.workers_seq())
    }

    /// Creates an empty registry with the given heartbeat timeout.
    pub fn new(heartbeat_timeout_ms: u64) -> (r: Self)
        ensures
            r.wf(),
            r.workers_seq() == Seq::<WorkerInfo>::empty(),
            r.timeout_spec() == heartbeat_timeout_ms,
    {
        WorkerRegistry { workers: Vec::new(), heartbeat_timeout_ms }
    }

    /// The index of the worker with identifier `worker_id`, if registered.
    fn find_worker(&self, worker_id: WorkerId) -> (r: Option<usize>)
        ensures
            match r {
                Some(i) => i < self.workers_seq().len() && self.workers_seq()[i as int].id
                    == worker_id,
                None => !has_worker(self.workers_seq(), worker_id),
            },
    {
        let n = self.workers.len();
        for i in 0..n
            invariant
                n == self.workers@.len(),
                forall|k: int| 0 <= k < i ==> (#[trigger] self.workers@[k]).id != worker_id,
        {
            if self.workers[i].id == worker_id {
                return Some(i);
            }
        }
        None
    }

    /// Registers a worker; refused with `AlreadyRegistered` when a worker
    /// with the same id exists.
    pub fn register_worker(&mut self, worker: WorkerInfo) -> (r: Result<(), ProtocolError>)
        requires
            old(self).wf(),
        ensures
            final(self).wf(),
            final(self).timeout_spec() == old(self).timeout_spec(),
            has_worker(old(self).workers_seq(), worker.id) ==> r == Err::<(), ProtocolError>(
                ProtocolError::AlreadyRegistered,
            ) && *final(self) == *old(self),
            !has_worker(old(self).workers_seq(), worker.id) ==> r == Ok::<(), ProtocolError>(())
                && final(self).workers_seq() == old(self).workers_seq().push(worker),
    {
        if self.find_worker(worker.id).is_some() {
            return Err(ProtocolError::AlreadyRegistered);
        }
        self.workers.push(worker);
        Ok(())
    }

    /// Records a heartbeat from a worker: its last-heartbeat time becomes
    /// `now` and it counts as healthy again. Fails with `NotFound` when no
    /// such worker is registered.
    pub fn heartbeat(&mut self, worker_id: WorkerId, now: u64) -> (r: Result<(), ProtocolError>)
        requires
            old(self).wf(),
        ensures
            final(self).wf(),
            final(self).timeout_spec() == old(self).timeout_spec(),
            !has_worker(old(self).workers_seq(), worker_id) ==> r == Err::<(), ProtocolError>(
                ProtocolError::NotFound,
            ) && *final(self) == *old(self),
            has_worker(old(self).workers_seq(), worker_id) ==> {
                let w = worker_at(old(self).workers_seq(), worker_id);
                r == Ok::<(), ProtocolError>(()) && final(self).workers_seq() == old(
                    self,
                ).workers_seq().update(
                    worker_idx(old(self).workers_seq(), worker_id),
                    WorkerInfo { healthy: true, last_heartbeat: now, ..w },
                )
            },
    {
        let found = self.find_worker(worker_id);
        match found {
            None => Err(ProtocolError::NotFound),
            Some(i) => {
                proof {
                    lemma_worker_idx_is(self.workers@, worker_id, i as int);
                }
                let ghost prev = self.workers@;
                let mut w = self.workers.remove(i);
                w.healthy = true;
                w.last_heartbeat = now;
                self.workers.insert(i, w);
                proof {
                    assert(self.workers@ =~= prev.update(
                        i as int,
                        WorkerInfo { healthy: true, last_heartbeat: now, ..prev[i as int] },
                    ));
                }
                Ok(())
            },
        }
    }

    /// Updates a worker's advertised load. Fails with `NotFound` when no
    /// such worker is registered.
    pub fn update_load(&mut self, worker_id: WorkerId, load_permille: u32) -> (r: Result<
        (),
        ProtocolError,
    >)
        requires
            old(self).wf(),
        ensures
            final(self).wf(),
            final(self).timeout_spec() == old(self).timeout_spec(),
            !has_worker(old(self).workers_seq(), worker_id) ==> r == Err::<(), ProtocolError>(
                ProtocolError::NotFound,
            ) && *final(self) == *old(self),
            has_worker(old(self).workers_seq(), worker_id) ==> {
                let w = worker_at(old(self).workers_seq(), worker_id);
                r == Ok::<(), ProtocolError>(()) && final(self).workers_seq() == old(
                    self,
                ).workers_seq().update(
                    worker_idx(old(self).workers_seq(), worker_id),
                    WorkerInfo { load_permille, ..w },
                )
            },
    {
        let found = self.find_worker(worker_id);
        match found {
            None => Err(ProtocolError::NotFound),
            Some(i) => {
                proof {
                    lemma_worker_idx_is(self.workers@, worker_id, i as int);
                }
                let ghost prev = self.workers@;
                let mut w = self.workers.remove(i);
                w.load_permille = load_permille;
                self.workers.insert(i, w);
                proof {
                    assert(self.workers@ =~= prev.update(
                        i as int,
                        WorkerInfo { load_permille, ..prev[i as int] },
                    ));
                }
                Ok(())
            },
        }
    }

    /// The health of a worker as seen at `now`: `Unknown` if it is not
    /// registered, `Unhealthy` if it failed a check or stayed silent past
    /// the timeout, `Healthy` otherwise.
    pub fn worker_health(&self, worker_id: WorkerId, now: u64) -> (r: HealthStatus)
        requires
            self.wf(),
        ensures
            !has_worker(self.workers_seq(), worker_id) ==> r == HealthStatus::Unknown,
            has_worker(self.workers_seq(), worker_id) ==> {
                let w = worker_at(self.workers_seq(), worker_id);
                r == (if w.healthy && heartbeat_fresh(w, self.timeout_spec(), now) {
                    HealthStatus::Healthy
                } else {
                    HealthStatus::Unhealthy
                })
            },
    {
        let found = self.find_worker(worker_id);
        match found {
            None => HealthStatus::Unknown,
            Some(i) => {
                proof {
                    lemma_worker_idx_is(self.workers@, worker_id, i as int);
                }
                let w = &self.workers[i];
                let fresh = now.saturating_sub(w.last_heartbeat) <= self.heartbeat_timeout_ms;
                if w.healthy && fresh {
                    HealthStatus::Healthy
                } else {
                    HealthStatus::Unhealthy
                }
            },
        }
    }

    /// Whether `offered` contains a capability reading `cap`.
    fn offers_one(offered: &Vec<String>, cap: &String) -> (r: bool)
        ensures
            r == has_cap(offered@, cap@),
    {
        let m = offered.len();
        for j in 0..m
            invariant
                m == offered@.len(),
                forall|t: int| 0 <= t < j ==> (#[trigger] offered@[t])@ != cap@,
        {
            if str_eq(offered[j].as_str(), cap.as_str()) {
                proof {
                    let gj = j as int;
                    assert(0 <= gj < offered@.len() && (offered@[gj])@ == cap@);
                }
                return true;
            }
        }
        false
    }

    /// Whether `w` offers every capability in `caps`.
    fn offers_all(w: &WorkerInfo, caps: &Vec<String>) -> (r: bool)
        ensures
            r == caps_subset(caps@, w.capabilities@),
    {
        let n = caps.len();
        for i in 0..n
            invariant
                n == caps@.len(),
                forall|k: int| 0 <= k < i ==> #[trigger] has_cap(w.capabilities@, caps@[k]@),
        {
            let have = Self::offers_one(&w.capabilities, &caps[i]);
            if !have {
                return false;
            }
        }
        true
    }

    /// Selects the best candidate for a task: among the eligible workers
    /// (healthy, fresh heartbeat, all required capabilities, enough
    /// capacity), the one with the lowest load, ties broken by the lowest
    /// id; `None` when no worker qualifies.
    pub fn select_candidate(
        &self,
        capabilities: &Vec<String>,
        resource_need: &WorkerResources,
        now: u64,
    ) -> (r: Option<WorkerId>)
        requires
            self.wf(),
        ensures
            r is None ==> forall|i: int|
                0 <= i < self.workers_seq().len() ==> !eligible(
                    #[trigger] self.workers_seq()[i],
                    capabilities@,
                    *resource_need,
                    self.timeout_spec(),
                    now,
                ),
            r matches Some(wid) ==> has_worker(self.workers_seq(), wid) && {
                let w = worker_at(self.workers_seq(), wid);
                &&& eligible(w, capabilities@, *resource_need, self.timeout_spec(), now)
                &&& forall|i: int|
                    0 <= i < self.workers_seq().len() && eligible(
                        #[trigger] self.workers_seq()[i],
                        capabilities@,
                        *resource_need,
                        self.timeout_spec(),
                        now,
                    ) ==> (self.workers_seq()[i].id == wid || ranks_before(
                        w,
                        self.workers_seq()[i],
                    ))
            },
    {
        let n = self.workers.len();
        let mut best: Option<usize> = None;
        for i in 0..n
            invariant
                self.wf(),
                n == self.workers@.len(),
                match best {
                    Some(b) => b < i && eligible(
                        self.workers@[b as int],
                        capabilities@,
                        *resource_need,
                        self.timeout_spec(),
                        now,
                    ) && forall|k: int|
                        0 <= k < i && eligible(
                            #[trigger] self.workers@[k],
                            capabilities@,
                            *resource_need,
                            self.timeout_spec(),
                            now,
                        ) ==> (k == b as int || ranks_before(
                            self.workers@[b as int],
                            self.workers@[k],
                        )),
                    None => forall|k: int|
                        0 <= k < i ==> !eligible(
                            #[trigger] self.workers@[k],
                            capabilities@,
                            *resource_need,
                            self.timeout_spec(),
                            now,
                        ),
                },
        {
            let w = &self.workers[i];
            let fresh = now.saturating_sub(w.last_heartbeat) <= self.heartbeat_timeout_ms;
            let capable = Self::offers_all(w, capabilities);
            let roomy = w.resources.cpu_cores >= resource_need.cpu_cores
                && w.resources.memory_bytes >= resource_need.memory_bytes
                && w.resources.gpu_count >= resource_need.gpu_count && w.resources.disk_bytes
                >= resource_need.disk_bytes;
            if w.healthy && fresh && capable && roomy {
                best = match best {
                    None => Some(i),
                    Some(b) => {
                        let cur = &self.workers[b];
                        if w.load_permille < cur.load_permille || (w.load_permille
                            == cur.load_permille && w.id < cur.id) {
                            Some(i)
                        } else {
                            Some(b)
                        }
                    },
                };
            }
        }
        match best {
            None => None,
            Some(b) => {
                proof {
                    lemma_worker_idx_is(self.workers@, self.workers@[b as int].id, b as int);
                }
                Some(self.workers[b].id)
            },
        }
    }

    /// How many workers are registered.
    pub fn worker_count(&self) -> (r: usize)
        ensures
            r == self.workers_seq().len(),
    {
        self.workers.len()
    }
}

} // verus!
