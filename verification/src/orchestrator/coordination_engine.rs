//! The engine that drives every admitted task through its lifecycle.
//!
//! A task is admitted into the priority queue, picked up by a scheduling
//! step that selects a worker and reserves resources, gated by a quorum
//! proposal, and on commitment bound to its worker; execution results,
//! proposal timeouts, and cancellations each advance the task until it
//! reaches exactly one terminal state. A stage only proceeds if the task is
//! still in the expected prior status, failures release any held
//! reservation, and transient failures requeue the task until its retry
//! budget runs out.

use crate::orchestrator::resource_manager::{
    has_reservation, has_resource, live_reservations, res_idx, reservation_at, resource_at,
    rsv_idx, Reservation, Resource, ResourceManager, ResourceRecord,
};
use crate::orchestrator::task_scheduler::TaskScheduler;
use crate::orchestrator::worker_registry::{has_worker, worker_at, worker_idx, WorkerRegistry};
use crate::shared::error::ProtocolError;
use crate::shared::types::{
    valid_transition, Priority, ProposalState, ProposalType, ReservationToken, ResourceRequest,
    Task, TaskId, TaskStatus, WorkerId, WorkerInfo,
};
use crate::validator::consensus_engine::{
    has_live_proposal, has_proposal, proposal_at, prop_idx, pv_approvals, pv_rejections, pv_voted,
    ConsensusEngine,
};
use vstd::prelude::*;

verus! {

/// What one engine step did to a task.
#[derive(Clone, Copy, Debug, PartialEq, Eq, Structural)]
pub enum EngineOutcome {
    /// There was nothing to do.
    Idle,
    /// The step found the task no longer in the expected status and left
    /// everything as it stood.
    Skipped(TaskId),
    /// A proposal (the second value) now gates the task's assignment.
    Proposed(TaskId, u64),
    /// Quorum was reached: the task is bound to the worker and handed off.
    Committed(TaskId, WorkerId),
    /// A vote was recorded but the proposal is still undecided.
    VotePending(TaskId),
    /// A transient failure sent the task back to the queue, for the reason
    /// given.
    Requeued(TaskId, ProtocolError),
    /// The task failed terminally, for the reason given.
    DeadLettered(TaskId, ProtocolError),
    /// The task finished and its claims were released.
    Finished(TaskId),
}

/// Whether a record for task `id` is present.
pub open spec fn has_task(s: Seq<Task>, id: TaskId) -> bool {
    exists|i: int| 0 <= i < s.len() && (#[trigger] s[i]).id == id
}

/// The index of the record for task `id`.
pub open spec fn task_idx(s: Seq<Task>, id: TaskId) -> int {
    choose|i: int| 0 <= i < s.len() && (#[trigger] s[i]).id == id
}

/// The record for task `id`.
pub open spec fn task_at(s: Seq<Task>, id: TaskId) -> Task {
    s[task_idx(s, id)]
}

/// No two task records share an id.
pub open spec fn unique_task_ids(s: Seq<Task>) -> bool {
    forall|i: int, j: int|
        0 <= i < s.len() && 0 <= j < s.len() && i != j ==> (#[trigger] s[i]).id != (
        #[trigger] s[j]).id
}

/// Whether a status can follow another within one engine step: unchanged,
/// one lifecycle edge, or two chained lifecycle edges (commitment binds and
/// assigns in one step).
pub open spec fn status_step(a: TaskStatus, b: TaskStatus) -> bool {
    a == b || valid_transition(a, b) || exists|m: TaskStatus|
        #[trigger] valid_transition(a, m) && valid_transition(m, b)
}

/// Every record keeps its identity and moves along the lifecycle graph.
pub open spec fn statuses_evolve(a: Seq<Task>, b: Seq<Task>) -> bool {
    b.len() == a.len() && forall|i: int|
        0 <= i < a.len() ==> (#[trigger] b[i]).id == a[i].id && status_step(a[i].status, b[i].status)
}

/// How releasing a task's claim leaves the ledger: with no held token, or a
/// token that is no longer active, the ledger is untouched; an active
/// reservation is removed and its units return to the resource's
/// availability.
pub open spec fn reservation_released(
    pre: ResourceManager,
    post: ResourceManager,
    held: Option<ReservationToken>,
) -> bool {
    match held {
        None => post == pre,
        Some(rt) => if has_reservation(pre.reservations_seq(), rt) {
            let rv = reservation_at(pre.reservations_seq(), rt);
            let rec = resource_at(pre.records_seq(), rv.resource_id@);
            &&& post.reservations_seq() == pre.reservations_seq().remove(
                rsv_idx(pre.reservations_seq(), rt),
            )
            &&& post.records_seq() == pre.records_seq().update(
                res_idx(pre.records_seq(), rv.resource_id@),
                ResourceRecord {
                    resource: Resource {
                        available: (rec.resource.available + rv.amount) as u64,
                        ..rec.resource
                    },
                    allocated: rec.allocated,
                },
            )
            &&& post.next_token_spec() == pre.next_token_spec()
            &&& post.lease_ms_spec() == pre.lease_ms_spec()
        } else {
            post == pre
        },
    }
}

/// How committing a task's claim leaves the ledger: with no held token, or
/// a token that is no longer active, the ledger is untouched; an active
/// reservation is marked committed, availability untouched.
pub open spec fn reservation_committed(
    pre: ResourceManager,
    post: ResourceManager,
    held: Option<ReservationToken>,
) -> bool {
    match held {
        None => post == pre,
        Some(rt) => if has_reservation(pre.reservations_seq(), rt) {
            &&& post.reservations_seq() == pre.reservations_seq().update(
                rsv_idx(pre.reservations_seq(), rt),
                Reservation { committed: true, ..reservation_at(pre.reservations_seq(), rt) },
            )
            &&& post.records_seq() == pre.records_seq()
            &&& post.next_token_spec() == pre.next_token_spec()
            &&& post.lease_ms_spec() == pre.lease_ms_spec()
        } else {
            post == pre
        },
    }
}

/// The state one more vote gives a live proposal under the quorum's
/// bounds: committed once approvals reach the required count, rejected once
/// the rejections make that count unreachable, still voting otherwise.
pub open spec fn vote_verdict(
    q: ConsensusEngine,
    p: crate::shared::types::Proposal,
    approve: bool,
) -> ProposalState {
    let approvals = pv_approvals(p.votes@) + if approve {
        1int
    } else {
        0int
    };
    let rejections = pv_rejections(p.votes@) + if approve {
        0int
    } else {
        1int
    };
    if approvals >= q.required_spec() {
        ProposalState::Committed
    } else if rejections > q.validator_count_spec() - q.required_spec() {
        ProposalState::Rejected
    } else {
        ProposalState::Voting
    }
}

/// Every live proposal gates a known task that is awaiting it.
pub open spec fn live_proposals_mapped(q: Seq<crate::shared::types::Proposal>, a: Seq<Task>) -> bool {
    forall|k: int|
        0 <= k < q.len() && !(#[trigger] q[k]).state.is_terminal() ==> has_task(a, q[k].task_id)
            && task_at(a, q[k].task_id).status == TaskStatus::ProposalPending
}

/// Changing records of tasks that no live proposal gates keeps every live
/// proposal mapped.
proof fn lemma_live_mapped_stable(
    q: Seq<crate::shared::types::Proposal>,
    a: Seq<Task>,
    b: Seq<Task>,
    cid: TaskId,
)
    requires
        unique_task_ids(a),
        unique_task_ids(b),
        b.len() == a.len(),
        forall|k: int| 0 <= k < a.len() && a[k].id != cid ==> #[trigger] b[k] == a[k],
        live_proposals_mapped(q, a),
        !has_live_proposal(q, cid),
    ensures
        live_proposals_mapped(q, b),
{
    assert forall|k: int|
        0 <= k < q.len() && !(#[trigger] q[k]).state.is_terminal() implies has_task(
        b,
        q[k].task_id,
    ) && task_at(b, q[k].task_id).status == TaskStatus::ProposalPending by {
        assert(q[k].task_id != cid);
        let j = task_idx(a, q[k].task_id);
        assert(0 <= j < a.len() && a[j].id == q[k].task_id);
        assert(b[j] == a[j]);
        lemma_task_idx_is(b, q[k].task_id, j);
    }
}

/// A task that is not awaiting a proposal is gated by no live proposal.
proof fn lemma_no_live_for(q: Seq<crate::shared::types::Proposal>, a: Seq<Task>, tid: TaskId)
    requires
        unique_task_ids(a),
        live_proposals_mapped(q, a),
        has_task(a, tid),
        task_at(a, tid).status != TaskStatus::ProposalPending,
    ensures
        !has_live_proposal(q, tid),
        forall|k: int|
            0 <= k < q.len() && !(#[trigger] q[k]).state.is_terminal() ==> q[k].task_id != tid,
{
    assert forall|k: int|
        0 <= k < q.len() && !(#[trigger] q[k]).state.is_terminal() implies q[k].task_id != tid by {
        if q[k].task_id == tid {
            assert(task_at(a, tid).status == TaskStatus::ProposalPending);
        }
    }
}

/// Records that keep their ids keep them unique.
proof fn lemma_unique_ids_update(a: Seq<Task>, b: Seq<Task>)
    requires
        unique_task_ids(a),
        b.len() == a.len(),
        forall|k: int| 0 <= k < a.len() ==> (#[trigger] b[k]).id == a[k].id,
    ensures
        unique_task_ids(b),
{
}

/// Opening one more proposal for a task that awaits it keeps every live
/// proposal mapped.
proof fn lemma_live_mapped_extend(
    q1: Seq<crate::shared::types::Proposal>,
    q2: Seq<crate::shared::types::Proposal>,
    a: Seq<Task>,
    tid: TaskId,
)
    requires
        q2.len() == q1.len() + 1,
        q2.subrange(0, q1.len() as int) == q1,
        q2.last().task_id == tid,
        live_proposals_mapped(q1, a),
        has_task(a, tid),
        task_at(a, tid).status == TaskStatus::ProposalPending,
    ensures
        live_proposals_mapped(q2, a),
{
    assert forall|k: int|
        0 <= k < q2.len() && !(#[trigger] q2[k]).state.is_terminal() implies has_task(
        a,
        q2[k].task_id,
    ) && task_at(a, q2[k].task_id).status == TaskStatus::ProposalPending by {
        if k < q1.len() {
            assert(q2[k] == q2.subrange(0, q1.len() as int)[k]);
        } else {
            assert(q2[k] == q2.last());
        }
    }
}

/// With unique ids, an index holding `id` is *the* index of `id`.
proof fn lemma_task_idx_is(s: Seq<Task>, id: TaskId, i: int)
    requires
        unique_task_ids(s),
        0 <= i < s.len(),
        s[i].id == id,
    ensures
        has_task(s, id),
        task_idx(s, id) == i,
{
    assert(has_task(s, id));
    let j = task_idx(s, id);
    assert(0 <= j < s.len() && s[j].id == id);
}

/// Configuration of a coordination engine.
#[derive(Clone, Copy, Debug, PartialEq, Eq, Structural)]
pub struct EngineConfig {
    /// Most tasks the admission queue will hold.
    pub queue_capacity: usize,
    /// How many times a task may be requeued before it is dead-lettered.
    pub max_retries: u32,
    /// Quorum threshold, in thousandths.
    pub threshold_permille: u32,
    /// How many validators vote on proposals.
    pub validator_count: usize,
    /// How long a worker may stay silent before it is excluded,
    /// milliseconds.
    pub heartbeat_timeout_ms: u64,
}

impl Default for EngineConfig {
    /// A queue of 1024 tasks, three retries, a two-thirds quorum over three
    /// validators, and a 30-second heartbeat timeout.
    fn default() -> (r: Self)
        ensures
            r.queue_capacity == 1024,
            r.max_retries == 3,
            r.threshold_permille == 670,
            r.validator_count == 3,
            r.heartbeat_timeout_ms == 30000,
    {
        EngineConfig {
            queue_capacity: 1024,
            max_retries: 3,
            threshold_permille: 670,
            validator_count: 3,
            heartbeat_timeout_ms: 30000,
        }
    }
}

/// Coordinates queue, ledger, worker registry, and quorum into one task
/// lifecycle.
pub struct CoordinationEngine {
    queue: TaskScheduler,
    ledger: ResourceManager,
    registry: WorkerRegistry,
    quorum: ConsensusEngine,
    tasks: Vec<Task>,
    max_retries: u32,
    next_task_id: u64,
}

impl CoordinationEngine {
    /// The engine's task records, in admission order.
    pub closed spec fn tasks_seq(self) -> Seq<Task> {
        self.tasks@
    }

    /// The admission queue.
    pub closed spec fn queue_spec(self) -> TaskScheduler {
        self.queue
    }

    /// The resource ledger.
    pub closed spec fn ledger_spec(self) -> ResourceManager {
        self.ledger
    }

    /// The worker registry.
    pub closed spec fn registry_spec(self) -> WorkerRegistry {
        self.registry
    }

    /// The consensus quorum.
    pub closed spec fn quorum_spec(self) -> ConsensusEngine {
        self.quorum
    }

    /// The retry budget granted to each task.
    pub closed spec fn max_retries_spec(self) -> u32 {
        self.max_retries
    }

    /// The identifier the next admitted task will carry.
    pub closed spec fn next_task_id_spec(self) -> u64 {
        self.next_task_id
    }

    /// Well-formedness: the components are well-formed, task ids are unique
    /// and below the next id, no task has outlived its retry budget, and
    /// every live proposal gates a known task that is awaiting exactly that
    /// proposal.
    pub open spec fn wf(self) -> bool {
        &&& self.queue_spec().wf()
        &&& self.ledger_spec().wf()
        &&& self.registry_spec().wf()
        &&& self.quorum_spec().wf()
        &&& unique_task_ids(self.tasks_seq())
        &&& forall|i: int|
            0 <= i < self.tasks_seq().len() ==> (#[trigger] self.tasks_seq()[i]).id
                < self.next_task_id_spec()
        &&& forall|i: int|
            0 <= i < self.tasks_seq().len() ==> (#[trigger] self.tasks_seq()[i]).retry_count
                <= self.max_retries_spec()
        &&& live_proposals_mapped(self.quorum_spec().proposals_seq(), self.tasks_seq())
    }

    /// Creates an engine with the default configuration and no resources,
    /// workers, or tasks.
    pub fn new() -> (r: Self)
        ensures
            r.wf(),
            r.tasks_seq() == Seq::<Task>::empty(),
            r.next_task_id_spec() == 0,
            r.max_retries_spec() == 3,
            r.queue_spec().total() == 0,
            r.ledger_spec().records_seq().len() == 0,
            r.registry_spec().workers_seq().len() == 0,
    {
        Self::new_with_config(Default::default())
    }

    /// Creates an engine from a configuration, with no resources, workers,
    /// or tasks.
    pub fn new_with_config(config: EngineConfig) -> (r: Self)
        ensures
            r.wf(),
            r.tasks_seq() == Seq::<Task>::empty(),
            r.next_task_id_spec() == 0,
            r.max_retries_spec() == config.max_retries,
            r.queue_spec().total() == 0,
            r.queue_spec().capacity_spec() == config.queue_capacity,
            r.ledger_spec().records_seq().len() == 0,
            r.registry_spec().workers_seq().len() == 0,
    {
        let threshold = if config.threshold_permille > 1000 {
            1000
        } else {
            config.threshold_permille
        };
        CoordinationEngine {
            queue: TaskScheduler::new(config.queue_capacity),
            ledger: ResourceManager::new(),
            registry: WorkerRegistry::new(config.heartbeat_timeout_ms),
            quorum: ConsensusEngine::new(threshold, config.validator_count),
            tasks: Vec::new(),
            max_retries: config.max_retries,
            next_task_id: 0,
        }
    }

    /// Registers a resource with the ledger.
    pub fn register_resource(&mut self, resource: Resource) -> (r: Result<(), ProtocolError>)
        requires
            old(self).wf(),
            resource.available <= resource.capacity,
        ensures
            final(self).wf(),
            final(self).tasks_seq() == old(self).tasks_seq(),
            final(self).queue_spec() == old(self).queue_spec(),
            final(self).registry_spec() == old(self).registry_spec(),
            final(self).quorum_spec() == old(self).quorum_spec(),
            has_resource(old(self).ledger_spec().records_seq(), resource.id@) ==> r == Err::<
                (),
                ProtocolError,
            >(ProtocolError::AlreadyRegistered) && final(self).ledger_spec() == old(self).ledger_spec(),
            !has_resource(old(self).ledger_spec().records_seq(), resource.id@) ==> {
                &&& r == Ok::<(), ProtocolError>(())
                &&& final(self).ledger_spec().records_seq() == old(
                    self,
                ).ledger_spec().records_seq().push(
                    ResourceRecord {
                        resource,
                        allocated: (resource.capacity - resource.available) as u64,
                    },
                )
                &&& final(self).ledger_spec().reservations_seq() == old(
                    self,
                ).ledger_spec().reservations_seq()
                &&& final(self).ledger_spec().next_token_spec() == old(
                    self,
                ).ledger_spec().next_token_spec()
                &&& final(self).ledger_spec().lease_ms_spec() == old(
                    self,
                ).ledger_spec().lease_ms_spec()
            },
    {
        self.ledger.register_resource(resource)
    }

    /// Registers a worker with the registry; refused with
    /// `AlreadyRegistered` when a worker with the same id exists.
    pub fn register_worker(&mut self, worker: WorkerInfo) -> (r: Result<(), ProtocolError>)
        requires
            old(self).wf(),
        ensures
            final(self).wf(),
            final(self).tasks_seq() == old(self).tasks_seq(),
            final(self).queue_spec() == old(self).queue_spec(),
            final(self).ledger_spec() == old(self).ledger_spec(),
            final(self).quorum_spec() == old(self).quorum_spec(),
            final(self).registry_spec().timeout_spec() == old(self).registry_spec().timeout_spec(),
            has_worker(old(self).registry_spec().workers_seq(), worker.id) ==> r == Err::<
                (),
                ProtocolError,
            >(ProtocolError::AlreadyRegistered) && final(self).registry_spec() == old(
                self,
            ).registry_spec(),
            !has_worker(old(self).registry_spec().workers_seq(), worker.id) ==> r == Ok::<
                (),
                ProtocolError,
            >(()) && final(self).registry_spec().workers_seq() == old(
                self,
            ).registry_spec().workers_seq().push(worker),
    {
        self.registry.register_worker(worker)
    }

    /// Records a worker heartbeat, as seen at `now`: the worker's record is
    /// refreshed and counts as healthy again. Refused with `NotFound` when
    /// no such worker is registered.
    pub fn worker_heartbeat(&mut self, worker_id: WorkerId, now: u64) -> (r: Result<
        (),
        ProtocolError,
    >)
        requires
            old(self).wf(),
        ensures
            final(self).wf(),
            final(self).tasks_seq() == old(self).tasks_seq(),
            final(self).queue_spec() == old(self).queue_spec(),
            final(self).ledger_spec() == old(self).ledger_spec(),
            final(self).quorum_spec() == old(self).quorum_spec(),
            final(self).registry_spec().timeout_spec() == old(self).registry_spec().timeout_spec(),
            !has_worker(old(self).registry_spec().workers_seq(), worker_id) ==> r == Err::<
                (),
                ProtocolError,
            >(ProtocolError::NotFound) && final(self).registry_spec() == old(self).registry_spec(),
            has_worker(old(self).registry_spec().workers_seq(), worker_id) ==> {
                let w = worker_at(old(self).registry_spec().workers_seq(), worker_id);
                r == Ok::<(), ProtocolError>(()) && final(self).registry_spec().workers_seq()
                    == old(self).registry_spec().workers_seq().update(
                    worker_idx(old(self).registry_spec().workers_seq(), worker_id),
                    WorkerInfo { healthy: true, last_heartbeat: now, ..w },
                )
            },
    {
        self.registry.heartbeat(worker_id, now)
    }

    /// Releases every uncommitted reservation whose lease expired before
    /// `now`, restoring their units to their resources.
    pub fn expire_reservations(&mut self, now: u64)
        requires
            old(self).wf(),
        ensures
            final(self).wf(),
            final(self).tasks_seq() == old(self).tasks_seq(),
            final(self).queue_spec() == old(self).queue_spec(),
            final(self).registry_spec() == old(self).registry_spec(),
            final(self).quorum_spec() == old(self).quorum_spec(),
            final(self).ledger_spec().reservations_seq() == live_reservations(
                old(self).ledger_spec().reservations_seq(),
                now,
            ),
            final(self).ledger_spec().records_seq().len() == old(
                self,
            ).ledger_spec().records_seq().len(),
            forall|k: int|
                0 <= k < old(self).ledger_spec().records_seq().len() ==> {
                    let prev = old(self).ledger_spec().records_seq()[k];
                    let cur = #[trigger] final(self).ledger_spec().records_seq()[k];
                    cur.resource.id == prev.resource.id && cur.resource.resource_type
                        == prev.resource.resource_type && cur.resource.capacity
                        == prev.resource.capacity && cur.allocated == prev.allocated
                },
            final(self).ledger_spec().next_token_spec() == old(
                self,
            ).ledger_spec().next_token_spec(),
            final(self).ledger_spec().lease_ms_spec() == old(self).ledger_spec().lease_ms_spec(),
    {
        self.ledger.expire_leases(now);
    }

    /// The current state of a ledger resource, if it is registered.
    pub fn get_resource_status(&self, resource_id: &str) -> (r: Option<Resource>)
        requires
            self.wf(),
        ensures
            r is Some <==> has_resource(self.ledger_spec().records_seq(), resource_id@),
            r is Some ==> r == Some(
                resource_at(self.ledger_spec().records_seq(), resource_id@).resource,
            ),
    {
        self.ledger.get_resource_status(resource_id)
    }

    /// How many tasks are waiting in the admission queue.
    pub fn get_queue_depth(&self) -> (r: usize)
        requires
            self.wf(),
        ensures
            r == self.queue_spec().total(),
    {
        self.queue.pending_task_count()
    }

    /// The index of the record for task `task_id`, if one exists.
    fn find_task(&self, task_id: TaskId) -> (r: Option<usize>)
        ensures
            match r {
                Some(i) => i < self.tasks_seq().len() && self.tasks_seq()[i as int].id == task_id,
                None => !has_task(self.tasks_seq(), task_id),
            },
    {
        let n = self.tasks.len();
        for i in 0..n
            invariant
                n == self.tasks@.len(),
                forall|k: int| 0 <= k < i ==> (#[trigger] self.tasks@[k]).id != task_id,
        {
            if self.tasks[i].id == task_id {
                return Some(i);
            }
        }
        None
    }

    /// The status of a task; `TaskNotFound` when the engine knows no task
    /// under the identifier.
    pub fn get_task_status(&self, task_id: TaskId) -> (r: Result<TaskStatus, ProtocolError>)
        requires
            self.wf(),
        ensures
            !has_task(self.tasks_seq(), task_id) ==> r == Err::<TaskStatus, ProtocolError>(
                ProtocolError::TaskNotFound,
            ),
            has_task(self.tasks_seq(), task_id) ==> r == Ok::<TaskStatus, ProtocolError>(
                task_at(self.tasks_seq(), task_id).status,
            ),
    {
        let found = self.find_task(task_id);
        match found {
            None => Err(ProtocolError::TaskNotFound),
            Some(i) => {
                proof {
                    lemma_task_idx_is(self.tasks@, task_id, i as int);
                }
                Ok(self.tasks[i].status)
            },
        }
    }

    /// Copies the bytes of `v`.
    fn clone_bytes(v: &Vec<u8>) -> (r: Vec<u8>)
        ensures
            r@ == v@,
    {
        let n = v.len();
        let mut out: Vec<u8> = Vec::new();
        for i in 0..n
            invariant
                n == v@.len(),
                out@.len() == i,
                forall|k: int| 0 <= k < i ==> #[trigger] out@[k] == v@[k],
        {
            out.push(v[i]);
        }
        proof {
            assert(out@ =~= v@);
        }
        out
    }

    /// Copies the strings of `v`.
    fn clone_strings(v: &Vec<String>) -> (r: Vec<String>)
        ensures
            r@ == v@,
    {
        let n = v.len();
        let mut out: Vec<String> = Vec::new();
        for i in 0..n
            invariant
                n == v@.len(),
                out@.len() == i,
                forall|k: int| 0 <= k < i ==> #[trigger] out@[k] == v@[k],
        {
            out.push(v[i].clone());
        }
        proof {
            assert(out@ =~= v@);
        }
        out
    }

    /// Copies a task record; the copy agrees with the original in every
    /// field.
    fn clone_task(t: &Task) -> (c: Task)
        ensures
            c.id == t.id,
            c.task_type == t.task_type,
            c.priority == t.priority,
            c.status == t.status,
            c.retry_count == t.retry_count,
            c.reservation == t.reservation,
            c.assigned_worker == t.assigned_worker,
            c.worker_need == t.worker_need,
            c.created_at == t.created_at,
            c.updated_at == t.updated_at,
            c.payload@ == t.payload@,
            c.required_capabilities@ == t.required_capabilities@,
    {
        Task {
            id: t.id,
            task_type: t.task_type.clone(),
            payload: Self::clone_bytes(&t.payload),
            priority: t.priority,
            status: t.status,
            retry_count: t.retry_count,
            reservation: t.reservation,
            assigned_worker: t.assigned_worker,
            required_capabilities: Self::clone_strings(&t.required_capabilities),
            resource_request: match &t.resource_request {
                Some(req) => Some(
                    ResourceRequest { resource_id: req.resource_id.clone(), amount: req.amount },
                ),
                None => None,
            },
            worker_need: t.worker_need,
            created_at: t.created_at,
            updated_at: t.updated_at,
        }
    }

    /// Rewrites the status (and optionally worker and reservation) of the
    /// record at `i`; every other part of the engine is untouched.
    fn set_task(
        &mut self,
        i: usize,
        status: TaskStatus,
        reservation: Option<u64>,
        assigned_worker: Option<WorkerId>,
        retry_count: u32,
    )
        requires
            i < old(self).tasks_seq().len(),
        ensures
            final(self).tasks_seq() == old(self).tasks_seq().update(
                i as int,
                Task {
                    status,
                    reservation,
                    assigned_worker,
                    retry_count,
                    ..old(self).tasks_seq()[i as int]
                },
            ),
            final(self).queue_spec() == old(self).queue_spec(),
            final(self).ledger_spec() == old(self).ledger_spec(),
            final(self).registry_spec() == old(self).registry_spec(),
            final(self).quorum_spec() == old(self).quorum_spec(),
            final(self).max_retries_spec() == old(self).max_retries_spec(),
            final(self).next_task_id_spec() == old(self).next_task_id_spec(),
    {
        let ghost prev = self.tasks@;
        let mut t = self.tasks.remove(i);
        t.status = status;
        t.reservation = reservation;
        t.assigned_worker = assigned_worker;
        t.retry_count = retry_count;
        self.tasks.insert(i, t);
        proof {
            assert(self.tasks@ =~= prev.update(
                i as int,
                Task {
                    status,
                    reservation,
                    assigned_worker,
                    retry_count,
                    ..prev[i as int]
                },
            ));
        }
    }

    /// Sends the record at `i` back to the queue with one more retry on the
    /// counter, or dead-letters it when the retry budget is exhausted (or
    /// the queue is full). The caller has already released any reservation.
    fn send_back(&mut self, i: usize, reason: ProtocolError) -> (r: EngineOutcome)
        requires
            old(self).wf(),
            i < old(self).tasks_seq().len(),
            !old(self).tasks_seq()[i as int].status.is_terminal(),
            old(self).tasks_seq()[i as int].reservation is None,
            !has_live_proposal(
                old(self).quorum_spec().proposals_seq(),
                old(self).tasks_seq()[i as int].id,
            ),
        ensures
            final(self).wf(),
            final(self).ledger_spec() == old(self).ledger_spec(),
            final(self).registry_spec() == old(self).registry_spec(),
            final(self).quorum_spec() == old(self).quorum_spec(),
            final(self).max_retries_spec() == old(self).max_retries_spec(),
            final(self).next_task_id_spec() == old(self).next_task_id_spec(),
            final(self).queue_spec().capacity_spec() == old(self).queue_spec().capacity_spec(),
            final(self).tasks_seq().len() == old(self).tasks_seq().len(),
            forall|k: int|
                0 <= k < old(self).tasks_seq().len() && k != i as int
                    ==> #[trigger] final(self).tasks_seq()[k] == old(self).tasks_seq()[k],
            ({
                let t = old(self).tasks_seq()[i as int];
                let u = final(self).tasks_seq()[i as int];
                &&& u.id == t.id
                &&& u.reservation is None
                &&& match r {
                    EngineOutcome::Requeued(id, why) => id == t.id && why == reason
                        && t.retry_count + 1 < old(self).max_retries_spec() && u.status
                        == TaskStatus::Pending && u.retry_count == t.retry_count + 1,
                    EngineOutcome::DeadLettered(id, why) => id == t.id && (why
                        == ProtocolError::MaxRetriesExceeded || why == ProtocolError::QueueFull)
                        && u.status == TaskStatus::Failed && u.retry_count == t.retry_count,
                    _ => false,
                }
            }),
    {
        let ghost prev = self.tasks@;
        let tid = self.tasks[i].id;
        let copy = Self::clone_task(&self.tasks[i]);
        let requeued = self.queue.requeue(copy, self.max_retries);
        let outcome = match requeued {
            Ok(()) => {
                let retry = self.tasks[i].retry_count + 1;
                self.set_task(i, TaskStatus::Pending, None, None, retry);
                EngineOutcome::Requeued(tid, reason)
            },
            Err(e) => {
                let retry = self.tasks[i].retry_count;
                self.set_task(i, TaskStatus::Failed, None, None, retry);
                EngineOutcome::DeadLettered(tid, e)
            },
        };
        proof {
            lemma_live_mapped_stable(self.quorum.proposals_seq(), prev, self.tasks@, tid);
        }
        outcome
    }

    /// Picks the next task off the queue and drives it as far as one step
    /// can: a worker is selected, resources are reserved, and a quorum
    /// proposal is opened. A transient obstacle (no worker, not enough
    /// resources) sends the task back to the queue until its retry budget
    /// runs out; a task whose record is gone or no longer `Pending` is
    /// skipped; failure at any stage releases what was reserved, so the
    /// ledger's accounts are unchanged unless a proposal is now open.
    #[verifier::rlimit(100)]
    #[verifier::spinoff_prover]
    pub fn start_next(&mut self, now: u64) -> (r: EngineOutcome)
        requires
            old(self).wf(),
        ensures
            final(self).wf(),
            final(self).registry_spec() == old(self).registry_spec(),
            final(self).max_retries_spec() == old(self).max_retries_spec(),
            final(self).next_task_id_spec() == old(self).next_task_id_spec(),
            statuses_evolve(old(self).tasks_seq(), final(self).tasks_seq()),
            match r {
                EngineOutcome::Idle => old(self).queue_spec().total() == 0 && *final(self) == *old(self),
                EngineOutcome::Skipped(tid) => {
                    let top = old(self).queue_spec().top_priority();
                    &&& old(self).queue_spec().total() > 0
                    &&& tid == old(self).queue_spec().band(top)[0].id
                    &&& !(has_task(old(self).tasks_seq(), tid) && task_at(
                        old(self).tasks_seq(),
                        tid,
                    ).status == TaskStatus::Pending)
                    &&& final(self).queue_spec().band(top) == old(self).queue_spec().band(
                        top,
                    ).remove(0)
                    &&& (forall|q: Priority|
                        q != top ==> #[trigger] final(self).queue_spec().band(q) == old(
                            self,
                        ).queue_spec().band(q))
                    &&& final(self).queue_spec().capacity_spec() == old(
                        self,
                    ).queue_spec().capacity_spec()
                    &&& final(self).tasks_seq() == old(self).tasks_seq()
                    &&& final(self).ledger_spec() == old(self).ledger_spec()
                    &&& final(self).quorum_spec() == old(self).quorum_spec()
                },
                EngineOutcome::Proposed(tid, pid) => {
                    let top = old(self).queue_spec().top_priority();
                    &&& old(self).queue_spec().total() > 0
                    &&& tid == old(self).queue_spec().band(top)[0].id
                    &&& has_task(old(self).tasks_seq(), tid)
                    &&& task_at(old(self).tasks_seq(), tid).status == TaskStatus::Pending
                    &&& has_task(final(self).tasks_seq(), tid)
                    &&& task_at(final(self).tasks_seq(), tid).status
                        == TaskStatus::ProposalPending
                    &&& (task_at(final(self).tasks_seq(), tid).reservation is Some <==> task_at(
                        old(self).tasks_seq(),
                        tid,
                    ).resource_request is Some)
                    &&& pid == old(self).quorum_spec().next_proposal_id_spec()
                    &&& final(self).quorum_spec().next_proposal_id_spec() == old(
                        self,
                    ).quorum_spec().next_proposal_id_spec() + 1
                    &&& has_proposal(final(self).quorum_spec().proposals_seq(), pid)
                    &&& proposal_at(final(self).quorum_spec().proposals_seq(), pid).task_id == tid
                },
                EngineOutcome::Requeued(tid, why) => {
                    let top = old(self).queue_spec().top_priority();
                    &&& old(self).queue_spec().total() > 0
                    &&& tid == old(self).queue_spec().band(top)[0].id
                    &&& has_task(old(self).tasks_seq(), tid)
                    &&& task_at(old(self).tasks_seq(), tid).status == TaskStatus::Pending
                    &&& has_task(final(self).tasks_seq(), tid)
                    &&& task_at(final(self).tasks_seq(), tid).status == TaskStatus::Pending
                    &&& task_at(final(self).tasks_seq(), tid).retry_count == task_at(
                        old(self).tasks_seq(),
                        tid,
                    ).retry_count + 1
                    &&& (why == ProtocolError::WorkerUnavailable || why
                        == ProtocolError::InsufficientResources || why == ProtocolError::Internal)
                    &&& final(self).ledger_spec().records_seq() == old(self).ledger_spec().records_seq()
                    &&& final(self).ledger_spec().reservations_seq() == old(self).ledger_spec().reservations_seq()
                },
                EngineOutcome::DeadLettered(tid, _) => {
                    let top = old(self).queue_spec().top_priority();
                    &&& old(self).queue_spec().total() > 0
                    &&& tid == old(self).queue_spec().band(top)[0].id
                    &&& has_task(old(self).tasks_seq(), tid)
                    &&& task_at(old(self).tasks_seq(), tid).status == TaskStatus::Pending
                    &&& has_task(final(self).tasks_seq(), tid)
                    &&& task_at(final(self).tasks_seq(), tid).status == TaskStatus::Failed
                    &&& final(self).ledger_spec().records_seq() == old(self).ledger_spec().records_seq()
                    &&& final(self).ledger_spec().reservations_seq() == old(self).ledger_spec().reservations_seq()
                },
                _ => false,
            },
    {
        let popped = self.queue.get_next_task();
        let popped = match popped {
            None => {
                return EngineOutcome::Idle;
            },
            Some(t) => t,
        };
        let tid = popped.id;
        let found = self.find_task(tid);
        let i = match found {
            None => {
                return EngineOutcome::Skipped(tid);
            },
            Some(i) => i,
        };
        proof {
            lemma_task_idx_is(self.tasks@, tid, i as int);
        }
        if !(self.tasks[i].status == TaskStatus::Pending) {
            return EngineOutcome::Skipped(tid);
        }
        let ghost tasks0 = self.tasks@;
        proof {
            lemma_no_live_for(self.quorum.proposals_seq(), self.tasks@, tid);
        }
        let retry = self.tasks[i].retry_count;
        self.set_task(i, TaskStatus::ReservePending, None, None, retry);
        proof {
            lemma_unique_ids_update(tasks0, self.tasks@);
            lemma_live_mapped_stable(self.quorum.proposals_seq(), tasks0, self.tasks@, tid);
        }
        let candidate = self.registry.select_candidate(
            &self.tasks[i].required_capabilities,
            &self.tasks[i].worker_need,
            now,
        );
        let worker = match candidate {
            None => {
                return self.send_back(i, ProtocolError::WorkerUnavailable);
            },
            Some(w) => w,
        };
        let ghost ledger0 = self.ledger;
        let mut token: u64 = 0;
        let mut token_held = false;
        let has_request = self.tasks[i].resource_request.is_some();
        if has_request {
            let granted = match &self.tasks[i].resource_request {
                Some(req) => self.ledger.reserve(req.resource_id.as_str(), req.amount, tid, now),
                None => {
                    proof {
                        assert(false);
                    }
                    Err(ProtocolError::NotFound)
                },
            };
            match granted {
                Ok(t) => {
                    token = t;
                    token_held = true;
                },
                Err(ProtocolError::InsufficientResources) => {
                    return self.send_back(i, ProtocolError::InsufficientResources);
                },
                Err(_) => {
                    let retry = self.tasks[i].retry_count;
                    self.set_task(i, TaskStatus::Failed, None, None, retry);
                    proof {
                        lemma_unique_ids_update(tasks0, self.tasks@);
                        lemma_live_mapped_stable(
                            self.quorum.proposals_seq(),
                            tasks0,
                            self.tasks@,
                            tid,
                        );
                        lemma_task_idx_is(self.tasks@, tid, i as int);
                    }
                    return EngineOutcome::DeadLettered(tid, ProtocolError::NotFound);
                },
            }
        }
        let retry = self.tasks[i].retry_count;
        self.set_task(
            i,
            TaskStatus::ProposalPending,
            if token_held {
                Some(token)
            } else {
                None
            },
            None,
            retry,
        );
        let ghost ledger1 = self.ledger;
        let ghost quorum1 = self.quorum.proposals_seq();
        proof {
            lemma_unique_ids_update(tasks0, self.tasks@);
            lemma_live_mapped_stable(quorum1, tasks0, self.tasks@, tid);
            lemma_task_idx_is(self.tasks@, tid, i as int);
        }
        let proposed = self.quorum.propose(
            ProposalType::TaskAssignment,
            tid,
            worker,
            token,
            now,
        );
        match proposed {
            Ok(pid) => {
                proof {
                    lemma_task_idx_is(self.tasks@, tid, i as int);
                    lemma_live_mapped_extend(
                        quorum1,
                        self.quorum.proposals_seq(),
                        self.tasks@,
                        tid,
                    );
                    let qf = self.quorum.proposals_seq();
                    assert(qf.last().id == pid);
                    assert(has_proposal(qf, pid));
                    let j = prop_idx(qf, pid);
                    assert(0 <= j < qf.len() && qf[j].id == pid);
                    assert(j == qf.len() - 1);
                    assert(status_step(TaskStatus::Pending, TaskStatus::ProposalPending)) by {
                        assert(valid_transition(
                            TaskStatus::Pending,
                            TaskStatus::ReservePending,
                        ) && valid_transition(
                            TaskStatus::ReservePending,
                            TaskStatus::ProposalPending,
                        ));
                    }
                }
                EngineOutcome::Proposed(tid, pid)
            },
            Err(_) => {
                if token_held {
                    self.ledger.release_reservation(token);
                    proof {
                        let rs1 = ledger1.reservations_seq();
                        let ri = crate::orchestrator::resource_manager::rsv_idx(rs1, token);
                        assert(rs1.last().token == token);
                        assert(ri == rs1.len() - 1) by {
                            assert(rs1[rs1.len() - 1].token == token);
                            assert(0 <= ri < rs1.len() && rs1[ri].token == token);
                        }
                        assert(self.ledger.reservations_seq() =~= ledger0.reservations_seq());
                        let rid = reservation_at(rs1, token).resource_id@;
                        let xi = res_idx(ledger1.records_seq(), rid);
                        assert(self.ledger.records_seq() =~= ledger0.records_seq()) by {
                            assert(forall|k: int|
                                0 <= k < ledger0.records_seq().len() && k != xi
                                    ==> #[trigger] self.ledger.records_seq()[k]
                                    == ledger0.records_seq()[k]);
                            assert(self.ledger.records_seq()[xi] =~= ledger0.records_seq()[xi]);
                        }
                    }
                }
                let retry = self.tasks[i].retry_count;
                self.set_task(i, TaskStatus::ReservePending, None, None, retry);
                proof {
                    lemma_unique_ids_update(tasks0, self.tasks@);
                    lemma_live_mapped_stable(
                        self.quorum.proposals_seq(),
                        tasks0,
                        self.tasks@,
                        tid,
                    );
                }
                self.send_back(i, ProtocolError::Internal)
            },
        }
    }

    /// Proves that after our live proposal for `tid` turned terminal, no
    /// live proposal for `tid` remains.
    proof fn lemma_no_other_live(
        q_old: Seq<crate::shared::types::Proposal>,
        q_new: Seq<crate::shared::types::Proposal>,
        pi: int,
        tid: TaskId,
    )
        requires
            0 <= pi < q_old.len(),
            q_new.len() == q_old.len(),
            forall|k: int| 0 <= k < q_old.len() && k != pi ==> #[trigger] q_new[k] == q_old[k],
            q_old[pi].task_id == tid,
            !q_old[pi].state.is_terminal(),
            q_new[pi].state.is_terminal(),
            crate::validator::consensus_engine::one_live_per_task(q_old),
        ensures
            !has_live_proposal(q_new, tid),
    {
        assert forall|k: int|
            0 <= k < q_new.len() implies !((#[trigger] q_new[k]).task_id == tid
            && !q_new[k].state.is_terminal()) by {
            if k != pi && q_new[k].task_id == tid && !q_new[k].state.is_terminal() {
                assert(q_old[k].task_id == tid && !q_old[k].state.is_terminal());
                assert(q_old[pi].task_id == q_old[k].task_id);
                assert(false);
            }
        }
    }

    /// Records one validator's vote on the proposal that gates a task. A
    /// duplicate vote is refused with `DuplicateVote` and changes nothing; a
    /// vote on a decided proposal is ignored. When the vote completes the
    /// quorum, the task's reservation is committed, the task is bound to
    /// the candidate worker and becomes `Assigned`; when the vote makes
    /// quorum unreachable, the reservation is released and the task fails
    /// with `ConsensusRejected`.
    #[verifier::rlimit(60)]
    pub fn handle_vote(&mut self, validator_id: &str, proposal_id: u64, approve: bool) -> (r:
        Result<EngineOutcome, ProtocolError>)
        requires
            old(self).wf(),
        ensures
            final(self).wf(),
            final(self).registry_spec() == old(self).registry_spec(),
            final(self).queue_spec() == old(self).queue_spec(),
            final(self).max_retries_spec() == old(self).max_retries_spec(),
            final(self).next_task_id_spec() == old(self).next_task_id_spec(),
            statuses_evolve(old(self).tasks_seq(), final(self).tasks_seq()),
            r == Err::<EngineOutcome, ProtocolError>(ProtocolError::NotFound) <==> !has_proposal(
                old(self).quorum_spec().proposals_seq(),
                proposal_id,
            ),
            r == Err::<EngineOutcome, ProtocolError>(ProtocolError::DuplicateVote) <==> (
            has_proposal(old(self).quorum_spec().proposals_seq(), proposal_id) && !proposal_at(
                old(self).quorum_spec().proposals_seq(),
                proposal_id,
            ).state.is_terminal() && pv_voted(
                proposal_at(old(self).quorum_spec().proposals_seq(), proposal_id).votes@,
                validator_id@,
            )),
            r is Err ==> *final(self) == *old(self),
            has_proposal(old(self).quorum_spec().proposals_seq(), proposal_id) ==> ({
                let p = proposal_at(old(self).quorum_spec().proposals_seq(), proposal_id);
                let pi = prop_idx(old(self).quorum_spec().proposals_seq(), proposal_id);
                let verdict = vote_verdict(old(self).quorum_spec(), p, approve);
                let held = task_at(old(self).tasks_seq(), p.task_id).reservation;
                &&& (p.state.is_terminal() ==> r == Ok::<EngineOutcome, ProtocolError>(
                    EngineOutcome::Skipped(p.task_id),
                ) && *final(self) == *old(self))
                &&& (!p.state.is_terminal() && !pv_voted(p.votes@, validator_id@) ==> {
                    &&& final(self).quorum_spec().proposals_seq().len() == old(
                        self,
                    ).quorum_spec().proposals_seq().len()
                    &&& (forall|k: int|
                        0 <= k < old(self).quorum_spec().proposals_seq().len() && k != pi
                            ==> #[trigger] final(self).quorum_spec().proposals_seq()[k] == old(
                            self,
                        ).quorum_spec().proposals_seq()[k])
                    &&& {
                        let q2 = final(self).quorum_spec().proposals_seq()[pi];
                        &&& q2.id == p.id
                        &&& q2.task_id == p.task_id
                        &&& q2.candidate_worker == p.candidate_worker
                        &&& q2.state == verdict
                        &&& q2.votes@.len() == p.votes@.len() + 1
                        &&& q2.votes@.subrange(0, p.votes@.len() as int) == p.votes@
                        &&& q2.votes@.last().validator_id@ == validator_id@
                        &&& q2.votes@.last().approve == approve
                    }
                    &&& (verdict == ProposalState::Voting ==> r == Ok::<
                        EngineOutcome,
                        ProtocolError,
                    >(EngineOutcome::VotePending(p.task_id)) && final(self).tasks_seq() == old(
                        self,
                    ).tasks_seq() && final(self).ledger_spec() == old(self).ledger_spec())
                    &&& (verdict == ProposalState::Committed ==> {
                        &&& r == Ok::<EngineOutcome, ProtocolError>(
                            EngineOutcome::Committed(p.task_id, p.candidate_worker),
                        )
                        &&& has_task(final(self).tasks_seq(), p.task_id)
                        &&& task_at(final(self).tasks_seq(), p.task_id).status
                            == TaskStatus::Assigned
                        &&& task_at(final(self).tasks_seq(), p.task_id).assigned_worker == Some(
                            p.candidate_worker,
                        )
                        &&& task_at(final(self).tasks_seq(), p.task_id).reservation == held
                        &&& reservation_committed(
                            old(self).ledger_spec(),
                            final(self).ledger_spec(),
                            held,
                        )
                    })
                    &&& (verdict == ProposalState::Rejected ==> {
                        &&& r == Ok::<EngineOutcome, ProtocolError>(
                            EngineOutcome::DeadLettered(
                                p.task_id,
                                ProtocolError::ConsensusRejected,
                            ),
                        )
                        &&& has_task(final(self).tasks_seq(), p.task_id)
                        &&& task_at(final(self).tasks_seq(), p.task_id).status == TaskStatus::Failed
                        &&& task_at(final(self).tasks_seq(), p.task_id).reservation is None
                        &&& reservation_released(
                            old(self).ledger_spec(),
                            final(self).ledger_spec(),
                            held,
                        )
                    })
                })
            }),
    {
        let brief = self.quorum.proposal_brief(proposal_id);
        let (tid, wid, _tok, pre_state) = match brief {
            None => {
                return Err(ProtocolError::NotFound);
            },
            Some(b) => b,
        };
        let ghost q_old = self.quorum.proposals_seq();
        let ghost pi = crate::validator::consensus_engine::prop_idx(q_old, proposal_id);
        let cast = self.quorum.cast_vote(validator_id, proposal_id, approve);
        let new_state = match cast {
            Err(e) => {
                return Err(e);
            },
            Ok(s) => s,
        };
        let pre_terminal = pre_state == ProposalState::Committed || pre_state
            == ProposalState::Rejected || pre_state == ProposalState::TimedOut;
        if pre_terminal {
            return Ok(EngineOutcome::Skipped(tid));
        }
        proof {
            assert(q_old[pi].task_id == tid && !q_old[pi].state.is_terminal());
            assert(has_task(self.tasks@, tid) && task_at(self.tasks@, tid).status
                == TaskStatus::ProposalPending);
        }
        if new_state == ProposalState::Committed {
            let ghost tasks0 = self.tasks@;
            let found = self.find_task(tid);
            let i = match found {
                None => {
                    proof {
                        assert(false);
                    }
                    return Err(ProtocolError::TaskNotFound);
                },
                Some(i) => i,
            };
            proof {
                lemma_task_idx_is(self.tasks@, tid, i as int);
            }
            let held = self.tasks[i].reservation;
            if let Some(rt) = held {
                let committed = self.ledger.commit(rt);
                let _ = committed;
            }
            let retry = self.tasks[i].retry_count;
            self.set_task(i, TaskStatus::Assigned, held, Some(wid), retry);
            proof {
                lemma_unique_ids_update(tasks0, self.tasks@);
                Self::lemma_no_other_live(
                    q_old,
                    self.quorum.proposals_seq(),
                    pi,
                    tid,
                );
                lemma_live_mapped_stable(
                    self.quorum.proposals_seq(),
                    tasks0,
                    self.tasks@,
                    tid,
                );
                lemma_task_idx_is(self.tasks@, tid, i as int);
                assert(status_step(TaskStatus::ProposalPending, TaskStatus::Assigned)) by {
                    assert(valid_transition(
                        TaskStatus::ProposalPending,
                        TaskStatus::Committed,
                    ) && valid_transition(TaskStatus::Committed, TaskStatus::Assigned));
                }
            }
            Ok(EngineOutcome::Committed(tid, wid))
        } else if new_state == ProposalState::Rejected {
            let ghost tasks0 = self.tasks@;
            let found = self.find_task(tid);
            let i = match found {
                None => {
                    proof {
                        assert(false);
                    }
                    return Err(ProtocolError::TaskNotFound);
                },
                Some(i) => i,
            };
            proof {
                lemma_task_idx_is(self.tasks@, tid, i as int);
            }
            let held = self.tasks[i].reservation;
            if let Some(rt) = held {
                self.ledger.release_reservation(rt);
            }
            let retry = self.tasks[i].retry_count;
            self.set_task(i, TaskStatus::Failed, None, None, retry);
            proof {
                lemma_unique_ids_update(tasks0, self.tasks@);
                Self::lemma_no_other_live(
                    q_old,
                    self.quorum.proposals_seq(),
                    pi,
                    tid,
                );
                lemma_live_mapped_stable(
                    self.quorum.proposals_seq(),
                    tasks0,
                    self.tasks@,
                    tid,
                );
                lemma_task_idx_is(self.tasks@, tid, i as int);
            }
            Ok(EngineOutcome::DeadLettered(tid, ProtocolError::ConsensusRejected))
        } else {
            Ok(EngineOutcome::VotePending(tid))
        }
    }

    /// Times out the proposal gating a task if its voting window closed
    /// before `now`: the proposal becomes `TimedOut`, the task's reservation
    /// is released, and the task is requeued (`ConsensusTimeout`, transient)
    /// or dead-lettered once its retry budget is exhausted. A proposal not
    /// yet due, or already decided, leaves everything as it stands.
    #[verifier::rlimit(60)]
    pub fn handle_timeout(&mut self, proposal_id: u64, now: u64) -> (r: Result<
        EngineOutcome,
        ProtocolError,
    >)
        requires
            old(self).wf(),
        ensures
            final(self).wf(),
            final(self).registry_spec() == old(self).registry_spec(),
            final(self).max_retries_spec() == old(self).max_retries_spec(),
            final(self).next_task_id_spec() == old(self).next_task_id_spec(),
            statuses_evolve(old(self).tasks_seq(), final(self).tasks_seq()),
            r == Err::<EngineOutcome, ProtocolError>(ProtocolError::NotFound) <==> !has_proposal(
                old(self).quorum_spec().proposals_seq(),
                proposal_id,
            ),
            r is Err ==> *final(self) == *old(self) && r == Err::<EngineOutcome, ProtocolError>(
                ProtocolError::NotFound,
            ),
            has_proposal(old(self).quorum_spec().proposals_seq(), proposal_id) ==> ({
                let p = proposal_at(old(self).quorum_spec().proposals_seq(), proposal_id);
                let due = p.state == ProposalState::Voting && p.deadline < now;
                &&& (!due ==> r == Ok::<EngineOutcome, ProtocolError>(
                    EngineOutcome::Skipped(p.task_id),
                ) && *final(self) == *old(self))
                &&& (due ==> {
                    &&& final(self).quorum_spec().proposals_seq() == old(
                        self,
                    ).quorum_spec().proposals_seq().update(
                        prop_idx(
                            old(self).quorum_spec().proposals_seq(),
                            proposal_id,
                        ),
                        crate::shared::types::Proposal { state: ProposalState::TimedOut, ..p },
                    )
                    &&& reservation_released(
                        old(self).ledger_spec(),
                        final(self).ledger_spec(),
                        task_at(old(self).tasks_seq(), p.task_id).reservation,
                    )
                    &&& has_task(final(self).tasks_seq(), p.task_id)
                    &&& task_at(final(self).tasks_seq(), p.task_id).reservation is None
                    &&& match r {
                        Result::Ok(EngineOutcome::Requeued(tid, why)) => {
                            &&& tid == p.task_id
                            &&& why == ProtocolError::ConsensusTimeout
                            &&& task_at(final(self).tasks_seq(), tid).status == TaskStatus::Pending
                            &&& task_at(final(self).tasks_seq(), tid).retry_count == task_at(
                                old(self).tasks_seq(),
                                tid,
                            ).retry_count + 1
                        },
                        Result::Ok(EngineOutcome::DeadLettered(tid, why)) => {
                            &&& tid == p.task_id
                            &&& (why == ProtocolError::MaxRetriesExceeded || why
                                == ProtocolError::QueueFull)
                            &&& task_at(final(self).tasks_seq(), tid).status == TaskStatus::Failed
                        },
                        _ => false,
                    }
                })
            }),
    {
        let brief = self.quorum.proposal_brief(proposal_id);
        let (tid, _wid, _tok, pre_state) = match brief {
            None => {
                return Err(ProtocolError::NotFound);
            },
            Some(b) => b,
        };
        let pre_terminal = pre_state == ProposalState::Committed || pre_state
            == ProposalState::Rejected || pre_state == ProposalState::TimedOut;
        if pre_terminal {
            return Ok(EngineOutcome::Skipped(tid));
        }
        let ghost q_old = self.quorum.proposals_seq();
        let ghost pi = crate::validator::consensus_engine::prop_idx(q_old, proposal_id);
        let timed = self.quorum.timeout_proposal(proposal_id, now);
        let new_state = match timed {
            Err(_) => {
                proof {
                    assert(false);
                }
                return Err(ProtocolError::NotFound);
            },
            Ok(s) => s,
        };
        if !(new_state == ProposalState::TimedOut) {
            return Ok(EngineOutcome::Skipped(tid));
        }
        proof {
            assert(q_old[pi].task_id == tid && !q_old[pi].state.is_terminal());
            assert(has_task(self.tasks@, tid) && task_at(self.tasks@, tid).status
                == TaskStatus::ProposalPending);
        }
        let ghost tasks0 = self.tasks@;
        let found = self.find_task(tid);
        let i = match found {
            None => {
                proof {
                    assert(false);
                }
                return Err(ProtocolError::TaskNotFound);
            },
            Some(i) => i,
        };
        proof {
            lemma_task_idx_is(self.tasks@, tid, i as int);
        }
        let held = self.tasks[i].reservation;
        if let Some(rt) = held {
            self.ledger.release_reservation(rt);
        }
        let retry = self.tasks[i].retry_count;
        self.set_task(i, TaskStatus::ReservePending, None, None, retry);
        proof {
            lemma_unique_ids_update(tasks0, self.tasks@);
            Self::lemma_no_other_live(q_old, self.quorum.proposals_seq(), pi, tid);
            lemma_live_mapped_stable(
                self.quorum.proposals_seq(),
                tasks0,
                self.tasks@,
                tid,
            );
            lemma_task_idx_is(self.tasks@, tid, i as int);
        }
        Ok(self.send_back(i, ProtocolError::ConsensusTimeout))
    }

    /// Notes that the worker accepted the hand-off: an `Assigned` task
    /// becomes `Running`. An unknown task is refused with `TaskNotFound`, a
    /// task in any other status with `Internal` (the stage only proceeds
    /// from the expected status).
    pub fn start_execution(&mut self, task_id: TaskId) -> (r: Result<(), ProtocolError>)
        requires
            old(self).wf(),
        ensures
            final(self).wf(),
            final(self).registry_spec() == old(self).registry_spec(),
            final(self).queue_spec() == old(self).queue_spec(),
            final(self).ledger_spec() == old(self).ledger_spec(),
            final(self).quorum_spec() == old(self).quorum_spec(),
            final(self).max_retries_spec() == old(self).max_retries_spec(),
            final(self).next_task_id_spec() == old(self).next_task_id_spec(),
            statuses_evolve(old(self).tasks_seq(), final(self).tasks_seq()),
            !has_task(old(self).tasks_seq(), task_id) ==> r == Err::<(), ProtocolError>(
                ProtocolError::TaskNotFound,
            ) && *final(self) == *old(self),
            has_task(old(self).tasks_seq(), task_id) && task_at(
                old(self).tasks_seq(),
                task_id,
            ).status != TaskStatus::Assigned ==> r == Err::<(), ProtocolError>(
                ProtocolError::Internal,
            ) && *final(self) == *old(self),
            has_task(old(self).tasks_seq(), task_id) && task_at(
                old(self).tasks_seq(),
                task_id,
            ).status == TaskStatus::Assigned ==> r == Ok::<(), ProtocolError>(()) && task_at(
                final(self).tasks_seq(),
                task_id,
            ).status == TaskStatus::Running && has_task(final(self).tasks_seq(), task_id),
    {
        let found = self.find_task(task_id);
        let i = match found {
            None => {
                return Err(ProtocolError::TaskNotFound);
            },
            Some(i) => i,
        };
        proof {
            lemma_task_idx_is(self.tasks@, task_id, i as int);
        }
        if !(self.tasks[i].status == TaskStatus::Assigned) {
            return Err(ProtocolError::Internal);
        }
        let ghost tasks0 = self.tasks@;
        proof {
            lemma_no_live_for(self.quorum.proposals_seq(), self.tasks@, task_id);
        }
        let held = self.tasks[i].reservation;
        let worker = self.tasks[i].assigned_worker;
        let retry = self.tasks[i].retry_count;
        self.set_task(i, TaskStatus::Running, held, worker, retry);
        proof {
            lemma_unique_ids_update(tasks0, self.tasks@);
            lemma_live_mapped_stable(
                self.quorum.proposals_seq(),
                tasks0,
                self.tasks@,
                task_id,
            );
            lemma_task_idx_is(self.tasks@, task_id, i as int);
        }
        Ok(())
    }

    /// Records the worker's execution result for a `Running` task: success
    /// releases the reservation and completes the task; failure releases the
    /// reservation and requeues the task (`WorkerHealthFailure`, transient)
    /// or dead-letters it once the retry budget is exhausted. A task in any
    /// other status is skipped, an unknown one refused with `TaskNotFound`.
    #[verifier::rlimit(60)]
    pub fn handle_execution_result(&mut self, task_id: TaskId, success: bool) -> (r: Result<
        EngineOutcome,
        ProtocolError,
    >)
        requires
            old(self).wf(),
        ensures
            final(self).wf(),
            final(self).registry_spec() == old(self).registry_spec(),
            final(self).max_retries_spec() == old(self).max_retries_spec(),
            final(self).next_task_id_spec() == old(self).next_task_id_spec(),
            statuses_evolve(old(self).tasks_seq(), final(self).tasks_seq()),
            r is Err ==> *final(self) == *old(self) && r == Err::<EngineOutcome, ProtocolError>(
                ProtocolError::TaskNotFound,
            ) && !has_task(old(self).tasks_seq(), task_id),
            match r {
                Result::Ok(EngineOutcome::Skipped(tid)) => tid == task_id && *final(self) == *old(
                    self,
                ) && task_at(old(self).tasks_seq(), task_id).status != TaskStatus::Running,
                Result::Ok(EngineOutcome::Finished(tid)) => {
                    &&& tid == task_id
                    &&& success
                    &&& has_task(final(self).tasks_seq(), tid)
                    &&& task_at(final(self).tasks_seq(), tid).status == TaskStatus::Completed
                    &&& task_at(final(self).tasks_seq(), tid).reservation is None
                    &&& reservation_released(
                        old(self).ledger_spec(),
                        final(self).ledger_spec(),
                        task_at(old(self).tasks_seq(), tid).reservation,
                    )
                },
                Result::Ok(EngineOutcome::Requeued(tid, why)) => {
                    &&& tid == task_id
                    &&& !success
                    &&& why == ProtocolError::WorkerHealthFailure
                    &&& has_task(final(self).tasks_seq(), tid)
                    &&& task_at(final(self).tasks_seq(), tid).status == TaskStatus::Pending
                    &&& task_at(final(self).tasks_seq(), tid).retry_count == task_at(
                        old(self).tasks_seq(),
                        tid,
                    ).retry_count + 1
                    &&& task_at(final(self).tasks_seq(), tid).reservation is None
                    &&& reservation_released(
                        old(self).ledger_spec(),
                        final(self).ledger_spec(),
                        task_at(old(self).tasks_seq(), tid).reservation,
                    )
                },
                Result::Ok(EngineOutcome::DeadLettered(tid, _)) => {
                    &&& tid == task_id
                    &&& !success
                    &&& has_task(final(self).tasks_seq(), tid)
                    &&& task_at(final(self).tasks_seq(), tid).status == TaskStatus::Failed
                    &&& task_at(final(self).tasks_seq(), tid).reservation is None
                    &&& reservation_released(
                        old(self).ledger_spec(),
                        final(self).ledger_spec(),
                        task_at(old(self).tasks_seq(), tid).reservation,
                    )
                },
                Result::Ok(_) => false,
                Result::Err(_) => true,
            },
    {
        let found = self.find_task(task_id);
        let i = match found {
            None => {
                return Err(ProtocolError::TaskNotFound);
            },
            Some(i) => i,
        };
        proof {
            lemma_task_idx_is(self.tasks@, task_id, i as int);
        }
        if !(self.tasks[i].status == TaskStatus::Running) {
            return Ok(EngineOutcome::Skipped(task_id));
        }
        let ghost tasks0 = self.tasks@;
        proof {
            lemma_no_live_for(self.quorum.proposals_seq(), self.tasks@, task_id);
        }
        let held = self.tasks[i].reservation;
        if let Some(rt) = held {
            self.ledger.release_reservation(rt);
        }
        if success {
            let retry = self.tasks[i].retry_count;
            self.set_task(i, TaskStatus::Completed, None, None, retry);
            proof {
                lemma_unique_ids_update(tasks0, self.tasks@);
                lemma_live_mapped_stable(
                    self.quorum.proposals_seq(),
                    tasks0,
                    self.tasks@,
                    task_id,
                );
                lemma_task_idx_is(self.tasks@, task_id, i as int);
            }
            Ok(EngineOutcome::Finished(task_id))
        } else {
            let retry = self.tasks[i].retry_count;
            self.set_task(i, TaskStatus::Running, None, None, retry);
            proof {
                lemma_unique_ids_update(tasks0, self.tasks@);
                lemma_live_mapped_stable(
                    self.quorum.proposals_seq(),
                    tasks0,
                    self.tasks@,
                    task_id,
                );
                lemma_task_idx_is(self.tasks@, task_id, i as int);
            }
            Ok(self.send_back(i, ProtocolError::WorkerHealthFailure))
        }
    }

    /// Requests cancellation of a task. Before its assignment commits, the
    /// task's live proposal is dropped, its reservation is released
    /// (restoring the resource's availability), and the task is `Cancelled`
    /// at once. After commitment, the task becomes `CancelRequested` until
    /// the worker acknowledges. A terminal task is left as it is; an
    /// unknown one is refused with `TaskNotFound`. The status the task
    /// holds after the call is returned.
    #[verifier::rlimit(60)]
    pub fn cancel_task(&mut self, task_id: TaskId) -> (r: Result<TaskStatus, ProtocolError>)
        requires
            old(self).wf(),
        ensures
            final(self).wf(),
            final(self).registry_spec() == old(self).registry_spec(),
            final(self).queue_spec() == old(self).queue_spec(),
            final(self).max_retries_spec() == old(self).max_retries_spec(),
            final(self).next_task_id_spec() == old(self).next_task_id_spec(),
            statuses_evolve(old(self).tasks_seq(), final(self).tasks_seq()),
            !has_task(old(self).tasks_seq(), task_id) ==> r == Err::<TaskStatus, ProtocolError>(
                ProtocolError::TaskNotFound,
            ) && *final(self) == *old(self),
            has_task(old(self).tasks_seq(), task_id) ==> {
                let t = task_at(old(self).tasks_seq(), task_id);
                if t.status.is_terminal() {
                    r == Ok::<TaskStatus, ProtocolError>(t.status) && *final(self) == *old(self)
                } else if t.status == TaskStatus::Committed || t.status == TaskStatus::Assigned
                    || t.status == TaskStatus::Running || t.status == TaskStatus::CancelRequested {
                    &&& r == Ok::<TaskStatus, ProtocolError>(TaskStatus::CancelRequested)
                    &&& task_at(final(self).tasks_seq(), task_id).status
                        == TaskStatus::CancelRequested
                    &&& final(self).ledger_spec() == old(self).ledger_spec()
                } else {
                    &&& r == Ok::<TaskStatus, ProtocolError>(TaskStatus::Cancelled)
                    &&& task_at(final(self).tasks_seq(), task_id).status == TaskStatus::Cancelled
                    &&& task_at(final(self).tasks_seq(), task_id).reservation is None
                    &&& (t.reservation is None ==> final(self).ledger_spec() == old(
                        self,
                    ).ledger_spec())
                    &&& (t.reservation matches Some(rt) ==> (has_reservation(
                        old(self).ledger_spec().reservations_seq(),
                        rt,
                    ) ==> {
                        let rv = reservation_at(old(self).ledger_spec().reservations_seq(), rt);
                        let rec = resource_at(
                            old(self).ledger_spec().records_seq(),
                            rv.resource_id@,
                        );
                        &&& final(self).ledger_spec().reservations_seq() == old(
                            self,
                        ).ledger_spec().reservations_seq().remove(
                            crate::orchestrator::resource_manager::rsv_idx(
                                old(self).ledger_spec().reservations_seq(),
                                rt,
                            ),
                        )
                        &&& final(self).ledger_spec().records_seq() == old(
                            self,
                        ).ledger_spec().records_seq().update(
                            res_idx(old(self).ledger_spec().records_seq(), rv.resource_id@),
                            crate::orchestrator::resource_manager::ResourceRecord {
                                resource: Resource {
                                    available: (rec.resource.available + rv.amount) as u64,
                                    ..rec.resource
                                },
                                allocated: rec.allocated,
                            },
                        )
                    }))
                }
            },
    {
        let found = self.find_task(task_id);
        let i = match found {
            None => {
                return Err(ProtocolError::TaskNotFound);
            },
            Some(i) => i,
        };
        proof {
            lemma_task_idx_is(self.tasks@, task_id, i as int);
        }
        let status = self.tasks[i].status;
        if status == TaskStatus::Completed || status == TaskStatus::Failed || status
            == TaskStatus::Cancelled {
            return Ok(status);
        }
        if status == TaskStatus::Committed || status == TaskStatus::Assigned || status
            == TaskStatus::Running || status == TaskStatus::CancelRequested {
            let ghost tasks0 = self.tasks@;
            proof {
                lemma_no_live_for(self.quorum.proposals_seq(), self.tasks@, task_id);
            }
            let held = self.tasks[i].reservation;
            let worker = self.tasks[i].assigned_worker;
            let retry = self.tasks[i].retry_count;
            self.set_task(i, TaskStatus::CancelRequested, held, worker, retry);
            proof {
                lemma_unique_ids_update(tasks0, self.tasks@);
                lemma_live_mapped_stable(
                    self.quorum.proposals_seq(),
                    tasks0,
                    self.tasks@,
                    task_id,
                );
                lemma_task_idx_is(self.tasks@, task_id, i as int);
            }
            return Ok(TaskStatus::CancelRequested);
        }
        let ghost tasks0 = self.tasks@;
        let ghost q_old = self.quorum.proposals_seq();
        self.quorum.reject_live_for_task(task_id);
        proof {
            assert forall|k: int|
                0 <= k < self.quorum.proposals_seq().len() && !(
                #[trigger] self.quorum.proposals_seq()[k]).state.is_terminal() implies has_task(
                tasks0,
                self.quorum.proposals_seq()[k].task_id,
            ) && task_at(tasks0, self.quorum.proposals_seq()[k].task_id).status
                == TaskStatus::ProposalPending by {
                assert(self.quorum.proposals_seq()[k] == q_old[k]);
            }
        }
        let held = self.tasks[i].reservation;
        if let Some(rt) = held {
            self.ledger.release_reservation(rt);
        }
        let retry = self.tasks[i].retry_count;
        self.set_task(i, TaskStatus::Cancelled, None, None, retry);
        proof {
            lemma_unique_ids_update(tasks0, self.tasks@);
            lemma_live_mapped_stable(
                self.quorum.proposals_seq(),
                tasks0,
                self.tasks@,
                task_id,
            );
            lemma_task_idx_is(self.tasks@, task_id, i as int);
        }
        Ok(TaskStatus::Cancelled)
    }

    /// Notes the worker's acknowledgment of a cancellation request: a
    /// `CancelRequested` task becomes `Cancelled` and its reservation is
    /// released. Any other known task is left as it is; an unknown one is
    /// refused with `TaskNotFound`. The status the task holds after the
    /// call is returned.
    pub fn acknowledge_cancel(&mut self, task_id: TaskId) -> (r: Result<TaskStatus, ProtocolError>)
        requires
            old(self).wf(),
        ensures
            final(self).wf(),
            final(self).registry_spec() == old(self).registry_spec(),
            final(self).queue_spec() == old(self).queue_spec(),
            final(self).max_retries_spec() == old(self).max_retries_spec(),
            final(self).next_task_id_spec() == old(self).next_task_id_spec(),
            statuses_evolve(old(self).tasks_seq(), final(self).tasks_seq()),
            !has_task(old(self).tasks_seq(), task_id) ==> r == Err::<TaskStatus, ProtocolError>(
                ProtocolError::TaskNotFound,
            ) && *final(self) == *old(self),
            has_task(old(self).tasks_seq(), task_id) && task_at(
                old(self).tasks_seq(),
                task_id,
            ).status != TaskStatus::CancelRequested ==> r == Ok::<TaskStatus, ProtocolError>(
                task_at(old(self).tasks_seq(), task_id).status,
            ) && *final(self) == *old(self),
            has_task(old(self).tasks_seq(), task_id) && task_at(
                old(self).tasks_seq(),
                task_id,
            ).status == TaskStatus::CancelRequested ==> {
                &&& r == Ok::<TaskStatus, ProtocolError>(TaskStatus::Cancelled)
                &&& task_at(final(self).tasks_seq(), task_id).status == TaskStatus::Cancelled
                &&& task_at(final(self).tasks_seq(), task_id).reservation is None
                &&& reservation_released(
                    old(self).ledger_spec(),
                    final(self).ledger_spec(),
                    task_at(old(self).tasks_seq(), task_id).reservation,
                )
            },
    {
        let found = self.find_task(task_id);
        let i = match found {
            None => {
                return Err(ProtocolError::TaskNotFound);
            },
            Some(i) => i,
        };
        proof {
            lemma_task_idx_is(self.tasks@, task_id, i as int);
        }
        if !(self.tasks[i].status == TaskStatus::CancelRequested) {
            return Ok(self.tasks[i].status);
        }
        let ghost tasks0 = self.tasks@;
        proof {
            lemma_no_live_for(self.quorum.proposals_seq(), self.tasks@, task_id);
        }
        let held = self.tasks[i].reservation;
        if let Some(rt) = held {
            self.ledger.release_reservation(rt);
        }
        let retry = self.tasks[i].retry_count;
        self.set_task(i, TaskStatus::Cancelled, None, None, retry);
        proof {
            lemma_unique_ids_update(tasks0, self.tasks@);
            lemma_live_mapped_stable(
                self.quorum.proposals_seq(),
                tasks0,
                self.tasks@,
                task_id,
            );
            lemma_task_idx_is(self.tasks@, task_id, i as int);
        }
        Ok(TaskStatus::Cancelled)
    }

    /// Admits a task: the engine assigns it a fresh identifier, records it
    /// as `Pending` with an untouched retry budget, and queues it in its
    /// priority band. Refused with `QueueFull` when the queue is at
    /// capacity, leaving the engine unchanged.
    pub fn submit_task(&mut self, task: Task) -> (r: Result<TaskId, ProtocolError>)
        requires
            old(self).wf(),
        ensures
            final(self).wf(),
            final(self).ledger_spec() == old(self).ledger_spec(),
            final(self).registry_spec() == old(self).registry_spec(),
            final(self).quorum_spec() == old(self).quorum_spec(),
            final(self).max_retries_spec() == old(self).max_retries_spec(),
            old(self).next_task_id_spec() == u64::MAX ==> r == Err::<TaskId, ProtocolError>(
                ProtocolError::Internal,
            ) && *final(self) == *old(self),
            old(self).next_task_id_spec() < u64::MAX && old(self).queue_spec().total() >= old(self).queue_spec().capacity_spec() ==> r == Err::<TaskId, ProtocolError>(
                ProtocolError::QueueFull,
            ) && *final(self) == *old(self),
            old(self).next_task_id_spec() < u64::MAX && old(self).queue_spec().total() < old(self).queue_spec().capacity_spec() ==> {
                &&& r == Ok::<TaskId, ProtocolError>(old(self).next_task_id_spec())
                &&& final(self).tasks_seq() == old(self).tasks_seq().push(
                    Task {
                        id: old(self).next_task_id_spec(),
                        status: TaskStatus::Pending,
                        retry_count: 0,
                        reservation: None,
                        assigned_worker: None,
                        ..task
                    },
                )
                &&& final(self).next_task_id_spec() == old(self).next_task_id_spec() + 1
                &&& final(self).queue_spec().total() == old(self).queue_spec().total() + 1
                &&& final(self).queue_spec().capacity_spec() == old(self).queue_spec().capacity_spec()
            },
    {
        if self.next_task_id == u64::MAX {
            return Err(ProtocolError::Internal);
        }
        let id = self.next_task_id;
        let record = Task {
            id,
            status: TaskStatus::Pending,
            retry_count: 0,
            reservation: None,
            assigned_worker: None,
            ..task
        };
        let copy = Self::clone_task(&record);
        let ghost prev_tasks = self.tasks@;
        let scheduled = self.queue.schedule_task(copy);
        match scheduled {
            Err(e) => Err(e),
            Ok(()) => {
                self.tasks.push(record);
                self.next_task_id = self.next_task_id + 1;
                proof {
                    assert forall|k: int|
                        0 <= k < self.quorum.proposals_seq().len() && !(
                        #[trigger] self.quorum.proposals_seq()[k]).state.is_terminal() implies has_task(
                        self.tasks@,
                        self.quorum.proposals_seq()[k].task_id,
                    ) && task_at(self.tasks@, self.quorum.proposals_seq()[k].task_id).status
                        == TaskStatus::ProposalPending by {
                        let p = self.quorum.proposals_seq()[k];
                        assert(has_task(prev_tasks, p.task_id) && task_at(
                            prev_tasks,
                            p.task_id,
                        ).status == TaskStatus::ProposalPending);
                        let i = task_idx(prev_tasks, p.task_id);
                        assert(self.tasks@[i] == prev_tasks[i]);
                        lemma_task_idx_is(self.tasks@, p.task_id, i);
                    }
                }
                Ok(id)
            },
        }
    }
}

} // verus!
