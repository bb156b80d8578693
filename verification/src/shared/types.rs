//! Shared data model of the coordination pipeline.
//!
//! Identifiers are plain integers, timestamps are milliseconds, and a
//! worker's load is a per-mille fraction, so every field of the model is a
//! value the verifier can reason about directly.

use vstd::prelude::*;

verus! {

/// Node identifier.
pub type NodeId = u64;

/// Worker identifier.
pub type WorkerId = u64;

/// Task identifier.
pub type TaskId = u64;

/// Handle of a resource reservation held by a task.
pub type ReservationToken = u64;

/// Status of a task in its lifecycle state machine.
#[derive(Clone, Copy, Debug, PartialEq, Eq, Structural)]
pub enum TaskStatus {
    /// Admitted to the queue, not yet picked up.
    Pending,
    /// Dequeued; a resource reservation is being obtained.
    ReservePending,
    /// Resources reserved; a quorum proposal is open.
    ProposalPending,
    /// The proposal reached quorum; the assignment is binding.
    Committed,
    /// Bound to a worker and handed off for execution.
    Assigned,
    /// The worker reported that execution has begun.
    Running,
    /// Cancellation was requested after commitment; awaiting acknowledgment.
    CancelRequested,
    /// Terminal: execution succeeded.
    Completed,
    /// Terminal: execution failed and the retry budget is exhausted.
    Failed,
    /// Terminal: the task was cancelled.
    Cancelled,
}

impl TaskStatus {
    /// A terminal status is never left again.
    pub open spec fn is_terminal(self) -> bool {
        self == TaskStatus::Completed || self == TaskStatus::Failed || self == TaskStatus::Cancelled
    }
}

/// The lifecycle edges a task may move along: forward through the pipeline,
/// back to `Pending` on a transient failure, to `Failed` when dead-lettered,
/// and to `Cancelled` (directly, or through `CancelRequested` once the
/// assignment is binding).
pub open spec fn valid_transition(from: TaskStatus, to: TaskStatus) -> bool {
    ||| (from == TaskStatus::Pending && to == TaskStatus::ReservePending)
    ||| (from == TaskStatus::ReservePending && to == TaskStatus::ProposalPending)
    ||| (from == TaskStatus::ProposalPending && to == TaskStatus::Committed)
    ||| (from == TaskStatus::Committed && to == TaskStatus::Assigned)
    ||| (from == TaskStatus::Assigned && to == TaskStatus::Running)
    ||| (from == TaskStatus::Running && to == TaskStatus::Completed)
    ||| (!from.is_terminal() && to == TaskStatus::Pending)
    ||| (!from.is_terminal() && to == TaskStatus::Failed)
    ||| (!from.is_terminal() && from != TaskStatus::CancelRequested && to == TaskStatus::Cancelled)
    ||| ((from == TaskStatus::Committed || from == TaskStatus::Assigned || from
        == TaskStatus::Running) && to == TaskStatus::CancelRequested)
    ||| (from == TaskStatus::CancelRequested && to == TaskStatus::Cancelled)
}

/// A terminal status is final: no lifecycle edge leaves `Completed`,
/// `Failed`, or `Cancelled`.
pub proof fn lemma_terminal_is_final(from: TaskStatus, to: TaskStatus)
    requires
        from.is_terminal(),
    ensures
        !valid_transition(from, to),
{
}

/// Task priority levels, from lowest to highest.
#[derive(Clone, Copy, Debug, PartialEq, Eq, Structural)]
pub enum Priority {
    /// Lowest priority.
    Low,
    /// Normal priority.
    Normal,
    /// High priority.
    High,
    /// Critical priority.
    Critical,
}

impl Priority {
    /// Numeric rank of the priority; a higher rank is served first.
    pub open spec fn rank_spec(self) -> int {
        match self {
            Priority::Low => 0,
            Priority::Normal => 1,
            Priority::High => 2,
            Priority::Critical => 3,
        }
    }

    /// Numeric rank of the priority; a higher rank is served first.
    pub fn rank(&self) -> (r: u8)
        ensures
            r as int == self.rank_spec(),
    {
        match self {
            Priority::Low => 0,
            Priority::Normal => 1,
            Priority::High => 2,
            Priority::Critical => 3,
        }
    }
}

impl Default for Priority {
    /// The default priority is `Normal`.
    fn default() -> (r: Self)
        ensures
            r == Priority::Normal,
    {
        Priority::Normal
    }
}

/// A claim on units of a named resource, made while a task moves through
/// the pipeline.
#[derive(Debug)]
pub struct ResourceRequest {
    /// Identifier of the resource the task needs.
    pub resource_id: String,
    /// How many units of it the task needs.
    pub amount: u64,
}

/// A distributed task and its lifecycle state.
#[derive(Debug)]
pub struct Task {
    /// Unique task identifier, assigned by the engine on admission.
    pub id: TaskId,
    /// Task type or category.
    pub task_type: String,
    /// Opaque task payload.
    pub payload: Vec<u8>,
    /// Task priority.
    pub priority: Priority,
    /// Lifecycle status.
    pub status: TaskStatus,
    /// How many times the task has been requeued.
    pub retry_count: u32,
    /// Reservation held on behalf of the task, while one is active.
    pub reservation: Option<ReservationToken>,
    /// Worker the task is bound to, once the assignment is committed.
    pub assigned_worker: Option<WorkerId>,
    /// Capabilities a worker must advertise to be a candidate.
    pub required_capabilities: Vec<String>,
    /// Units of a ledger resource the task must reserve, if any.
    pub resource_request: Option<ResourceRequest>,
    /// Worker-side capacity the candidate must be able to satisfy.
    pub worker_need: WorkerResources,
    /// Creation timestamp, milliseconds.
    pub created_at: u64,
    /// Last update timestamp, milliseconds.
    pub updated_at: u64,
}

/// Result of executing a task.
#[derive(Debug)]
pub struct TaskResult {
    /// Task identifier.
    pub task_id: TaskId,
    /// Whether execution succeeded.
    pub success: bool,
    /// Result data, if any.
    pub data: Option<Vec<u8>>,
    /// Error message if execution failed.
    pub error: Option<String>,
    /// Execution duration in milliseconds.
    pub duration_ms: u64,
    /// Resource usage during execution.
    pub metrics: TaskMetrics,
}

/// Resource usage metrics of one task execution.
#[derive(Clone, Copy, Debug, PartialEq, Eq, Structural)]
pub struct TaskMetrics {
    /// CPU usage as a per-mille fraction of one core (0..=1000).
    pub cpu_usage_permille: u32,
    /// Memory usage in bytes.
    pub memory_bytes: u64,
    /// Network bytes sent.
    pub network_sent: u64,
    /// Network bytes received.
    pub network_received: u64,
}

/// Capacity a worker advertises.
#[derive(Clone, Copy, Debug, PartialEq, Eq, Structural)]
pub struct WorkerResources {
    /// Available CPU cores.
    pub cpu_cores: u32,
    /// Available memory in bytes.
    pub memory_bytes: u64,
    /// Available GPU devices.
    pub gpu_count: u32,
    /// Available disk space in bytes.
    pub disk_bytes: u64,
}

/// A worker as the registry tracks it.
#[derive(Debug)]
pub struct WorkerInfo {
    /// Worker identifier.
    pub id: WorkerId,
    /// Capabilities the worker advertises.
    pub capabilities: Vec<String>,
    /// Capacity the worker advertises.
    pub resources: WorkerResources,
    /// Current load as a per-mille fraction (0..=1000).
    pub load_permille: u32,
    /// Whether the worker passed its last health check.
    pub healthy: bool,
    /// Timestamp of the last heartbeat, milliseconds.
    pub last_heartbeat: u64,
}

/// One validator's voice on a proposal record.
#[derive(Debug)]
pub struct ProposalVote {
    /// Identifier of the validator that cast the vote.
    pub validator_id: String,
    /// Whether the validator approves the proposal.
    pub approve: bool,
}

/// State of a proposal's voting round.
#[derive(Clone, Copy, Debug, PartialEq, Eq, Structural)]
pub enum ProposalState {
    /// Created, votes not yet invited.
    Proposed,
    /// Votes are being collected.
    Voting,
    /// Terminal: the approval quorum was reached.
    Committed,
    /// Terminal: enough rejections arrived that quorum is unreachable.
    Rejected,
    /// Terminal: the voting window closed without a decision.
    TimedOut,
}

impl ProposalState {
    /// A terminal proposal accepts no further transitions.
    pub open spec fn is_terminal(self) -> bool {
        self == ProposalState::Committed || self == ProposalState::Rejected || self
            == ProposalState::TimedOut
    }
}

/// Categories of consensus proposals.
#[derive(Clone, Copy, Debug, PartialEq, Eq, Structural)]
pub enum ProposalType {
    /// Task assignment proposal.
    TaskAssignment,
    /// Worker registration.
    WorkerRegistration,
    /// Configuration change.
    ConfigurationChange,
    /// Protocol upgrade.
    ProtocolUpgrade,
}

/// A proposal that a task be bound to a worker, gated by validator votes.
#[derive(Debug)]
pub struct Proposal {
    /// Proposal identifier.
    pub id: u64,
    /// What kind of decision the proposal carries.
    pub proposal_type: ProposalType,
    /// The task whose assignment is proposed.
    pub task_id: TaskId,
    /// The worker the task would be bound to.
    pub candidate_worker: WorkerId,
    /// The reservation that backs the assignment.
    pub reservation: ReservationToken,
    /// Votes cast so far, at most one per validator.
    pub votes: Vec<ProposalVote>,
    /// Where the voting round stands.
    pub state: ProposalState,
    /// When the voting window closes, milliseconds.
    pub deadline: u64,
}

} // verus!
