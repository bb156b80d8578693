//! Error taxonomy of the coordination pipeline.
//!
//! Transient conditions (`InsufficientResources`, `WorkerUnavailable`,
//! `ConsensusTimeout`) are handled by requeueing the task; terminal
//! conditions (`MaxRetriesExceeded`, `ConsensusRejected`) surface as a
//! `Failed` task carrying the reason; caller misuse (`TaskNotFound`,
//! `DuplicateVote`) is returned directly and never corrupts state.

use vstd::prelude::*;

verus! {

/// Error returned by the coordination engine and its registries.
#[derive(Clone, Copy, Debug, PartialEq, Eq, Structural)]
pub enum ProtocolError {
    /// The task queue is at capacity; the submission is refused.
    QueueFull,
    /// The resource has fewer available units than were requested.
    InsufficientResources,
    /// A proposal reached neither quorum nor rejection within its window.
    ConsensusTimeout,
    /// Enough validators voted against a proposal that quorum is unreachable.
    ConsensusRejected,
    /// The validator has already cast a vote on this proposal or ballot.
    DuplicateVote,
    /// No registered worker satisfies the task's requirements.
    WorkerUnavailable,
    /// A worker failed its health checks.
    WorkerHealthFailure,
    /// No task with the given identifier is known to the engine.
    TaskNotFound,
    /// The task has been requeued as often as its retry budget allows.
    MaxRetriesExceeded,
    /// An entity with this identifier is already registered.
    AlreadyRegistered,
    /// No entity with the given identifier is registered.
    NotFound,
    /// An internal limit was hit; the operation cannot be carried out.
    Internal,
}

} // verus!
