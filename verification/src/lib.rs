//! Distributed task coordination.
//!
//! A priority task queue, a resource ledger with reservations, a
//! quorum-based commitment protocol, worker health tracking, and the engine
//! that drives every admitted task through its lifecycle to exactly one
//! terminal state. Service discovery, proof validation, and worker-side
//! monitoring round out the protocol layer.

pub mod discovery;
pub mod orchestrator;
pub mod validator;
pub mod worker;
pub mod shared;

pub use shared::error::ProtocolError;
pub use shared::types::{NodeId, Task, TaskResult, TaskStatus, WorkerId};
