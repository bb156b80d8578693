//! Task orchestration: queueing, resource accounting, worker selection, and
//! the engine that binds them into one task lifecycle.

pub mod coordination_engine;
pub mod resource_manager;
pub mod task_scheduler;
pub mod worker_registry;
