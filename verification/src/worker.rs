//! Worker node: task execution, resource monitoring, and health reporting.

pub mod health_reporter;
pub mod resource_monitor;
pub mod task_executor;
