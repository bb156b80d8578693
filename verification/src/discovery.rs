//! Service discovery: registration, lookup, and liveness of services.

pub mod network_topology;
pub mod peer_discovery;
pub mod service_registry;
