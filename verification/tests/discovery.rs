use protocol_layer::discovery::network_topology::{
    NetworkEdge, NetworkNode, NetworkTopology, NodeCapacity, NodeType,
};
use protocol_layer::discovery::peer_discovery::{DiscoveryConfig, PeerDiscovery, PeerInfo};
use protocol_layer::discovery::service_registry::{
    ServiceQuery, ServiceRegistration, ServiceRegistry, ServiceType,
};
use protocol_layer::ProtocolError;

fn registration(id: &str, service_type: ServiceType, caps: Vec<&str>) -> ServiceRegistration {
    ServiceRegistration {
        service_id: id.to_string(),
        service_type,
        version: "1.0.0".to_string(),
        endpoint: format!("https://{}.internal", id),
        capabilities: caps.into_iter().map(|c| c.to_string()).collect(),
        health_check_endpoint: None,
        metadata: vec![("zone".to_string(), "a".to_string())],
        ttl_ms: 60_000,
    }
}

fn node(id: &str, node_type: NodeType, region: &str) -> NetworkNode {
    NetworkNode {
        node_id: id.to_string(),
        node_type,
        region: region.to_string(),
        capacity: NodeCapacity { cpu_cores: 4, memory_gb: 8, bandwidth_mbps: 100, storage_gb: 50 },
        connections: vec![],
    }
}

fn peer(id: &str, caps: Vec<&str>, last_seen: u64) -> PeerInfo {
    PeerInfo {
        peer_id: id.to_string(),
        address: format!("10.0.0.1:{}", 9000),
        capabilities: caps.into_iter().map(|c| c.to_string()).collect(),
        last_seen,
        latency_ms: None,
        version: "1.0.0".to_string(),
    }
}

#[test]
fn test_service_registry_creation() {
    let registry = ServiceRegistry::default();
    assert_eq!(registry.service_count(), 0);
}

#[test]
fn register_query_and_deregister() {
    let mut registry = ServiceRegistry::new(300_000);
    registry
        .register_service(registration("api", ServiceType::Gateway, vec!["http"]))
        .unwrap();
    registry
        .register_service(registration("work-1", ServiceType::Worker, vec!["compute"]))
        .unwrap();
    assert_eq!(
        registry.register_service(registration("api", ServiceType::Gateway, vec![])),
        Err(ProtocolError::AlreadyRegistered)
    );
    assert_eq!(registry.service_count(), 2);

    let found = registry.get_service("api").unwrap();
    assert_eq!(found.service_id, "api");
    assert_eq!(found.endpoint, "https://api.internal");
    assert!(registry.get_service("ghost").is_none());

    let mut query = ServiceQuery::default();
    query.capabilities = vec!["compute".to_string()];
    let computers = registry.query_services(query);
    assert_eq!(computers.len(), 1);
    assert_eq!(computers[0].service_id, "work-1");

    let mut query = ServiceQuery::default();
    query.metadata_filters = vec![("zone".to_string(), "a".to_string())];
    assert_eq!(registry.query_services(query).len(), 2);

    let mut query = ServiceQuery::default();
    query.version = Some("2.0.0".to_string());
    assert!(registry.query_services(query).is_empty());

    let workers = registry.get_services_by_type(&ServiceType::Worker);
    assert_eq!(workers.len(), 1);
    assert_eq!(workers[0].service_id, "work-1");

    let types = registry.get_service_types();
    assert_eq!(types.len(), 2);

    registry.deregister_service("api").unwrap();
    assert_eq!(registry.service_count(), 1);
    assert_eq!(registry.deregister_service("api"), Err(ProtocolError::NotFound));
}

#[test]
fn heartbeat_and_pruning() {
    let mut registry = ServiceRegistry::new(100);
    registry
        .register_service(registration("api", ServiceType::Gateway, vec![]))
        .unwrap();
    assert_eq!(registry.heartbeat("api"), Ok(()));
    assert_eq!(registry.heartbeat("ghost"), Err(ProtocolError::NotFound));
    // a freshly heartbeated service survives pruning right away
    registry.cleanup_stale_services();
    assert_eq!(registry.service_count(), 1);
    // far in the future, the service is stale and goes
    let last = registry.get_service("api").unwrap().last_heartbeat;
    registry.prune_stale(last + 1000);
    assert_eq!(registry.service_count(), 0);
}

#[test]
fn test_network_topology_creation() {
    let topology = NetworkTopology::new();
    let stats = topology.get_network_stats();
    assert_eq!(stats.total_nodes, 0);
}

#[test]
fn nodes_edges_and_stats() {
    let mut topology = NetworkTopology::new();
    topology.add_node(node("a", NodeType::Orchestrator, "east")).unwrap();
    topology.add_node(node("b", NodeType::Worker, "west")).unwrap();
    topology.add_node(node("c", NodeType::Worker, "east")).unwrap();
    assert_eq!(
        topology.add_node(node("a", NodeType::Gateway, "east")),
        Err(ProtocolError::AlreadyRegistered)
    );
    assert!(!topology.is_connected());
    topology
        .add_edge(NetworkEdge {
            from_node: "a".to_string(),
            to_node: "b".to_string(),
            latency_ms: 5,
            bandwidth_mbps: 100,
            reliability_permille: 999,
        })
        .unwrap();
    assert_eq!(
        topology.add_edge(NetworkEdge {
            from_node: "a".to_string(),
            to_node: "ghost".to_string(),
            latency_ms: 5,
            bandwidth_mbps: 100,
            reliability_permille: 999,
        }),
        Err(ProtocolError::NotFound)
    );
    let a = topology.get_node("a").unwrap();
    assert_eq!(a.connections, vec!["b".to_string()]);
    let workers = topology.get_nodes_by_type(NodeType::Worker);
    assert_eq!(workers.len(), 2);
    let east = topology.get_nodes_by_region("east");
    assert_eq!(east.len(), 2);
    let mut regions = topology.get_regions();
    regions.sort();
    assert_eq!(regions, vec!["east".to_string(), "west".to_string()]);
    let path = topology.find_shortest_path("a", "c").unwrap();
    assert_eq!(path, vec!["a".to_string(), "c".to_string()]);
    assert!(topology.find_shortest_path("a", "ghost").is_none());
    let stats = topology.get_network_stats();
    assert_eq!(stats.total_nodes, 3);
    assert_eq!(stats.total_connections, 2);
    assert_eq!(stats.nodes_by_type[2], (NodeType::Worker, 2));
    topology.remove_node("b").unwrap();
    let stats = topology.get_network_stats();
    assert_eq!(stats.total_nodes, 2);
}

#[test]
fn test_peer_discovery_creation() {
    let config = DiscoveryConfig::default();
    let discovery = PeerDiscovery::new(config);
    assert_eq!(discovery.peer_count(), 0);
    assert!(!discovery.is_discovering());
}

#[test]
fn peers_are_tracked_and_pruned() {
    let mut config = DiscoveryConfig::default();
    config.max_peers = 2;
    let mut discovery = PeerDiscovery::new(config);
    discovery.add_peer(peer("p1", vec!["validator"], 0)).unwrap();
    discovery.add_peer(peer("p2", vec!["worker"], 0)).unwrap();
    assert_eq!(
        discovery.add_peer(peer("p3", vec![], 0)),
        Err(ProtocolError::QueueFull)
    );
    assert_eq!(discovery.peer_count(), 2);
    let validators = discovery.get_peers_by_capability("validator");
    assert_eq!(validators.len(), 1);
    assert_eq!(validators[0].peer_id, "p1");
    assert_eq!(discovery.update_peer("p1", 25), Ok(()));
    assert_eq!(discovery.get_peers().len(), 2);
    assert_eq!(discovery.remove_peer("p2"), Ok(()));
    assert_eq!(discovery.remove_peer("p2"), Err(ProtocolError::NotFound));
    // p1 was just seen by the wall clock; a prune far in the future drops it
    let seen = discovery.get_peers()[0].last_seen;
    discovery.prune_stale_peers(seen + 400_000);
    assert_eq!(discovery.peer_count(), 0);
}

#[test]
fn discovery_start_and_stop() {
    let mut discovery = PeerDiscovery::new(DiscoveryConfig::default());
    assert!(discovery.start_discovery().is_ok());
    assert!(discovery.is_discovering());
    assert_eq!(discovery.start_discovery(), Err(ProtocolError::AlreadyRegistered));
    discovery.stop_discovery();
    assert!(!discovery.is_discovering());
}

#[test]
fn bootstrap_discovery_contacts_configured_nodes() {
    let mut config = DiscoveryConfig::default();
    config.bootstrap_nodes = vec!["10.0.0.5:7000".to_string(), "10.0.0.6:7000".to_string()];
    let mut discovery = PeerDiscovery::new(config);
    discovery.start_discovery().unwrap();
    assert_eq!(discovery.peer_count(), 2);
    let peers = discovery.get_peers();
    assert_ne!(peers[0].peer_id, peers[1].peer_id);
    assert!(peers[0].peer_id.starts_with("bootstrap-"));
    let validators = discovery.get_peers_by_capability("validator");
    assert_eq!(validators.len(), 2);
}
