use protocol_layer::orchestrator::coordination_engine::{
    CoordinationEngine, EngineConfig, EngineOutcome,
};
use protocol_layer::orchestrator::resource_manager::{Resource, ResourceManager, ResourceType};
use protocol_layer::orchestrator::task_scheduler::TaskScheduler;
use protocol_layer::orchestrator::worker_registry::WorkerRegistry;
use protocol_layer::shared::types::{
    Priority, ResourceRequest, Task, TaskStatus, WorkerInfo, WorkerResources,
};
use protocol_layer::ProtocolError;

fn plain_task(priority: Priority) -> Task {
    Task {
        id: 0,
        task_type: "compute".to_string(),
        payload: vec![1, 2, 3],
        priority,
        status: TaskStatus::Pending,
        retry_count: 0,
        reservation: None,
        assigned_worker: None,
        required_capabilities: vec![],
        resource_request: None,
        worker_need: WorkerResources { cpu_cores: 0, memory_bytes: 0, gpu_count: 0, disk_bytes: 0 },
        created_at: 0,
        updated_at: 0,
    }
}

fn gpu_task(amount: u64) -> Task {
    let mut t = plain_task(Priority::Normal);
    t.resource_request = Some(ResourceRequest { resource_id: "gpu".to_string(), amount });
    t
}

fn worker(id: u64, load_permille: u32, last_heartbeat: u64) -> WorkerInfo {
    WorkerInfo {
        id,
        capabilities: vec!["compute".to_string()],
        resources: WorkerResources {
            cpu_cores: 8,
            memory_bytes: 1 << 30,
            gpu_count: 1,
            disk_bytes: 1 << 34,
        },
        load_permille,
        healthy: true,
        last_heartbeat,
    }
}

#[test]
fn test_resource_manager_creation() {
    let manager = ResourceManager::new();
    assert!(manager.get_resource_status("test").is_none());
}

#[test]
fn test_task_scheduler_creation() {
    let scheduler = TaskScheduler::new(100);
    assert_eq!(scheduler.pending_task_count(), 0);
}

#[test]
fn priority_then_fifo_order() {
    let mut queue = TaskScheduler::new(10);
    let mut high_a = plain_task(Priority::High);
    high_a.id = 1;
    let mut critical = plain_task(Priority::Critical);
    critical.id = 2;
    let mut high_b = plain_task(Priority::High);
    high_b.id = 3;
    queue.schedule_task(high_a).unwrap();
    queue.schedule_task(critical).unwrap();
    queue.schedule_task(high_b).unwrap();
    let first = queue.get_next_task().unwrap();
    let second = queue.get_next_task().unwrap();
    let third = queue.get_next_task().unwrap();
    assert_eq!(first.priority, Priority::Critical);
    assert_eq!(first.id, 2);
    assert_eq!(second.priority, Priority::High);
    assert_eq!(second.id, 1);
    assert_eq!(third.priority, Priority::High);
    assert_eq!(third.id, 3);
    assert!(queue.get_next_task().is_none());
}

#[test]
fn queue_refuses_when_full() {
    let mut queue = TaskScheduler::new(1);
    queue.schedule_task(plain_task(Priority::Low)).unwrap();
    let refused = queue.schedule_task(plain_task(Priority::Low));
    assert_eq!(refused, Err(ProtocolError::QueueFull));
}

#[test]
fn ledger_accounts_for_every_unit() {
    let mut ledger = ResourceManager::new();
    ledger
        .register_resource(Resource {
            id: "gpu".to_string(),
            resource_type: ResourceType::Gpu,
            capacity: 10,
            available: 10,
        })
        .unwrap();
    let token = ledger.reserve("gpu", 4, 7, 0).unwrap();
    assert_eq!(ledger.get_resource_status("gpu").unwrap().available, 6);
    ledger.commit(token).unwrap();
    assert_eq!(ledger.get_resource_status("gpu").unwrap().available, 6);
    ledger.release_reservation(token);
    assert_eq!(ledger.get_resource_status("gpu").unwrap().available, 10);
    // releasing again is a no-op
    ledger.release_reservation(token);
    assert_eq!(ledger.get_resource_status("gpu").unwrap().available, 10);
}

#[test]
fn ledger_allocate_and_release() {
    let mut ledger = ResourceManager::new();
    ledger
        .register_resource(Resource {
            id: "cpu".to_string(),
            resource_type: ResourceType::Cpu,
            capacity: 8,
            available: 8,
        })
        .unwrap();
    assert_eq!(ledger.allocate("cpu", 3), Ok(()));
    assert_eq!(ledger.get_resource_status("cpu").unwrap().available, 5);
    assert_eq!(ledger.allocate("cpu", 6), Err(ProtocolError::InsufficientResources));
    assert_eq!(ledger.allocate("disk", 1), Err(ProtocolError::NotFound));
    assert_eq!(ledger.release("cpu", 100), Ok(()));
    // a release never pushes availability past capacity
    assert_eq!(ledger.get_resource_status("cpu").unwrap().available, 8);
}

#[test]
fn ledger_lease_expiry_restores_units() {
    let mut ledger = ResourceManager::new();
    ledger.set_lease_ms(1000);
    ledger
        .register_resource(Resource {
            id: "gpu".to_string(),
            resource_type: ResourceType::Gpu,
            capacity: 5,
            available: 5,
        })
        .unwrap();
    let _token = ledger.reserve("gpu", 2, 1, 0).unwrap();
    assert_eq!(ledger.get_resource_status("gpu").unwrap().available, 3);
    ledger.expire_leases(500);
    assert_eq!(ledger.get_resource_status("gpu").unwrap().available, 3);
    ledger.expire_leases(2000);
    assert_eq!(ledger.get_resource_status("gpu").unwrap().available, 5);
}

#[test]
fn stale_worker_is_excluded() {
    let mut registry = WorkerRegistry::new(30_000);
    registry.register_worker(worker(1, 100, 0)).unwrap();
    let caps = vec!["compute".to_string()];
    let need = WorkerResources { cpu_cores: 1, memory_bytes: 1, gpu_count: 0, disk_bytes: 1 };
    // 31 seconds without a heartbeat: past the 30-second timeout
    assert_eq!(registry.select_candidate(&caps, &need, 31_000), None);
    registry.heartbeat(1, 31_000).unwrap();
    assert_eq!(registry.select_candidate(&caps, &need, 31_000), Some(1));
}

#[test]
fn candidate_ranked_by_load_then_id() {
    let mut registry = WorkerRegistry::new(30_000);
    registry.register_worker(worker(3, 500, 0)).unwrap();
    registry.register_worker(worker(1, 200, 0)).unwrap();
    registry.register_worker(worker(2, 200, 0)).unwrap();
    let caps = vec!["compute".to_string()];
    let need = WorkerResources { cpu_cores: 1, memory_bytes: 1, gpu_count: 0, disk_bytes: 1 };
    // lowest load wins; on equal load the lower id
    assert_eq!(registry.select_candidate(&caps, &need, 10_000), Some(1));
}

#[test]
fn candidate_needs_all_capabilities() {
    let mut registry = WorkerRegistry::new(30_000);
    registry.register_worker(worker(1, 100, 0)).unwrap();
    let caps = vec!["compute".to_string(), "gpu".to_string()];
    let need = WorkerResources { cpu_cores: 1, memory_bytes: 1, gpu_count: 0, disk_bytes: 1 };
    assert_eq!(registry.select_candidate(&caps, &need, 1000), None);
}

#[test]
fn resource_exhaustion_dead_letters_after_three_attempts() {
    let mut engine = CoordinationEngine::new_with_config(EngineConfig {
        queue_capacity: 16,
        max_retries: 3,
        threshold_permille: 670,
        validator_count: 3,
        heartbeat_timeout_ms: 30_000,
    });
    engine
        .register_resource(Resource {
            id: "gpu".to_string(),
            resource_type: ResourceType::Gpu,
            capacity: 5,
            available: 2,
        })
        .unwrap();
    engine.register_worker(worker(1, 100, 0)).unwrap();
    let id = engine.submit_task(gpu_task(4)).unwrap();

    let first = engine.start_next(10);
    assert_eq!(first, EngineOutcome::Requeued(id, ProtocolError::InsufficientResources));
    let second = engine.start_next(20);
    assert_eq!(second, EngineOutcome::Requeued(id, ProtocolError::InsufficientResources));
    let third = engine.start_next(30);
    assert_eq!(third, EngineOutcome::DeadLettered(id, ProtocolError::MaxRetriesExceeded));
    assert_eq!(engine.get_task_status(id), Ok(TaskStatus::Failed));
    // no partial reservation leaked
    assert_eq!(engine.get_resource_status("gpu").unwrap().available, 2);
}

#[test]
fn cancel_before_commit_restores_availability() {
    let mut engine = CoordinationEngine::new();
    engine
        .register_resource(Resource {
            id: "gpu".to_string(),
            resource_type: ResourceType::Gpu,
            capacity: 10,
            available: 10,
        })
        .unwrap();
    engine.register_worker(worker(1, 100, 0)).unwrap();
    let id = engine.submit_task(gpu_task(4)).unwrap();
    match engine.start_next(5) {
        EngineOutcome::Proposed(tid, _) => assert_eq!(tid, id),
        other => panic!("expected a proposal, got {:?}", other),
    }
    assert_eq!(engine.get_resource_status("gpu").unwrap().available, 6);
    assert_eq!(engine.get_task_status(id), Ok(TaskStatus::ProposalPending));
    assert_eq!(engine.cancel_task(id), Ok(TaskStatus::Cancelled));
    assert_eq!(engine.get_task_status(id), Ok(TaskStatus::Cancelled));
    assert_eq!(engine.get_resource_status("gpu").unwrap().available, 10);
}

#[test]
fn full_pipeline_reaches_completed() {
    let mut engine = CoordinationEngine::new_with_config(EngineConfig {
        queue_capacity: 16,
        max_retries: 3,
        threshold_permille: 670,
        validator_count: 3,
        heartbeat_timeout_ms: 30_000,
    });
    engine
        .register_resource(Resource {
            id: "gpu".to_string(),
            resource_type: ResourceType::Gpu,
            capacity: 10,
            available: 10,
        })
        .unwrap();
    engine.register_worker(worker(9, 100, 0)).unwrap();
    let id = engine.submit_task(gpu_task(2)).unwrap();
    let pid = match engine.start_next(5) {
        EngineOutcome::Proposed(_, pid) => pid,
        other => panic!("expected a proposal, got {:?}", other),
    };
    // two of three validators approve: ceil(0.67 * 3) = 3... with 670 permille,
    // required = ceil(2.01) = 3 votes
    assert_eq!(
        engine.handle_vote("v1", pid, true).unwrap(),
        EngineOutcome::VotePending(id)
    );
    assert_eq!(
        engine.handle_vote("v2", pid, true).unwrap(),
        EngineOutcome::VotePending(id)
    );
    assert_eq!(
        engine.handle_vote("v3", pid, true).unwrap(),
        EngineOutcome::Committed(id, 9)
    );
    assert_eq!(engine.get_task_status(id), Ok(TaskStatus::Assigned));
    engine.start_execution(id).unwrap();
    assert_eq!(engine.get_task_status(id), Ok(TaskStatus::Running));
    assert_eq!(
        engine.handle_execution_result(id, true).unwrap(),
        EngineOutcome::Finished(id)
    );
    assert_eq!(engine.get_task_status(id), Ok(TaskStatus::Completed));
    assert_eq!(engine.get_resource_status("gpu").unwrap().available, 10);
}

#[test]
fn unknown_task_is_reported() {
    let mut engine = CoordinationEngine::new();
    assert_eq!(engine.get_task_status(42), Err(ProtocolError::TaskNotFound));
    assert_eq!(engine.cancel_task(42), Err(ProtocolError::TaskNotFound));
    assert_eq!(engine.get_queue_depth(), 0);
}

#[test]
fn proposal_timeout_requeues_task() {
    let mut engine = CoordinationEngine::new();
    engine
        .register_resource(Resource {
            id: "gpu".to_string(),
            resource_type: ResourceType::Gpu,
            capacity: 10,
            available: 10,
        })
        .unwrap();
    engine.register_worker(worker(1, 100, 0)).unwrap();
    let id = engine.submit_task(gpu_task(3)).unwrap();
    let pid = match engine.start_next(0) {
        EngineOutcome::Proposed(_, pid) => pid,
        other => panic!("expected a proposal, got {:?}", other),
    };
    assert_eq!(engine.get_resource_status("gpu").unwrap().available, 7);
    // the default voting window is 10 seconds; far past it the proposal lapses
    let outcome = engine.handle_timeout(pid, 60_000).unwrap();
    assert_eq!(outcome, EngineOutcome::Requeued(id, ProtocolError::ConsensusTimeout));
    assert_eq!(engine.get_task_status(id), Ok(TaskStatus::Pending));
    assert_eq!(engine.get_resource_status("gpu").unwrap().available, 10);
}
