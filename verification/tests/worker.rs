use protocol_layer::worker::health_reporter::{
    DummyComponent, HealthReporter, HealthStatus,
};
use protocol_layer::worker::resource_monitor::{
    AlertType, MonitorConfig, ResourceMetrics, ResourceMonitor,
};
use protocol_layer::worker::task_executor::{ExecutionConfig, TaskExecutor, TaskStatus};
use protocol_layer::ProtocolError;

fn sample(cpu_permille: u32, mem_used: u64, mem_total: u64) -> ResourceMetrics {
    ResourceMetrics {
        cpu_usage_permille: cpu_permille,
        memory_usage_bytes: mem_used,
        memory_total_bytes: mem_total,
        disk_usage_bytes: 0,
        disk_total_bytes: 1,
        network_rx_bytes: 0,
        network_tx_bytes: 0,
        timestamp: 42,
    }
}

#[test]
fn test_health_reporter_creation() {
    let reporter = HealthReporter::<DummyComponent>::new(30_000);
    assert!(reporter.is_healthy());
    assert!(reporter.get_uptime() < 1000);
}

#[test]
fn health_checks_aggregate_worst_status() {
    let mut reporter = HealthReporter::new(1000);
    reporter.register_component("disk".to_string(), DummyComponent::new("disk".to_string()));
    reporter.register_component("net".to_string(), DummyComponent::new("net".to_string()));
    reporter.run_health_checks();
    assert!(reporter.is_healthy());
    let report = reporter.get_health_report();
    assert_eq!(report.overall_status, HealthStatus::Healthy);
    assert_eq!(report.component_results.len(), 2);
    let disk = reporter.get_component_health("disk").unwrap();
    assert_eq!(disk.status, HealthStatus::Healthy);
    assert_eq!(disk.message.as_deref(), Some("Component is functioning normally"));
    assert!(reporter.get_component_health("cpu").is_none());
}

#[test]
fn test_resource_monitor_creation() {
    let config = MonitorConfig::default();
    let monitor = ResourceMonitor::new(config);
    assert!(!monitor.is_monitoring());
    assert!(monitor.get_alerts().is_empty());
}

#[test]
fn monitoring_flag_round_trip() {
    let mut monitor = ResourceMonitor::new(MonitorConfig::default());
    monitor.start_monitoring();
    assert!(monitor.is_monitoring());
    monitor.stop_monitoring();
    assert!(!monitor.is_monitoring());
}

#[test]
fn samples_raise_threshold_alerts() {
    // thresholds: cpu 80%, memory 90%
    let mut monitor = ResourceMonitor::new(MonitorConfig::default());
    monitor.record_sample(sample(500, 10, 100));
    assert!(monitor.get_alerts().is_empty());
    monitor.record_sample(sample(850, 10, 100));
    let alerts = monitor.get_alerts();
    assert_eq!(alerts.len(), 1);
    assert_eq!(alerts[0].alert_type, AlertType::HighCpuUsage);
    assert_eq!(alerts[0].metric_permille, 850);
    assert_eq!(alerts[0].threshold_permille, 800);
    assert_eq!(alerts[0].timestamp, 42);
    monitor.record_sample(sample(900, 95, 100));
    let alerts = monitor.get_alerts();
    assert_eq!(alerts.len(), 3);
    assert_eq!(alerts[1].alert_type, AlertType::HighCpuUsage);
    assert_eq!(alerts[2].alert_type, AlertType::HighMemoryUsage);
    assert_eq!(alerts[2].metric_permille, 950);
    let latest = monitor.get_current_metrics();
    assert_eq!(latest.cpu_usage_permille, 900);
    monitor.clear_alerts();
    assert!(monitor.get_alerts().is_empty());
}

#[test]
fn test_task_executor_creation() {
    let config = ExecutionConfig::default();
    let executor = TaskExecutor::new(config);
    assert_eq!(executor.get_completed_count(), 0);
    assert!(executor.can_accept_task());
}

#[test]
fn execution_returns_payload_and_counts() {
    let mut executor = TaskExecutor::new(ExecutionConfig::default());
    executor.begin_task("t1".to_string());
    assert_eq!(executor.get_active_tasks(), vec!["t1".to_string()]);
    let result = executor.execute_task("t1".to_string(), vec![9, 8, 7]);
    assert_eq!(result.task_id, "t1");
    assert_eq!(result.status, TaskStatus::Completed);
    assert_eq!(result.output, Some(vec![9, 8, 7]));
    assert!(result.error.is_none());
    assert_eq!(executor.get_completed_count(), 1);
    assert!(executor.get_active_tasks().is_empty());
}

#[test]
fn cancel_removes_only_known_tasks() {
    let mut executor = TaskExecutor::new(ExecutionConfig::default());
    executor.begin_task("a".to_string());
    executor.begin_task("b".to_string());
    assert_eq!(executor.cancel_task("a"), Ok(()));
    assert_eq!(executor.get_active_tasks(), vec!["b".to_string()]);
    assert_eq!(executor.cancel_task("a"), Err(ProtocolError::NotFound));
}

#[test]
fn executor_concurrency_bound() {
    let mut executor = TaskExecutor::new(ExecutionConfig::default());
    for i in 0..10 {
        executor.begin_task(format!("task-{}", i));
    }
    assert!(!executor.can_accept_task());
    executor.cancel_task("task-0").unwrap();
    assert!(executor.can_accept_task());
}
