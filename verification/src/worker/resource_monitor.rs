//! Tracking of a worker's resource usage.
//!
//! The monitor holds the latest sample of system metrics and raises an
//! alert whenever a sample exceeds a configured threshold. Fractions are
//! per-mille values (1000 stands for 100%).

use vstd::prelude::*;

verus! {

/// One sample of system resource metrics.
#[derive(Clone, Copy, Debug, PartialEq, Eq, Structural)]
pub struct ResourceMetrics {
    /// CPU usage as a per-mille fraction (0..=1000).
    pub cpu_usage_permille: u32,
    /// Memory in use, bytes.
    pub memory_usage_bytes: u64,
    /// Memory installed, bytes.
    pub memory_total_bytes: u64,
    /// Disk in use, bytes.
    pub disk_usage_bytes: u64,
    /// Disk installed, bytes.
    pub disk_total_bytes: u64,
    /// Network bytes received.
    pub network_rx_bytes: u64,
    /// Network bytes sent.
    pub network_tx_bytes: u64,
    /// When the sample was taken, milliseconds.
    pub timestamp: u64,
}

/// What a raised alert is about.
#[derive(Clone, Copy, Debug, PartialEq, Eq, Structural)]
pub enum AlertType {
    /// CPU usage exceeded its threshold.
    HighCpuUsage,
    /// Memory usage exceeded its threshold.
    HighMemoryUsage,
    /// Disk space ran low.
    LowDiskSpace,
    /// Network traffic exceeded expectations.
    NetworkCongestion,
}

/// An alert raised by a sample that exceeded a threshold.
#[derive(Clone, Copy, Debug, PartialEq, Eq, Structural)]
pub struct ResourceAlert {
    /// What the alert is about.
    pub alert_type: AlertType,
    /// The offending value, per-mille.
    pub metric_permille: u64,
    /// The threshold it exceeded, per-mille.
    pub threshold_permille: u32,
    /// When the offending sample was taken, milliseconds.
    pub timestamp: u64,
}

/// Thresholds and cadence of resource monitoring.
#[derive(Clone, Copy, Debug, PartialEq, Eq, Structural)]
pub struct MonitorConfig {
    /// CPU usage above this per-mille fraction raises an alert.
    pub cpu_threshold_permille: u32,
    /// Memory usage above this per-mille fraction raises an alert.
    pub memory_threshold_permille: u32,
    /// Disk usage above this per-mille fraction raises an alert.
    pub disk_threshold_permille: u32,
    /// How often samples are taken, milliseconds.
    pub sample_interval_ms: u64,
}

impl Default for MonitorConfig {
    /// Alert at 80% CPU, 90% memory, 95% disk; sample every second.
    fn default() -> (r: Self)
        ensures
            r.cpu_threshold_permille == 800,
            r.memory_threshold_permille == 900,
            r.disk_threshold_permille == 950,
            r.sample_interval_ms == 1000,
    {
        MonitorConfig {
            cpu_threshold_permille: 800,
            memory_threshold_permille: 900,
            disk_threshold_permille: 950,
            sample_interval_ms: 1000,
        }
    }
}

/// Memory the monitor assumes before its first sample, bytes.
pub const DEFAULT_MEMORY_TOTAL_BYTES: u64 = 8 * 1024 * 1024 * 1024;

/// Disk space the monitor assumes before its first sample, bytes.
pub const DEFAULT_DISK_TOTAL_BYTES: u64 = 100 * 1024 * 1024 * 1024;

/// `used` as a per-mille fraction of `total`; 0 when `total` is 0.
pub open spec fn permille_of(used: u64, total: u64) -> int {
    if total == 0 {
        0
    } else {
        (used * 1000) / (total as int)
    }
}

/// `permille_of`, saturated into a `u64`.
pub open spec fn sat_permille(used: u64, total: u64) -> u64 {
    if permille_of(used, total) > u64::MAX {
        u64::MAX
    } else {
        permille_of(used, total) as u64
    }
}

/// The metrics the monitor reports before its first sample.
pub open spec fn initial_metrics() -> ResourceMetrics {
    ResourceMetrics {
        cpu_usage_permille: 0,
        memory_usage_bytes: 0,
        memory_total_bytes: DEFAULT_MEMORY_TOTAL_BYTES,
        disk_usage_bytes: 0,
        disk_total_bytes: DEFAULT_DISK_TOTAL_BYTES,
        network_rx_bytes: 0,
        network_tx_bytes: 0,
        timestamp: 0,
    }
}

/// The alerts one sample raises under a configuration: one for CPU usage
/// over its threshold, then one for memory usage over its threshold.
pub open spec fn sample_alerts(c: MonitorConfig, m: ResourceMetrics) -> Seq<ResourceAlert> {
    let cpu: Seq<ResourceAlert> = if m.cpu_usage_permille > c.cpu_threshold_permille {
        seq![
            ResourceAlert {
                alert_type: AlertType::HighCpuUsage,
                metric_permille: m.cpu_usage_permille as u64,
                threshold_permille: c.cpu_threshold_permille,
                timestamp: m.timestamp,
            },
        ]
    } else {
        Seq::empty()
    };
    let mem: Seq<ResourceAlert> = if permille_of(m.memory_usage_bytes, m.memory_total_bytes)
        > c.memory_threshold_permille {
        seq![
            ResourceAlert {
                alert_type: AlertType::HighMemoryUsage,
                metric_permille: sat_permille(m.memory_usage_bytes, m.memory_total_bytes),
                threshold_permille: c.memory_threshold_permille,
                timestamp: m.timestamp,
            },
        ]
    } else {
        Seq::empty()
    };
    cpu + mem
}

/// Tracks a worker's resource usage and raises threshold alerts.
pub struct ResourceMonitor {
    config: MonitorConfig,
    current_metrics: ResourceMetrics,
    alerts: Vec<ResourceAlert>,
    monitoring_active: bool,
}

impl ResourceMonitor {
    /// The configuration the monitor was created with.
    pub closed spec fn config_spec(self) -> MonitorConfig {
        self.config
    }

    /// The most recent sample.
    pub closed spec fn metrics_spec(self) -> ResourceMetrics {
        self.current_metrics
    }

    /// The alerts raised so far, oldest first.
    pub closed spec fn alerts_seq(self) -> Seq<ResourceAlert> {
        self.alerts@
    }

    /// Whether monitoring is switched on.
    pub closed spec fn monitoring_spec(self) -> bool {
        self.monitoring_active
    }

    /// Creates a monitor that has taken no sample and raised no alert.
    pub fn new(config: MonitorConfig) -> (r: Self)
        ensures
            r.config_spec() == config,
            r.metrics_spec() == initial_metrics(),
            r.alerts_seq() == Seq::<ResourceAlert>::empty(),
            !r.monitoring_spec(),
    {
        ResourceMonitor {
            config,
            current_metrics: ResourceMetrics {
                cpu_usage_permille: 0,
                memory_usage_bytes: 0,
                memory_total_bytes: DEFAULT_MEMORY_TOTAL_BYTES,
                disk_usage_bytes: 0,
                disk_total_bytes: DEFAULT_DISK_TOTAL_BYTES,
                network_rx_bytes: 0,
                network_tx_bytes: 0,
                timestamp: 0,
            },
            alerts: Vec::new(),
            monitoring_active: false,
        }
    }

    /// Switches monitoring on.
    pub fn start_monitoring(&mut self)
        ensures
            final(self).config_spec() == old(self).config_spec(),
            final(self).metrics_spec() == old(self).metrics_spec(),
            final(self).alerts_seq() == old(self).alerts_seq(),
            final(self).monitoring_spec(),
    {
        self.monitoring_active = true;
    }

    /// Switches monitoring off.
    pub fn stop_monitoring(&mut self)
        ensures
            final(self).config_spec() == old(self).config_spec(),
            final(self).metrics_spec() == old(self).metrics_spec(),
            final(self).alerts_seq() == old(self).alerts_seq(),
            !final(self).monitoring_spec(),
    {
        self.monitoring_active = false;
    }

    /// Records one sample of system metrics and raises the alerts it
    /// warrants: high CPU when the sample's CPU fraction exceeds its
    /// threshold, high memory when the used fraction of total memory
    /// exceeds its threshold.
    pub fn record_sample(&mut self, metrics: ResourceMetrics)
        ensures
            final(self).config_spec() == old(self).config_spec(),
            final(self).monitoring_spec() == old(self).monitoring_spec(),
            final(self).metrics_spec() == metrics,
            final(self).alerts_seq() == old(self).alerts_seq() + sample_alerts(
                old(self).config_spec(),
                metrics,
            ),
    {
        self.current_metrics = metrics;
        let ghost before = self.alerts@;
        if metrics.cpu_usage_permille > self.config.cpu_threshold_permille {
            self.alerts.push(
                ResourceAlert {
                    alert_type: AlertType::HighCpuUsage,
                    metric_permille: metrics.cpu_usage_permille as u64,
                    threshold_permille: self.config.cpu_threshold_permille,
                    timestamp: metrics.timestamp,
                },
            );
        }
        let memory_over = if metrics.memory_total_bytes > 0 {
            proof {
                assert(metrics.memory_usage_bytes * 1000 <= u64::MAX * 1000) by (nonlinear_arith)
                    requires
                        metrics.memory_usage_bytes <= u64::MAX,
                ;
            }
            let used_permille = (metrics.memory_usage_bytes as u128) * 1000 / (
            metrics.memory_total_bytes as u128);
            used_permille > self.config.memory_threshold_permille as u128
        } else {
            false
        };
        if memory_over {
            let capped = {
                let used_permille = (metrics.memory_usage_bytes as u128) * 1000 / (
                metrics.memory_total_bytes as u128);
                if used_permille > u64::MAX as u128 {
                    u64::MAX
                } else {
                    used_permille as u64
                }
            };
            self.alerts.push(
                ResourceAlert {
                    alert_type: AlertType::HighMemoryUsage,
                    metric_permille: capped,
                    threshold_permille: self.config.memory_threshold_permille,
                    timestamp: metrics.timestamp,
                },
            );
        }
        proof {
            assert(self.alerts@ =~= before + sample_alerts(self.config, metrics));
        }
    }

    /// The most recent sample.
    pub fn get_current_metrics(&self) -> (r: ResourceMetrics)
        ensures
            r == self.metrics_spec(),
    {
        self.current_metrics
    }

    /// The alerts raised so far, oldest first.
    pub fn get_alerts(&self) -> (r: Vec<ResourceAlert>)
        ensures
            r@ == self.alerts_seq(),
    {
        let n = self.alerts.len();
        let mut out: Vec<ResourceAlert> = Vec::new();
        for i in 0..n
            invariant
                n == self.alerts@.len(),
                out@.len() == i,
                forall|k: int| 0 <= k < i ==> #[trigger] out@[k] == self.alerts@[k],
        {
            out.push(self.alerts[i]);
        }
        proof {
            assert(out@ =~= self.alerts@);
        }
        out
    }

    /// Forgets all raised alerts.
    pub fn clear_alerts(&mut self)
        ensures
            final(self).config_spec() == old(self).config_spec(),
            final(self).metrics_spec() == old(self).metrics_spec(),
            final(self).monitoring_spec() == old(self).monitoring_spec(),
            final(self).alerts_seq() == Seq::<ResourceAlert>::empty(),
    {
        self.alerts.clear();
    }

    /// Whether monitoring is switched on.
    pub fn is_monitoring(&self) -> (r: bool)
        ensures
            r == self.monitoring_spec(),
    {
        self.monitoring_active
    }
}

} // verus!
