//! Verified core of a host health-snapshot sampler.
//!
//! The crate parses the line-oriented and structured tables that describe a
//! host (disk counters, memory, CPU ticks, network devices, sockets,
//! services, control groups), computes counter-based rates over a debounced
//! time window, and folds the per-probe results into one snapshot record in
//! which every probe failure is isolated as an error string.

pub mod cpu;
pub mod disk;
pub mod diskstats;
pub mod health;
pub mod loadavg;
pub mod mem;
pub mod net;
pub mod num;
pub mod order;
pub mod probe;
pub mod publisher;
pub mod rate;
pub mod sensors;
pub mod services;
pub mod tailscale;
pub mod text;
pub mod uptime;

pub use cpu::{get_cpu_usage_from_samples, parse_cpu_stats_from_str, CpuStat, CpuUsage};
pub use disk::{disk_info_from_statvfs, DiskInfo};
pub use diskstats::{parse_diskstats_from_str, DiskStats, DiskStatsTable};
pub use health::{build_snapshot, ProbeOutcomes, SystemHealth};
pub use loadavg::{get_load_avg_from_str, LoadAvg};
pub use mem::{get_ram_info_from_str, RamInfo};
pub use net::{
    get_net_dev_info_from_str, get_tcp_connections_from_str, network_interfaces_from,
    IpAddrDetail, IpAddrInfo, NetDevInfo, NetworkInterface, TcpConnection,
};
pub use probe::ProbeError;
pub use publisher::{
    feed_step, frame_message, FeedAction, FeedEvent, FeedState, PUBLISH_INTERVAL_MS,
};
pub use rate::{get_disk_io_info_from_str, DiskIoInfo, RateWindow, MIN_SAMPLE_INTERVAL_MS};
pub use sensors::{get_sensor_data_from, ChannelKind, FanData, MacsmcData, SensorReading};
pub use services::{
    get_cgroup_data_from_str, get_services_from_str, CgroupInfo, SystemdService,
};
pub use tailscale::{
    get_tailscale_peers_from, tailscale_metrics_from_str, StringOrVec, Tailnet, TailscaleMetrics,
    TailscalePeer, TailscalePeerJson, TailscaleUser,
};
pub use uptime::{get_uptime_info_from_str, UptimeInfo};
