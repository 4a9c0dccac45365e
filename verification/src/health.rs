//! The snapshot aggregator: fold the outcome of every probe into one
//! complete health record. A failed probe contributes exactly one message
//! to the error list and leaves its field at a well-defined empty value;
//! no probe failure ever fails the snapshot itself.

use vstd::prelude::*;
use vstd::string::*;

use crate::cpu::{cpu_usage_views, CpuUsage, CpuUsageView};
use crate::disk::{disk_info_empty, DiskInfo, DiskInfoView};
use crate::loadavg::LoadAvg;
use crate::mem::{ram_info_empty, RamInfo, RamView};
use crate::net::{
    netdev_views, netif_views, tcp_views, NetDevInfo, NetDevView, NetIfView, NetworkInterface,
    TcpConnView, TcpConnection,
};
use crate::order::sorted_by_key;
use crate::probe::ProbeError;
use crate::rate::{rate_views, DiskIoInfo, RateView};
use crate::sensors::{sensor_key, sensor_views, SensorReading, SensorView};
use crate::services::{
    cg_key, cgroup_views, service_views, CgroupInfo, CgroupView, ServiceView, SystemdService,
};
use crate::tailscale::{peer_views, PeerView, TailscaleMetrics, TailscalePeer};
use crate::uptime::{uptime_info_empty, UptimeInfo, UptimeView};

verus! {

/// One complete health snapshot: every probe's field, the error list, and
/// the capture instant in milliseconds since the epoch. Fully constructed
/// and well-defined even when every probe fails.
#[derive(Debug, Clone, PartialEq, Eq)]
pub struct SystemHealth {
    pub disk_info: DiskInfo,
    pub ram_info: RamInfo,
    pub cpu_usages: Vec<CpuUsage>,
    pub errors: Vec<String>,
    pub sensor_data: Vec<SensorReading>,
    pub tailscale_peers: Vec<TailscalePeer>,
    pub network_info: Vec<NetworkInterface>,
    pub load_avg: LoadAvg,
    pub tailscale_metrics: TailscaleMetrics,
    pub net_dev_info: Vec<NetDevInfo>,
    pub tcp_connections: Vec<TcpConnection>,
    pub uptime_info: UptimeInfo,
    pub services: Vec<SystemdService>,
    pub cgroup_data: Vec<CgroupInfo>,
    pub disk_io_info: Vec<DiskIoInfo>,
    pub timestamp: i64,
}

pub struct HealthView {
    pub disk_info: DiskInfoView,
    pub ram_info: RamView,
    pub cpu_usages: Seq<CpuUsageView>,
    pub errors: Seq<Seq<char>>,
    pub sensor_data: Seq<SensorView>,
    pub tailscale_peers: Seq<PeerView>,
    pub network_info: Seq<NetIfView>,
    pub load_avg: LoadAvg,
    pub tailscale_metrics: TailscaleMetrics,
    pub net_dev_info: Seq<NetDevView>,
    pub tcp_connections: Seq<TcpConnView>,
    pub uptime_info: UptimeView,
    pub services: Seq<ServiceView>,
    pub cgroup_data: Seq<CgroupView>,
    pub disk_io_info: Seq<RateView>,
    pub timestamp: i64,
}

impl View for SystemHealth {
    type V = HealthView;

    open spec fn view(&self) -> HealthView {
        HealthView {
            disk_info: self.disk_info@,
            ram_info: self.ram_info@,
            cpu_usages: cpu_usage_views(self.cpu_usages@),
            errors: crate::text::views(self.errors@),
            sensor_data: sensor_views(self.sensor_data@),
            tailscale_peers: peer_views(self.tailscale_peers@),
            network_info: netif_views(self.network_info@),
            load_avg: self.load_avg,
            tailscale_metrics: self.tailscale_metrics,
            net_dev_info: netdev_views(self.net_dev_info@),
            tcp_connections: tcp_views(self.tcp_connections@),
            uptime_info: self.uptime_info@,
            services: service_views(self.services@),
            cgroup_data: cgroup_views(self.cgroup_data@),
            disk_io_info: rate_views(self.disk_io_info@),
            timestamp: self.timestamp,
        }
    }
}

/// What each probe handed the aggregator for one capture.
pub struct ProbeOutcomes {
    pub disk_info: Result<DiskInfo, ProbeError>,
    pub ram_info: Result<RamInfo, ProbeError>,
    pub cpu_usages: Result<Vec<CpuUsage>, ProbeError>,
    pub sensor_data: Result<Vec<SensorReading>, ProbeError>,
    pub tailscale_peers: Result<Vec<TailscalePeer>, ProbeError>,
    pub network_info: Result<Vec<NetworkInterface>, ProbeError>,
    pub load_avg: Result<LoadAvg, ProbeError>,
    pub tailscale_metrics: Result<TailscaleMetrics, ProbeError>,
    pub net_dev_info: Result<Vec<NetDevInfo>, ProbeError>,
    pub tcp_connections: Result<Vec<TcpConnection>, ProbeError>,
    pub uptime_info: Result<UptimeInfo, ProbeError>,
    pub services: Result<Vec<SystemdService>, ProbeError>,
    pub cgroup_data: Result<Vec<CgroupInfo>, ProbeError>,
    pub disk_io_info: Result<Vec<DiskIoInfo>, ProbeError>,
}

/// The error-list contribution of one probe: nothing on success, exactly
/// one entry of the probe's name and its message on failure.
pub open spec fn probe_err<T>(prefix: Seq<char>, r: Result<T, ProbeError>) -> Seq<Seq<char>> {
    match r {
        Ok(_) => Seq::empty(),
        Err(e) => seq![prefix + e.message@],
    }
}

/// The whole error list, in the fixed probe order.
pub open spec fn snapshot_errors(o: ProbeOutcomes) -> Seq<Seq<char>> {
    probe_err("disk: "@, o.disk_info) + probe_err("ram: "@, o.ram_info) + probe_err(
        "cpu: "@,
        o.cpu_usages,
    ) + probe_err("sensors: "@, o.sensor_data) + probe_err("tailscale: "@, o.tailscale_peers)
        + probe_err("network: "@, o.network_info) + probe_err("load_avg: "@, o.load_avg)
        + probe_err("tailscale_metrics: "@, o.tailscale_metrics) + probe_err(
        "net_dev_info: "@,
        o.net_dev_info,
    ) + probe_err("tcp_connections: "@, o.tcp_connections) + probe_err(
        "uptime_info: "@,
        o.uptime_info,
    ) + probe_err("services: "@, o.services) + probe_err("cgroup_data: "@, o.cgroup_data)
        + probe_err("disk_io: "@, o.disk_io_info)
}

/// The snapshot the aggregator owes for given outcomes: each successful
/// probe's value in its field, each failed probe's field at its empty
/// value, the error list as above, and the capture stamp.
pub open spec fn build_snapshot_spec(o: ProbeOutcomes, ts: i64) -> HealthView {
    HealthView {
        disk_info: match o.disk_info {
            Ok(d) => d@,
            Err(_) => disk_info_empty(),
        },
        ram_info: match o.ram_info {
            Ok(x) => x@,
            Err(_) => ram_info_empty(),
        },
        cpu_usages: match o.cpu_usages {
            Ok(v) => cpu_usage_views(v@),
            Err(_) => Seq::empty(),
        },
        errors: snapshot_errors(o),
        sensor_data: match o.sensor_data {
            Ok(v) => sensor_views(v@),
            Err(_) => Seq::empty(),
        },
        tailscale_peers: match o.tailscale_peers {
            Ok(v) => peer_views(v@),
            Err(_) => Seq::empty(),
        },
        network_info: match o.network_info {
            Ok(v) => netif_views(v@),
            Err(_) => Seq::empty(),
        },
        load_avg: match o.load_avg {
            Ok(l) => l,
            Err(_) => LoadAvg {
                one_min: 0,
                five_min: 0,
                fifteen_min: 0,
                runnable_entities: 0,
                total_processes: 0,
            },
        },
        tailscale_metrics: match o.tailscale_metrics {
            Ok(m) => m,
            Err(_) => TailscaleMetrics { total_tx: 0, total_rx: 0 },
        },
        net_dev_info: match o.net_dev_info {
            Ok(v) => netdev_views(v@),
            Err(_) => Seq::empty(),
        },
        tcp_connections: match o.tcp_connections {
            Ok(v) => tcp_views(v@),
            Err(_) => Seq::empty(),
        },
        uptime_info: match o.uptime_info {
            Ok(u) => u@,
            Err(_) => uptime_info_empty(),
        },
        services: match o.services {
            Ok(v) => service_views(v@),
            Err(_) => Seq::empty(),
        },
        cgroup_data: match o.cgroup_data {
            Ok(v) => cgroup_views(v@),
            Err(_) => Seq::empty(),
        },
        disk_io_info: match o.disk_io_info {
            Ok(v) => rate_views(v@),
            Err(_) => Seq::empty(),
        },
        timestamp: ts,
    }
}

/// Unwrap one probe's outcome: its value on success; on failure, its empty
/// substitute, with the probe's one message appended to the error list.
fn take_or<T>(r: Result<T, ProbeError>, default: T, prefix: &str, errors: &mut Vec<String>) -> (v:
    T)
    ensures
        r is Ok ==> v == r.unwrap(),
        r is Err ==> v == default,
        crate::text::views(final(errors)@) == crate::text::views(old(errors)@) + probe_err(
            prefix@,
            r,
        ),
{
    match r {
        Ok(v) => {
            proof {
                assert(crate::text::views(errors@) + probe_err(prefix@, r)
                    =~= crate::text::views(errors@));
            }
            v
        },
        Err(e) => {
            let mut s = String::from_str(prefix);
            s.append(e.message.as_str());
            let ghost e0 = errors@;
            let ghost sv = s@;
            errors.push(s);
            proof {
                assert(errors@ == e0.push(errors@[e0.len() as int]));
                assert(crate::text::views(errors@) =~= crate::text::views(e0).push(sv));
                assert(crate::text::views(errors@) =~= crate::text::views(e0) + probe_err(
                    prefix@,
                    r,
                ));
            }
            default
        },
    }
}

/// Assemble one snapshot from the probes' outcomes and the capture stamp.
/// This never fails: every failure was already reduced to an outcome.
#[verifier::rlimit(100)]
pub fn build_snapshot(o: ProbeOutcomes, timestamp_ms: i64) -> (s: SystemHealth)
    ensures
        s@ == build_snapshot_spec(o, timestamp_ms),
{
    let mut errors: Vec<String> = Vec::new();
    proof {
        assert(crate::text::views(errors@) =~= Seq::<Seq<char>>::empty());
    }
    let disk_info = take_or(o.disk_info, DiskInfo::default(), "disk: ", &mut errors);
    let ram_info = take_or(o.ram_info, RamInfo::default(), "ram: ", &mut errors);
    let cpu_usages = take_or(o.cpu_usages, Vec::new(), "cpu: ", &mut errors);
    let sensor_data = take_or(o.sensor_data, Vec::new(), "sensors: ", &mut errors);
    let tailscale_peers = take_or(o.tailscale_peers, Vec::new(), "tailscale: ", &mut errors);
    let network_info = take_or(o.network_info, Vec::new(), "network: ", &mut errors);
    let load_avg = take_or(o.load_avg, LoadAvg::default(), "load_avg: ", &mut errors);
    let tailscale_metrics = take_or(
        o.tailscale_metrics,
        TailscaleMetrics::default(),
        "tailscale_metrics: ",
        &mut errors,
    );
    let net_dev_info = take_or(o.net_dev_info, Vec::new(), "net_dev_info: ", &mut errors);
    let tcp_connections = take_or(o.tcp_connections, Vec::new(), "tcp_connections: ", &mut errors);
    let uptime_info = take_or(o.uptime_info, UptimeInfo::default(), "uptime_info: ", &mut errors);
    let services = take_or(o.services, Vec::new(), "services: ", &mut errors);
    let cgroup_data = take_or(o.cgroup_data, Vec::new(), "cgroup_data: ", &mut errors);
    let disk_io_info = take_or(o.disk_io_info, Vec::new(), "disk_io: ", &mut errors);
    proof {
        assert(crate::text::views(errors@) =~~= snapshot_errors(o));
        assert(cpu_usage_views(Seq::<CpuUsage>::empty()) =~= Seq::<CpuUsageView>::empty());
        assert(sensor_views(Seq::<SensorReading>::empty()) =~= Seq::<SensorView>::empty());
        assert(peer_views(Seq::<TailscalePeer>::empty()) =~= Seq::<PeerView>::empty());
        assert(netif_views(Seq::<NetworkInterface>::empty()) =~= Seq::<NetIfView>::empty());
        assert(netdev_views(Seq::<NetDevInfo>::empty()) =~= Seq::<NetDevView>::empty());
        assert(tcp_views(Seq::<TcpConnection>::empty()) =~= Seq::<TcpConnView>::empty());
        assert(service_views(Seq::<SystemdService>::empty()) =~= Seq::<ServiceView>::empty());
        assert(cgroup_views(Seq::<CgroupInfo>::empty()) =~= Seq::<CgroupView>::empty());
        assert(rate_views(Seq::<DiskIoInfo>::empty()) =~= Seq::<RateView>::empty());
    }
    SystemHealth {
        disk_info,
        ram_info,
        cpu_usages,
        errors,
        sensor_data,
        tailscale_peers,
        network_info,
        load_avg,
        tailscale_metrics,
        net_dev_info,
        tcp_connections,
        uptime_info,
        services,
        cgroup_data,
        disk_io_info,
        timestamp: timestamp_ms,
    }
}

// ---------------------------------------------------------------------------
// Aggregation laws
// ---------------------------------------------------------------------------
/// How many probes failed.
pub open spec fn err_count(o: ProbeOutcomes) -> int {
    (if o.disk_info is Err {
        1int
    } else {
        0int
    }) + (if o.ram_info is Err {
        1int
    } else {
        0int
    }) + (if o.cpu_usages is Err {
        1int
    } else {
        0int
    }) + (if o.sensor_data is Err {
        1int
    } else {
        0int
    }) + (if o.tailscale_peers is Err {
        1int
    } else {
        0int
    }) + (if o.network_info is Err {
        1int
    } else {
        0int
    }) + (if o.load_avg is Err {
        1int
    } else {
        0int
    }) + (if o.tailscale_metrics is Err {
        1int
    } else {
        0int
    }) + (if o.net_dev_info is Err {
        1int
    } else {
        0int
    }) + (if o.tcp_connections is Err {
        1int
    } else {
        0int
    }) + (if o.uptime_info is Err {
        1int
    } else {
        0int
    }) + (if o.services is Err {
        1int
    } else {
        0int
    }) + (if o.cgroup_data is Err {
        1int
    } else {
        0int
    }) + (if o.disk_io_info is Err {
        1int
    } else {
        0int
    })
}

/// Failure isolation: the snapshot's error list holds exactly one entry
/// per failed probe, and every failed probe's field holds its empty value,
/// whatever the other probes did.
pub proof fn lemma_failure_isolation(o: ProbeOutcomes, ts: i64)
    ensures
        build_snapshot_spec(o, ts).errors.len() == err_count(o),
        o.disk_info is Err ==> build_snapshot_spec(o, ts).disk_info == disk_info_empty(),
        o.ram_info is Err ==> build_snapshot_spec(o, ts).ram_info == ram_info_empty(),
        o.cpu_usages is Err ==> build_snapshot_spec(o, ts).cpu_usages.len() == 0,
        o.sensor_data is Err ==> build_snapshot_spec(o, ts).sensor_data.len() == 0,
        o.tailscale_peers is Err ==> build_snapshot_spec(o, ts).tailscale_peers.len() == 0,
        o.network_info is Err ==> build_snapshot_spec(o, ts).network_info.len() == 0,
        o.load_avg is Err ==> build_snapshot_spec(o, ts).load_avg == (LoadAvg {
            one_min: 0,
            five_min: 0,
            fifteen_min: 0,
            runnable_entities: 0,
            total_processes: 0,
        }),
        o.tailscale_metrics is Err ==> build_snapshot_spec(o, ts).tailscale_metrics
            == (TailscaleMetrics { total_tx: 0, total_rx: 0 }),
        o.net_dev_info is Err ==> build_snapshot_spec(o, ts).net_dev_info.len() == 0,
        o.tcp_connections is Err ==> build_snapshot_spec(o, ts).tcp_connections.len() == 0,
        o.uptime_info is Err ==> build_snapshot_spec(o, ts).uptime_info == uptime_info_empty(),
        o.services is Err ==> build_snapshot_spec(o, ts).services.len() == 0,
        o.cgroup_data is Err ==> build_snapshot_spec(o, ts).cgroup_data.len() == 0,
        o.disk_io_info is Err ==> build_snapshot_spec(o, ts).disk_io_info.len() == 0,
{
}

/// Deterministic ordering carries into the snapshot: when the sensor and
/// control-group probes hand the aggregator their sorted lists, the
/// snapshot's sensor readings and control-group rows are in non-decreasing
/// name and path order; a failed probe's empty list is sorted as well.
pub proof fn lemma_snapshot_sorted(o: ProbeOutcomes, ts: i64)
    requires
        o.sensor_data is Ok ==> sorted_by_key(
            sensor_views(o.sensor_data.unwrap()@),
            sensor_key(),
        ),
        o.cgroup_data is Ok ==> sorted_by_key(cgroup_views(o.cgroup_data.unwrap()@), cg_key()),
    ensures
        sorted_by_key(build_snapshot_spec(o, ts).sensor_data, sensor_key()),
        sorted_by_key(build_snapshot_spec(o, ts).cgroup_data, cg_key()),
{
}

} // verus!
