//! Scenario tests for the rate window, the aggregator's failure isolation,
//! the deterministic ordering of list fields, and the error paths of each
//! parser.

use nix_stat::{
    build_snapshot, disk_info_from_statvfs, feed_step, frame_message, get_cpu_usage_from_samples,
    get_disk_io_info_from_str, get_load_avg_from_str, get_net_dev_info_from_str,
    get_ram_info_from_str, get_sensor_data_from, get_tailscale_peers_from,
    get_tcp_connections_from_str, get_uptime_info_from_str, network_interfaces_from,
    parse_cpu_stats_from_str, parse_diskstats_from_str, tailscale_metrics_from_str, ChannelKind,
    CpuStat, DiskInfo, DiskStatsTable, FanData, FeedAction, FeedEvent, FeedState, IpAddrDetail,
    IpAddrInfo, LoadAvg, MacsmcData, ProbeError, ProbeOutcomes, RateWindow, StringOrVec,
    TailscaleMetrics, TailscalePeerJson, UptimeInfo,
};

fn diskstats_line(device: &str, reads: u64, sectors_read: u64, writes: u64, sectors_written: u64, time_ms: u64) -> String {
    format!(
        "8 0 {} {} 0 {} 0 {} 0 {} 0 0 {}\n",
        device, reads, sectors_read, writes, sectors_written, time_ms
    )
}

fn table(lines: &[String]) -> DiskStatsTable {
    parse_diskstats_from_str(&lines.concat()).expect("valid counter table")
}

#[test]
fn test_rate_window_debounces_and_keeps_first_baseline() {
    let t1 = table(&[diskstats_line("sda", 0, 0, 0, 0, 0)]);
    let t2 = table(&[diskstats_line("sda", 1000, 0, 0, 0, 0)]);
    let t3 = table(&[diskstats_line("sda", 2200, 0, 0, 0, 0)]);

    let mut rw = RateWindow::new();
    // first call only establishes the baseline
    assert!(rw.sample(t1, 1000).is_empty());
    // 1500 ms elapsed is under the minimum interval: empty, baseline kept
    assert!(rw.sample(t2, 2500).is_empty());
    // 2200 ms since the FIRST call: rates are computed against t1, not t2
    let rates = rw.sample(t3, 3200);
    assert_eq!(rates.len(), 1);
    assert_eq!(rates[0].device, "sda");
    // 2200 reads over 2.2 s = 1000.00 reads/s
    assert_eq!(rates[0].read_iops, 100000);
}

#[test]
fn test_zero_elapsed_returns_empty() {
    let t1 = table(&[diskstats_line("sda", 0, 0, 0, 0, 0)]);
    let t2 = table(&[diskstats_line("sda", 500, 0, 0, 0, 0)]);
    assert_eq!(get_disk_io_info_from_str(&t1, &t2, 0), vec![]);
}

#[test]
fn test_counter_reset_yields_zero_rates() {
    let before = table(&[diskstats_line("sda", 1000, 9000, 800, 7000, 5000)]);
    let after = table(&[diskstats_line("sda", 10, 20, 5, 8, 10)]);
    let rates = get_disk_io_info_from_str(&before, &after, 1000);
    assert_eq!(rates.len(), 1);
    assert_eq!(rates[0].read_iops, 0);
    assert_eq!(rates[0].write_iops, 0);
    assert_eq!(rates[0].read_mb_s, 0);
    assert_eq!(rates[0].write_mb_s, 0);
    assert_eq!(rates[0].utilization, 0);
}

#[test]
fn test_utilization_clamped_to_hundred_percent() {
    let before = table(&[diskstats_line("sda", 0, 0, 0, 0, 0)]);
    let after = table(&[diskstats_line("sda", 0, 0, 0, 0, 50000)]);
    let rates = get_disk_io_info_from_str(&before, &after, 1000);
    assert_eq!(rates.len(), 1);
    assert_eq!(rates[0].utilization, 10000);
}

#[test]
fn test_rate_rows_sorted_and_new_devices_skipped() {
    let before = table(&[
        diskstats_line("sdb", 0, 0, 0, 0, 0),
        diskstats_line("sda", 0, 0, 0, 0, 0),
    ]);
    let after = table(&[
        diskstats_line("sdc", 7, 0, 0, 0, 0),
        diskstats_line("sdb", 10, 0, 0, 0, 0),
        diskstats_line("sda", 20, 0, 0, 0, 0),
    ]);
    let rates = get_disk_io_info_from_str(&before, &after, 1000);
    // sdc has no baseline yet and is skipped; the rest come sorted
    assert_eq!(rates.len(), 2);
    assert_eq!(rates[0].device, "sda");
    assert_eq!(rates[1].device, "sdb");
    assert_eq!(rates[0].read_iops, 2000);
    assert_eq!(rates[1].read_iops, 1000);
}

#[test]
fn test_table_is_sorted() {
    let parsed = table(&[
        diskstats_line("sdb", 0, 0, 0, 0, 0),
        diskstats_line("sda", 0, 0, 0, 0, 0),
    ]);
    assert!(parsed.is_sorted());
    let zero = nix_stat::DiskStats {
        reads_completed: 0,
        sectors_read: 0,
        writes_completed: 0,
        sectors_written: 0,
        time_spent_io: 0,
    };
    let scrambled = DiskStatsTable {
        entries: vec![("sdb".to_string(), zero), ("sda".to_string(), zero)],
    };
    assert!(!scrambled.is_sorted());
}

#[test]
fn test_diskstats_field_error_names_device() {
    let bad = "8 0 sda xyz 0 0 0 0 0 0 0 0 0\n";
    let err = parse_diskstats_from_str(bad).unwrap_err();
    assert_eq!(
        err.message,
        "failed to parse reads_completed for device sda"
    );
}

#[test]
fn test_diskstats_skips_short_and_pseudo_lines() {
    let input = "too short\n7 0 loop0 bad 0 0 0 0 0 0 0 0 0\n8 0 sda 1 0 2 0 3 0 4 0 0 5\n";
    let t = parse_diskstats_from_str(input).expect("short and pseudo lines are skipped");
    assert_eq!(t.len(), 1);
    assert!(t.get("sda").is_some());
    assert!(t.get("loop0").is_none());
}

fn ok_outcomes() -> ProbeOutcomes {
    ProbeOutcomes {
        disk_info: Ok(DiskInfo::default()),
        ram_info: Ok(get_ram_info_from_str(
            "MemTotal: 2000 kB\nMemAvailable: 1000 kB\nMemFree: 500 kB\nShmem: 0 kB\n",
        )
        .unwrap()),
        cpu_usages: Ok(vec![]),
        sensor_data: Ok(vec![]),
        tailscale_peers: Ok(vec![]),
        network_info: Ok(vec![]),
        load_avg: Ok(LoadAvg::default()),
        tailscale_metrics: Ok(TailscaleMetrics::default()),
        net_dev_info: Ok(vec![]),
        tcp_connections: Ok(vec![]),
        uptime_info: Ok(UptimeInfo::default()),
        services: Ok(vec![]),
        cgroup_data: Ok(vec![]),
        disk_io_info: Ok(vec![]),
    }
}

#[test]
fn test_aggregator_isolates_failures() {
    let mut o = ok_outcomes();
    o.disk_info = Err(ProbeError {
        message: "no such file".to_string(),
    });
    o.sensor_data = Err(ProbeError {
        message: "tool missing".to_string(),
    });
    o.disk_io_info = Err(ProbeError {
        message: "bad counters".to_string(),
    });
    let s = build_snapshot(o, 1700000000000);
    assert_eq!(
        s.errors,
        vec![
            "disk: no such file".to_string(),
            "sensors: tool missing".to_string(),
            "disk_io: bad counters".to_string(),
        ]
    );
    // the failed fields hold their empty values, the rest are untouched
    assert_eq!(s.disk_info, DiskInfo::default());
    assert!(s.sensor_data.is_empty());
    assert!(s.disk_io_info.is_empty());
    assert_eq!(s.ram_info.total, "0.00 GB");
    assert_eq!(s.timestamp, 1700000000000);
}

#[test]
fn test_aggregator_all_failures_still_builds() {
    let mut o = ok_outcomes();
    fn boom() -> ProbeError {
        ProbeError { message: "x".to_string() }
    }
    o.disk_info = Err(boom());
    o.ram_info = Err(boom());
    o.cpu_usages = Err(boom());
    o.sensor_data = Err(boom());
    o.tailscale_peers = Err(boom());
    o.network_info = Err(boom());
    o.load_avg = Err(boom());
    o.tailscale_metrics = Err(boom());
    o.net_dev_info = Err(boom());
    o.tcp_connections = Err(boom());
    o.uptime_info = Err(boom());
    o.services = Err(boom());
    o.cgroup_data = Err(boom());
    o.disk_io_info = Err(boom());
    let s = build_snapshot(o, 5);
    assert_eq!(s.errors.len(), 14);
    assert_eq!(s.errors[0], "disk: x");
    assert_eq!(s.errors[13], "disk_io: x");
    assert_eq!(s.load_avg, LoadAvg::default());
    assert_eq!(s.tailscale_metrics, TailscaleMetrics::default());
    assert!(s.services.is_empty());
}

#[test]
fn test_sensor_readings_sorted_by_name() {
    let data = MacsmcData {
        adapter: "ISA adapter".to_string(),
        ac_input_voltage: Some(12010),
        fan: Some(FanData {
            input_milli: 2000000,
            min_milli: 1200000,
            max_milli: 6000000,
        }),
        nand_flash_temperature: Some(vec![("temp1".to_string(), 38000)]),
        wifi_bt_module_temp: Some(vec![("temp1".to_string(), 40000)]),
        total_system_power: Some(vec![("power1".to_string(), 25000)]),
        ac_input_power: Some(vec![("power1".to_string(), 30000)]),
        rail_power: Some(vec![("power1".to_string(), 5000)]),
        ac_input_current: Some(vec![("curr1".to_string(), 2500)]),
    };
    let readings = get_sensor_data_from(&data);
    let names: Vec<&str> = readings.iter().map(|r| r.name.as_str()).collect();
    assert_eq!(
        names,
        vec![
            "3.8 V Rail Power (power1)",
            "AC Input Current (curr1)",
            "AC Input Power (power1)",
            "AC Input Voltage",
            "Fan Speed",
            "NAND Flash Temperature (temp1)",
            "Total System Power (power1)",
            "WiFi/BT Module Temp (temp1)",
        ]
    );
    for w in names.windows(2) {
        assert!(w[0] <= w[1]);
    }
    assert_eq!(readings[3].value, "12.01");
    assert_eq!(readings[3].unit, "V");
    assert_eq!(readings[3].current, Some(12010));
    assert_eq!(readings[4].value, "2000");
    assert_eq!(readings[4].min, Some(1200000));
    assert_eq!(readings[4].max, Some(6000000));
    assert_eq!(readings[5].value, "38.0");
    assert_eq!(readings[1].value, "2500");
    assert_eq!(readings[1].unit, "mA");
}

#[test]
fn test_cgroup_rows_sorted_by_path() {
    let sample = "CGroup Tasks %CPU Memory In Out\n\
                  user.slice 7 - 2.5G - -\n\
                  / 214 - 472M - -\n\
                  system.slice 67 - 1.2G - -\n\
                  skipped.row - - - - -\n";
    let rows = nix_stat::get_cgroup_data_from_str(sample).unwrap();
    let paths: Vec<&str> = rows.iter().map(|r| r.path.as_str()).collect();
    assert_eq!(paths, vec!["/", "system.slice", "user.slice"]);
}

#[test]
fn test_frame_message() {
    assert_eq!(frame_message("{\"a\":1}"), "data: {\"a\":1}\n\n");
    assert_eq!(frame_message(""), "data: \n\n");
}

#[test]
fn test_feed_step_transitions() {
    assert_eq!(
        feed_step(FeedState::Connected, FeedEvent::Tick),
        (FeedState::Connected, FeedAction::Publish)
    );
    assert_eq!(
        feed_step(FeedState::Connected, FeedEvent::Disconnect),
        (FeedState::Closed, FeedAction::Stop)
    );
    assert_eq!(
        feed_step(FeedState::Closed, FeedEvent::Tick),
        (FeedState::Closed, FeedAction::Stop)
    );
}

#[test]
fn test_disk_info_from_statvfs() {
    // 75 GiB total in 4096-byte blocks, 59 GiB free, 56 GiB available
    let blocks = 75 * 1024 * 1024 * 1024 / 4096;
    let bfree = 59 * 1024 * 1024 * 1024 / 4096;
    let bavail = 56 * 1024 * 1024 * 1024 / 4096;
    let d = disk_info_from_statvfs(blocks, 4096, bavail, bfree);
    assert_eq!(d.filesystem, "rootfs");
    assert_eq!(d.mount, "/");
    assert_eq!(d.size, "75.0G");
    assert_eq!(d.total, "75.0G");
    assert_eq!(d.used, "16.0G");
    assert_eq!(d.avail, "56.0G");
    // 16/75 = 21.33 percent, rounded
    assert_eq!(d.percentage, 21);
    assert_eq!(d.use_perc, "21%");
}

#[test]
fn test_cpu_usage_from_samples() {
    let sample1 = "cpu 100 0 0 900 0 0 0 0 0 0\ncpu0 0 0 0 0 0 0 0 0 0 0\n";
    let sample2 = "cpu 400 0 0 1200 0 0 0 0 0 0\ncpu0 0 0 0 0 0 0 0 0 0 0\n";
    let s1 = parse_cpu_stats_from_str(sample1).unwrap();
    let s2 = parse_cpu_stats_from_str(sample2).unwrap();
    let usage = get_cpu_usage_from_samples(&s1, &s2);
    assert_eq!(usage.len(), 2);
    assert_eq!(usage[0].core, "Total");
    // 600 ticks passed, 300 idle: 50.0 percent busy
    assert_eq!(usage[0].usage, "50.0");
    assert_eq!(usage[1].core, "Core 0");
    assert_eq!(usage[1].usage, "0.0");
}

#[test]
fn test_cpu_samples_skip_renamed_cores() {
    let s1 = parse_cpu_stats_from_str("cpu0 1 0 0 1 0 0 0 0 0 0\n").unwrap();
    let s2 = parse_cpu_stats_from_str("cpu1 2 0 0 2 0 0 0 0 0 0\n").unwrap();
    assert!(get_cpu_usage_from_samples(&s1, &s2).is_empty());
}

#[test]
fn test_cpu_stat_value_error() {
    let err = parse_cpu_stats_from_str("cpu 1 2 3 x 5 6 7 8 9 10\n").unwrap_err();
    assert_eq!(err.message, "parse cpu stat value");
}

fn peer(host: &str, ip: &str, online: bool) -> TailscalePeerJson {
    TailscalePeerJson {
        id: "id".to_string(),
        public_key: "key".to_string(),
        host_name: host.to_string(),
        dns_name: format!("{}.example.", host),
        peer_api_url: Some(StringOrVec::Str("http://example".to_string())),
        user_id: 1,
        tailscale_ips: if ip.is_empty() {
            vec![]
        } else {
            vec![ip.to_string()]
        },
        allowed_ips: vec![],
        addrs: None,
        relay: "fra".to_string(),
        rx_bytes: 0,
        tx_bytes: 0,
        created: String::new(),
        last_write: String::new(),
        last_seen: String::new(),
        last_handshake: String::new(),
        online,
        exit_node: false,
        exit_node_option: false,
        active: false,
        taildrop_target: None,
        no_file_sharing_reason: String::new(),
        in_network_map: true,
        in_magic_sock: false,
        in_engine: false,
        key_expiry: None,
    }
}

#[test]
fn test_tailscale_peers_from() {
    let peers = vec![peer("host-a", "100.0.0.1", true), peer("host-b", "", false)];
    let rows = get_tailscale_peers_from(&peers);
    assert_eq!(rows.len(), 2);
    assert_eq!(rows[0].ip, "100.0.0.1");
    assert_eq!(rows[0].name, "host-a");
    assert_eq!(rows[0].status, "Online");
    assert!(rows[0].online);
    assert_eq!(rows[1].ip, "");
    assert_eq!(rows[1].status, "Offline");
}

#[test]
fn test_tailscale_metrics_from_str() {
    let text = "# counters\n\
                tailscaled_outbound_bytes_total 1048576\n\
                tailscaled_inbound_bytes_total 524288\n\
                tailscaled_other_metric 42\n\
                tailscaled_outbound_bytes_total notanumber\n";
    let m = tailscale_metrics_from_str(text);
    assert_eq!(m.total_tx, 100);
    assert_eq!(m.total_rx, 50);
}

#[test]
fn test_string_or_vec_normalizes() {
    let s = StringOrVec::Str("one".to_string());
    assert_eq!(s.as_vec(), vec!["one".to_string()]);
    assert_eq!(s.into_vec(), vec!["one".to_string()]);
    let l = StringOrVec::List(vec!["a".to_string(), "b".to_string()]);
    assert_eq!(l.as_vec(), vec!["a".to_string(), "b".to_string()]);
    assert_eq!(l.into_vec(), vec!["a".to_string(), "b".to_string()]);
}

fn iface(name: &str, state: &str, details: Vec<IpAddrDetail>) -> IpAddrInfo {
    IpAddrInfo {
        ifindex: 1,
        ifname: name.to_string(),
        flags: vec!["UP".to_string()],
        mtu: 1500,
        qdisc: "noqueue".to_string(),
        operstate: state.to_string(),
        group: "default".to_string(),
        txqlen: 1000,
        link_type: "ether".to_string(),
        address: None,
        broadcast: None,
        altnames: None,
        addr_info: details,
    }
}

fn addr(family: &str, local: &str) -> IpAddrDetail {
    IpAddrDetail {
        family: family.to_string(),
        local: local.to_string(),
        prefixlen: 24,
        broadcast: None,
        scope: "global".to_string(),
        label: None,
        valid_life_time: None,
        preferred_life_time: None,
        dynamic: None,
        noprefixroute: None,
        temporary: None,
        mngtmpaddr: None,
        deprecated: None,
        stable_privacy: None,
        protocol: None,
    }
}

#[test]
fn test_network_interfaces_from() {
    let addrs = vec![
        iface("lo", "UNKNOWN", vec![addr("inet", "127.0.0.1")]),
        iface("end0", "DOWN", vec![]),
        iface(
            "wlan0",
            "UP",
            vec![addr("inet6", "fe80::1"), addr("inet", "192.168.2.230")],
        ),
        iface("tailscale0", "UNKNOWN", vec![addr("inet6", "fd7a::1")]),
    ];
    let rows = network_interfaces_from(&addrs);
    assert_eq!(rows.len(), 2);
    assert_eq!(rows[0].name, "wlan0");
    assert_eq!(rows[0].ip, "192.168.2.230");
    assert_eq!(rows[0].state, "UP");
    assert_eq!(rows[1].name, "tailscale0");
    assert_eq!(rows[1].ip, "No IPv4");
}

#[test]
fn test_ram_percentage_rounds_half_away_from_zero() {
    let sample = "MemTotal: 2000 kB\nMemAvailable: 1999 kB\nMemFree: 0 kB\nShmem: 0 kB\n";
    let ram = get_ram_info_from_str(sample).unwrap();
    // 1/2000 of memory used is 0.05 percent: the half rounds up to 0.1
    assert_eq!(ram.percentage, 1);
}

#[test]
fn test_ram_malformed_unrecognized_lines_skipped() {
    // a junk value is fatal only under a key the probe reads; any other
    // malformed line inside an otherwise-successful read is skipped
    let sample = "MemTotal: 2000 kB\n\
                  SomeKey: abc\n\
                  OtherKey: 12.5\n\
                  MemAvailable: 1000 kB\n\
                  MemFree: 500 kB\n\
                  Shmem: 0 kB\n";
    let ram = get_ram_info_from_str(sample).expect("junk lines are skipped");
    assert_eq!(ram.percentage, 500);
    let still_bad = "MemTotal: 2000 kB\n\
                     MemAvailable: 1000 kB\n\
                     MemFree: 500 kB\n\
                     Shmem: 0 kB\n\
                     Cached: abc\n";
    let err = get_ram_info_from_str(still_bad).unwrap_err();
    assert_eq!(err.message, "failed to parse value for Cached:");
}

#[test]
fn test_ram_missing_key_errors() {
    let sample = "MemTotal: 2000 kB\nMemFree: 0 kB\nShmem: 0 kB\n";
    let err = get_ram_info_from_str(sample).unwrap_err();
    assert_eq!(err.message, "MemAvailable not found in /proc/meminfo");
    let err = get_ram_info_from_str("MemTotal: x kB\n").unwrap_err();
    assert_eq!(err.message, "failed to parse value for MemTotal:");
}

#[test]
fn test_loadavg_malformed_errors() {
    let err = get_load_avg_from_str("0.13 0.50").unwrap_err();
    assert_eq!(err.message, "malformed /proc/loadavg output");
    let err = get_load_avg_from_str("0.13 0.50 0.36 1217 688199").unwrap_err();
    assert_eq!(err.message, "parse runnable/total");
    let err = get_load_avg_from_str("x 0.50 0.36 1/217 688199").unwrap_err();
    assert_eq!(err.message, "parse one_min loadavg");
}

#[test]
fn test_uptime_malformed_errors() {
    let err = get_uptime_info_from_str("135951.86").unwrap_err();
    assert_eq!(err.message, "malformed /proc/uptime output");
    let err = get_uptime_info_from_str("abc 1076503.01").unwrap_err();
    assert_eq!(err.message, "parse total_uptime_seconds");
}

#[test]
fn test_netdev_and_tcp_parse_errors() {
    let bad_netdev = "h1\nh2\n eth0: x 2 0 0 0 0 0 0 9 10 0 0 0 0 0 0\n";
    let err = get_net_dev_info_from_str(bad_netdev).unwrap_err();
    assert_eq!(err.message, "parse rx_bytes");
    let bad_tcp = "header\nESTAB x 0 1.2.3.4:1 5.6.7.8:2\n";
    let err = get_tcp_connections_from_str(bad_tcp).unwrap_err();
    assert_eq!(err.message, "parse recv_q");
}
