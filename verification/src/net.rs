//! Network probes: per-interface packet and byte counters, TCP connections,
//! and the selection of up interfaces with their IPv4 addresses from a
//! parsed address listing.

use vstd::prelude::*;
use vstd::string::*;

use crate::probe::ProbeError;
use crate::text::{
    drop_prefix,
    dec_val, is_digits, split_lines, split_ws, str_eq, text_lines, trim_end_char, views,
    ws_tokens, parse_u64, parse_u32, str_trim_end_char,
};
use crate::diskstats::tok_u64_ok;

verus! {

/// A token that parses as a `u32`.
pub open spec fn tok_u32_ok(t: Seq<char>) -> bool {
    is_digits(t) && dec_val(t) <= u32::MAX
}

// ---------------------------------------------------------------------------
// Per-interface packet and byte counters
// ---------------------------------------------------------------------------
/// One interface's cumulative receive and transmit counters.
#[derive(Debug, Clone, PartialEq, Eq, Default)]
pub struct NetDevInfo {
    pub interface: String,
    pub rx_bytes: u64,
    pub rx_packets: u64,
    pub tx_bytes: u64,
    pub tx_packets: u64,
}

pub struct NetDevView {
    pub interface: Seq<char>,
    pub rx_bytes: u64,
    pub rx_packets: u64,
    pub tx_bytes: u64,
    pub tx_packets: u64,
}

impl View for NetDevInfo {
    type V = NetDevView;

    open spec fn view(&self) -> NetDevView {
        NetDevView {
            interface: self.interface@,
            rx_bytes: self.rx_bytes,
            rx_packets: self.rx_packets,
            tx_bytes: self.tx_bytes,
            tx_packets: self.tx_packets,
        }
    }
}

pub open spec fn netdev_views(s: Seq<NetDevInfo>) -> Seq<NetDevView> {
    s.map_values(|x: NetDevInfo| x@)
}

/// The record of one counter line: interface name with trailing colons
/// trimmed, then bytes and packets in the fixed receive and transmit
/// columns.
pub open spec fn netdev_entry(line: Seq<char>) -> NetDevView {
    let ts = ws_tokens(line);
    NetDevView {
        interface: trim_end_char(ts[0], ':'),
        rx_bytes: dec_val(ts[1]) as u64,
        rx_packets: dec_val(ts[2]) as u64,
        tx_bytes: dec_val(ts[9]) as u64,
        tx_packets: dec_val(ts[10]) as u64,
    }
}

pub open spec fn netdev_line_ok(line: Seq<char>) -> bool {
    let ts = ws_tokens(line);
    tok_u64_ok(ts[1]) && tok_u64_ok(ts[2]) && tok_u64_ok(ts[9]) && tok_u64_ok(ts[10])
}

pub open spec fn netdev_line_error(line: Seq<char>) -> Seq<char> {
    let ts = ws_tokens(line);
    if !tok_u64_ok(ts[1]) {
        "parse rx_bytes"@
    } else if !tok_u64_ok(ts[2]) {
        "parse rx_packets"@
    } else if !tok_u64_ok(ts[9]) {
        "parse tx_bytes"@
    } else {
        "parse tx_packets"@
    }
}

pub open spec fn netdev_acc(ls: Seq<Seq<char>>, acc: Seq<NetDevView>) -> Result<
    Seq<NetDevView>,
    Seq<char>,
>
    decreases ls.len(),
{
    if ls.len() == 0 {
        Ok(acc)
    } else if ws_tokens(ls[0]).len() < 11 {
        netdev_acc(ls.drop_first(), acc)
    } else if !netdev_line_ok(ls[0]) {
        Err(netdev_line_error(ls[0]))
    } else {
        netdev_acc(ls.drop_first(), acc.push(netdev_entry(ls[0])))
    }
}

/// What parsing the interface counter table yields: the two header lines
/// are ignored, counter lines too short to hold the transmit columns are
/// skipped, and a malformed counter fails the read.
pub open spec fn netdev_spec(input: Seq<char>) -> Result<Seq<NetDevView>, Seq<char>> {
    netdev_acc(drop_prefix(text_lines(input), 2), Seq::empty())
}

/// Parse the per-interface counter table.
pub fn get_net_dev_info_from_str(input: &str) -> (r: Result<Vec<NetDevInfo>, ProbeError>)
    ensures
        match r {
            Ok(v) => netdev_spec(input@) == Ok::<_, Seq<char>>(netdev_views(v@)),
            Err(e) => netdev_spec(input@) == Err::<Seq<NetDevView>, _>(e.message@),
        },
{
    let lines = split_lines(input);
    let mut out: Vec<NetDevInfo> = Vec::new();
    let mut i: usize = 2;
    proof {
        assert(netdev_views(out@) =~= Seq::<NetDevView>::empty());
    }
    while i < lines.len()
        invariant
            2 <= i,
            views(lines@) == text_lines(input@),
            netdev_spec(input@) == netdev_acc(
                drop_prefix(views(lines@), i as int),
                netdev_views(out@),
            ),
        decreases lines@.len() - i,
    {
        let ghost lv = drop_prefix(views(lines@), i as int);
        proof {
            assert(lv == views(lines@).skip(i as int));
            assert(lv[0] == lines@[i as int]@);
            assert(lv.drop_first() =~= views(lines@).skip(i as int + 1));
            assert(lv.drop_first() == drop_prefix(views(lines@), i as int + 1));
        }
        let toks = split_ws(lines[i].as_str());
        if toks.len() >= 11 {
            proof {
                assert(views(toks@)[0] == toks@[0]@);
                assert(views(toks@)[1] == toks@[1]@);
                assert(views(toks@)[2] == toks@[2]@);
                assert(views(toks@)[9] == toks@[9]@);
                assert(views(toks@)[10] == toks@[10]@);
            }
            let interface = str_trim_end_char(toks[0].as_str(), ':');
            let rx_bytes = match parse_u64(toks[1].as_str()) {
                Some(v) => v,
                None => {
                    return Err(ProbeError::msg("parse rx_bytes"));
                },
            };
            let rx_packets = match parse_u64(toks[2].as_str()) {
                Some(v) => v,
                None => {
                    return Err(ProbeError::msg("parse rx_packets"));
                },
            };
            let tx_bytes = match parse_u64(toks[9].as_str()) {
                Some(v) => v,
                None => {
                    return Err(ProbeError::msg("parse tx_bytes"));
                },
            };
            let tx_packets = match parse_u64(toks[10].as_str()) {
                Some(v) => v,
                None => {
                    return Err(ProbeError::msg("parse tx_packets"));
                },
            };
            let rec = NetDevInfo { interface, rx_bytes, rx_packets, tx_bytes, tx_packets };
            let ghost out0 = out@;
            let ghost recv = rec@;
            proof {
                assert(recv == netdev_entry(lv[0]));
                assert(ws_tokens(lv[0]).len() == toks@.len());
                assert(netdev_line_ok(lv[0]));
            }
            out.push(rec);
            proof {
                assert(out@ == out0.push(out@[out0.len() as int]));
                assert(netdev_views(out@) =~= netdev_views(out0).push(recv));
                assert(netdev_acc(lv, netdev_views(out0)) == netdev_acc(
                    lv.drop_first(),
                    netdev_views(out0).push(netdev_entry(lv[0])),
                ));
            }
        } else {
            proof {
                assert(ws_tokens(lv[0]).len() == toks@.len());
                assert(netdev_acc(lv, netdev_views(out@)) == netdev_acc(
                    lv.drop_first(),
                    netdev_views(out@),
                ));
            }
        }
        i += 1;
    }
    proof {
        assert(drop_prefix(views(lines@), i as int) =~= Seq::<Seq<char>>::empty());
    }
    Ok(out)
}

// ---------------------------------------------------------------------------
// TCP connections
// ---------------------------------------------------------------------------
/// One TCP socket as listed by the socket-statistics table.
#[derive(Debug, Clone, PartialEq, Eq, Default)]
pub struct TcpConnection {
    pub state: String,
    pub recv_q: u32,
    pub send_q: u32,
    pub local_address: String,
    pub peer_address: String,
}

pub struct TcpConnView {
    pub state: Seq<char>,
    pub recv_q: u32,
    pub send_q: u32,
    pub local_address: Seq<char>,
    pub peer_address: Seq<char>,
}

impl View for TcpConnection {
    type V = TcpConnView;

    open spec fn view(&self) -> TcpConnView {
        TcpConnView {
            state: self.state@,
            recv_q: self.recv_q,
            send_q: self.send_q,
            local_address: self.local_address@,
            peer_address: self.peer_address@,
        }
    }
}

pub open spec fn tcp_views(s: Seq<TcpConnection>) -> Seq<TcpConnView> {
    s.map_values(|x: TcpConnection| x@)
}

pub open spec fn tcp_entry(line: Seq<char>) -> TcpConnView {
    let ts = ws_tokens(line);
    TcpConnView {
        state: ts[0],
        recv_q: dec_val(ts[1]) as u32,
        send_q: dec_val(ts[2]) as u32,
        local_address: ts[3],
        peer_address: ts[4],
    }
}

pub open spec fn tcp_line_ok(line: Seq<char>) -> bool {
    let ts = ws_tokens(line);
    tok_u32_ok(ts[1]) && tok_u32_ok(ts[2])
}

pub open spec fn tcp_line_error(line: Seq<char>) -> Seq<char> {
    if !tok_u32_ok(ws_tokens(line)[1]) {
        "parse recv_q"@
    } else {
        "parse send_q"@
    }
}

pub open spec fn tcp_acc(ls: Seq<Seq<char>>, acc: Seq<TcpConnView>) -> Result<
    Seq<TcpConnView>,
    Seq<char>,
>
    decreases ls.len(),
{
    if ls.len() == 0 {
        Ok(acc)
    } else if ws_tokens(ls[0]).len() < 5 {
        tcp_acc(ls.drop_first(), acc)
    } else if !tcp_line_ok(ls[0]) {
        Err(tcp_line_error(ls[0]))
    } else {
        tcp_acc(ls.drop_first(), acc.push(tcp_entry(ls[0])))
    }
}

/// What parsing the socket table yields: the header line is ignored, short
/// lines are skipped, malformed queue lengths fail the read.
pub open spec fn tcp_spec(input: Seq<char>) -> Result<Seq<TcpConnView>, Seq<char>> {
    tcp_acc(drop_prefix(text_lines(input), 1), Seq::empty())
}

/// Parse the TCP connection table.
pub fn get_tcp_connections_from_str(input: &str) -> (r: Result<Vec<TcpConnection>, ProbeError>)
    ensures
        match r {
            Ok(v) => tcp_spec(input@) == Ok::<_, Seq<char>>(tcp_views(v@)),
            Err(e) => tcp_spec(input@) == Err::<Seq<TcpConnView>, _>(e.message@),
        },
{
    let lines = split_lines(input);
    let mut out: Vec<TcpConnection> = Vec::new();
    let mut i: usize = 1;
    proof {
        assert(tcp_views(out@) =~= Seq::<TcpConnView>::empty());
    }
    while i < lines.len()
        invariant
            1 <= i,
            views(lines@) == text_lines(input@),
            tcp_spec(input@) == tcp_acc(drop_prefix(views(lines@), i as int), tcp_views(out@)),
        decreases lines@.len() - i,
    {
        let ghost lv = drop_prefix(views(lines@), i as int);
        proof {
            assert(lv == views(lines@).skip(i as int));
            assert(lv[0] == lines@[i as int]@);
            assert(lv.drop_first() =~= views(lines@).skip(i as int + 1));
            assert(lv.drop_first() == drop_prefix(views(lines@), i as int + 1));
        }
        let toks = split_ws(lines[i].as_str());
        if toks.len() >= 5 {
            proof {
                assert(views(toks@)[0] == toks@[0]@);
                assert(views(toks@)[1] == toks@[1]@);
                assert(views(toks@)[2] == toks@[2]@);
                assert(views(toks@)[3] == toks@[3]@);
                assert(views(toks@)[4] == toks@[4]@);
            }
            let recv_q = match parse_u32(toks[1].as_str()) {
                Some(v) => v,
                None => {
                    return Err(ProbeError::msg("parse recv_q"));
                },
            };
            let send_q = match parse_u32(toks[2].as_str()) {
                Some(v) => v,
                None => {
                    return Err(ProbeError::msg("parse send_q"));
                },
            };
            let rec = TcpConnection {
                state: toks[0].clone(),
                recv_q,
                send_q,
                local_address: toks[3].clone(),
                peer_address: toks[4].clone(),
            };
            let ghost out0 = out@;
            let ghost recv = rec@;
            proof {
                assert(recv == tcp_entry(lv[0]));
                assert(ws_tokens(lv[0]).len() == toks@.len());
                assert(tcp_line_ok(lv[0]));
            }
            out.push(rec);
            proof {
                assert(out@ == out0.push(out@[out0.len() as int]));
                assert(tcp_views(out@) =~= tcp_views(out0).push(recv));
                assert(tcp_acc(lv, tcp_views(out0)) == tcp_acc(
                    lv.drop_first(),
                    tcp_views(out0).push(tcp_entry(lv[0])),
                ));
            }
        } else {
            proof {
                assert(ws_tokens(lv[0]).len() == toks@.len());
                assert(tcp_acc(lv, tcp_views(out@)) == tcp_acc(lv.drop_first(), tcp_views(out@)));
            }
        }
        i += 1;
    }
    proof {
        assert(drop_prefix(views(lines@), i as int) =~= Seq::<Seq<char>>::empty());
    }
    Ok(out)
}

// ---------------------------------------------------------------------------
// Interfaces from the address listing
// ---------------------------------------------------------------------------
/// One address of an interface, as the address listing reports it.
#[derive(Debug, Clone, PartialEq, Eq)]
pub struct IpAddrDetail {
    pub family: String,
    pub local: String,
    pub prefixlen: u32,
    pub broadcast: Option<String>,
    pub scope: String,
    pub label: Option<String>,
    pub valid_life_time: Option<u64>,
    pub preferred_life_time: Option<u64>,
    pub dynamic: Option<bool>,
    pub noprefixroute: Option<bool>,
    pub temporary: Option<bool>,
    pub mngtmpaddr: Option<bool>,
    pub deprecated: Option<bool>,
    pub stable_privacy: Option<bool>,
    pub protocol: Option<String>,
}

/// One interface of the address listing.
#[derive(Debug, Clone, PartialEq, Eq)]
pub struct IpAddrInfo {
    pub ifindex: u32,
    pub ifname: String,
    pub flags: Vec<String>,
    pub mtu: u32,
    pub qdisc: String,
    pub operstate: String,
    pub group: String,
    pub txqlen: u32,
    pub link_type: String,
    pub address: Option<String>,
    pub broadcast: Option<String>,
    pub altnames: Option<Vec<String>>,
    pub addr_info: Vec<IpAddrDetail>,
}

/// One row of the snapshot's interface list.
#[derive(Debug, Clone, PartialEq, Eq, Default)]
pub struct NetworkInterface {
    pub name: String,
    pub ip: String,
    pub state: String,
}

pub struct NetIfView {
    pub name: Seq<char>,
    pub ip: Seq<char>,
    pub state: Seq<char>,
}

impl View for NetworkInterface {
    type V = NetIfView;

    open spec fn view(&self) -> NetIfView {
        NetIfView { name: self.name@, ip: self.ip@, state: self.state@ }
    }
}

pub open spec fn netif_views(s: Seq<NetworkInterface>) -> Seq<NetIfView> {
    s.map_values(|x: NetworkInterface| x@)
}

/// The first IPv4 address among an interface's addresses, or the
/// placeholder when it has none.
pub open spec fn first_inet_ip(details: Seq<IpAddrDetail>) -> Seq<char>
    decreases details.len(),
{
    if details.len() == 0 {
        "No IPv4"@
    } else if details[0].family@ == "inet"@ {
        details[0].local@
    } else {
        first_inet_ip(details.drop_first())
    }
}

/// Whether an interface is listed: loopback and downed interfaces are not.
pub open spec fn iface_listed(iface: IpAddrInfo) -> bool {
    iface.operstate@ != "DOWN"@ && iface.ifname@ != "lo"@
}

pub open spec fn netif_spec(addrs: Seq<IpAddrInfo>) -> Seq<NetIfView>
    decreases addrs.len(),
{
    if addrs.len() == 0 {
        Seq::empty()
    } else {
        let rest = netif_spec(addrs.drop_first());
        if iface_listed(addrs[0]) {
            seq![
                NetIfView {
                    name: addrs[0].ifname@,
                    ip: first_inet_ip(addrs[0].addr_info@),
                    state: addrs[0].operstate@,
                },
            ] + rest
        } else {
            rest
        }
    }
}

fn find_inet_ip(details: &Vec<IpAddrDetail>) -> (r: String)
    ensures
        r@ == first_inet_ip(details@),
{
    let mut i: usize = 0;
    proof {
        assert(details@.skip(0) =~= details@);
    }
    while i < details.len()
        invariant
            0 <= i <= details@.len(),
            first_inet_ip(details@) == first_inet_ip(details@.skip(i as int)),
        decreases details@.len() - i,
    {
        proof {
            assert(details@.skip(i as int)[0] == details@[i as int]);
            assert(details@.skip(i as int).drop_first() =~= details@.skip(i as int + 1));
        }
        if str_eq(details[i].family.as_str(), "inet") {
            return details[i].local.clone();
        }
        i += 1;
    }
    String::from_str("No IPv4")
}

/// Select the interfaces to report from a parsed address listing: every
/// interface that is not loopback and not down, with its first IPv4 address
/// or a placeholder.
pub fn network_interfaces_from(addrs: &Vec<IpAddrInfo>) -> (r: Vec<NetworkInterface>)
    ensures
        netif_views(r@) == netif_spec(addrs@),
{
    let mut out: Vec<NetworkInterface> = Vec::new();
    let mut i: usize = 0;
    proof {
        assert(addrs@.skip(0) =~= addrs@);
        assert(netif_views(out@) + netif_spec(addrs@) =~= netif_spec(addrs@));
    }
    while i < addrs.len()
        invariant
            0 <= i <= addrs@.len(),
            netif_spec(addrs@) == netif_views(out@) + netif_spec(addrs@.skip(i as int)),
        decreases addrs@.len() - i,
    {
        proof {
            assert(addrs@.skip(i as int)[0] == addrs@[i as int]);
            assert(addrs@.skip(i as int).drop_first() =~= addrs@.skip(i as int + 1));
        }
        let down = str_eq(addrs[i].operstate.as_str(), "DOWN");
        let lo = str_eq(addrs[i].ifname.as_str(), "lo");
        if !down && !lo {
            let ip = find_inet_ip(&addrs[i].addr_info);
            let rec = NetworkInterface {
                name: addrs[i].ifname.clone(),
                ip,
                state: addrs[i].operstate.clone(),
            };
            out.push(rec);
            proof {
                assert(netif_views(out@) =~= netif_views(out@.drop_last()).push(out@.last()@));
                assert(netif_spec(addrs@) =~~= netif_views(out@) + netif_spec(
                    addrs@.skip(i as int + 1),
                ));
            }
        }
        i += 1;
    }
    proof {
        assert(netif_spec(addrs@.skip(addrs@.len() as int)) =~= Seq::<NetIfView>::empty());
        assert(netif_views(out@) + netif_spec(addrs@.skip(addrs@.len() as int)) =~= netif_views(
            out@,
        ));
    }
    out
}

} // verus!
