//! Mesh-VPN probes: the peer list derived from the status report, and the
//! traffic totals summed from the daemon's metrics text.

use vstd::prelude::*;
use vstd::string::*;

use crate::diskstats::tok_u64_ok;
use crate::num::{round_div, round_div_sat64, sat_u64};
use crate::text::{
    dec_val, has_prefix, split_lines, split_ws, str_has_prefix, text_lines, views, ws_tokens,
    parse_u64,
};

verus! {

/// A field that the status report serializes either as one string or as a
/// list of strings; the accessors always yield the list form.
#[derive(Debug, Clone, PartialEq, Eq)]
pub enum StringOrVec {
    Str(String),
    List(Vec<String>),
}

/// The list a value stands for: a lone string is a singleton list.
pub open spec fn string_or_vec_spec(v: StringOrVec) -> Seq<Seq<char>> {
    match v {
        StringOrVec::Str(s) => seq![s@],
        StringOrVec::List(l) => views(l@),
    }
}

impl StringOrVec {
    /// The normalized list form, consuming the value.
    pub fn into_vec(self) -> (r: Vec<String>)
        ensures
            views(r@) == string_or_vec_spec(self),
    {
        match self {
            StringOrVec::Str(s) => {
                let mut r: Vec<String> = Vec::new();
                r.push(s);
                proof {
                    assert(views(r@) =~= string_or_vec_spec(self));
                }
                r
            },
            StringOrVec::List(v) => v,
        }
    }

    /// The normalized list form, leaving the value in place.
    pub fn as_vec(&self) -> (r: Vec<String>)
        ensures
            views(r@) == string_or_vec_spec(*self),
    {
        match self {
            StringOrVec::Str(s) => {
                let mut r: Vec<String> = Vec::new();
                r.push(s.clone());
                proof {
                    assert(views(r@) =~= string_or_vec_spec(*self));
                }
                r
            },
            StringOrVec::List(v) => {
                let mut r: Vec<String> = Vec::new();
                let mut i: usize = 0;
                while i < v.len()
                    invariant
                        0 <= i <= v@.len(),
                        views(r@) == views(v@).take(i as int),
                    decreases v@.len() - i,
                {
                    let ghost r0 = r@;
                    r.push(v[i].clone());
                    proof {
                        assert(r@ == r0.push(r@[r0.len() as int]));
                        assert(r@[r0.len() as int]@ == v@[i as int]@);
                        assert(views(r@) =~= views(r0).push(v@[i as int]@));
                        assert(views(r@) =~= views(v@).take(i as int + 1));
                    }
                    i += 1;
                }
                proof {
                    assert(views(v@).take(v@.len() as int) =~= views(v@));
                    assert(views(r@) == string_or_vec_spec(*self));
                }
                r
            },
        }
    }
}

/// The mesh network the host belongs to.
#[derive(Debug, Clone, PartialEq, Eq)]
pub struct Tailnet {
    pub name: String,
    pub magic_dnssuffix: String,
    pub magic_dns_enabled: bool,
}

/// One account of the mesh network.
#[derive(Debug, Clone, PartialEq, Eq)]
pub struct TailscaleUser {
    pub id: u64,
    pub login_name: String,
    pub display_name: String,
    pub profile_pic_url: String,
}

/// One peer as the status report describes it.
#[derive(Debug, Clone, PartialEq, Eq)]
pub struct TailscalePeerJson {
    pub id: String,
    pub public_key: String,
    pub host_name: String,
    pub dns_name: String,
    pub peer_api_url: Option<StringOrVec>,
    pub user_id: u64,
    pub tailscale_ips: Vec<String>,
    pub allowed_ips: Vec<String>,
    pub addrs: Option<Vec<String>>,
    pub relay: String,
    pub rx_bytes: u64,
    pub tx_bytes: u64,
    pub created: String,
    pub last_write: String,
    pub last_seen: String,
    pub last_handshake: String,
    pub online: bool,
    pub exit_node: bool,
    pub exit_node_option: bool,
    pub active: bool,
    pub taildrop_target: Option<u64>,
    pub no_file_sharing_reason: String,
    pub in_network_map: bool,
    pub in_magic_sock: bool,
    pub in_engine: bool,
    pub key_expiry: Option<String>,
}

/// One row of the snapshot's peer list.
#[derive(Debug, Clone, PartialEq, Eq, Default)]
pub struct TailscalePeer {
    pub ip: String,
    pub name: String,
    pub os: String,
    pub status: String,
    pub online: bool,
}

pub struct PeerView {
    pub ip: Seq<char>,
    pub name: Seq<char>,
    pub os: Seq<char>,
    pub status: Seq<char>,
    pub online: bool,
}

impl View for TailscalePeer {
    type V = PeerView;

    open spec fn view(&self) -> PeerView {
        PeerView {
            ip: self.ip@,
            name: self.name@,
            os: self.os@,
            status: self.status@,
            online: self.online,
        }
    }
}

pub open spec fn peer_views(s: Seq<TailscalePeer>) -> Seq<PeerView> {
    s.map_values(|x: TailscalePeer| x@)
}

/// The row built for one reported peer: its first address or an empty
/// string, its host name, and its online state; the report carries no
/// operating system, so that column stays empty.
pub open spec fn peer_row(p: TailscalePeerJson) -> PeerView {
    PeerView {
        ip: if p.tailscale_ips@.len() > 0 {
            p.tailscale_ips@[0]@
        } else {
            Seq::empty()
        },
        name: p.host_name@,
        os: Seq::empty(),
        status: if p.online {
            "Online"@
        } else {
            "Offline"@
        },
        online: p.online,
    }
}

pub open spec fn peers_spec(ps: Seq<TailscalePeerJson>) -> Seq<PeerView>
    decreases ps.len(),
{
    if ps.len() == 0 {
        Seq::empty()
    } else {
        seq![peer_row(ps[0])] + peers_spec(ps.drop_first())
    }
}

/// Build the snapshot's peer rows from the parsed status report, in the
/// order the caller supplies the peers.
pub fn get_tailscale_peers_from(peers: &Vec<TailscalePeerJson>) -> (r: Vec<TailscalePeer>)
    ensures
        peer_views(r@) == peers_spec(peers@),
{
    let mut out: Vec<TailscalePeer> = Vec::new();
    let mut i: usize = 0;
    proof {
        assert(peers@.skip(0) =~= peers@);
        assert(peer_views(out@) + peers_spec(peers@) =~= peers_spec(peers@));
    }
    while i < peers.len()
        invariant
            0 <= i <= peers@.len(),
            peers_spec(peers@) == peer_views(out@) + peers_spec(peers@.skip(i as int)),
        decreases peers@.len() - i,
    {
        proof {
            assert(peers@.skip(i as int)[0] == peers@[i as int]);
            assert(peers@.skip(i as int).drop_first() =~= peers@.skip(i as int + 1));
        }
        let p = &peers[i];
        let ip: String = if p.tailscale_ips.len() > 0 {
            p.tailscale_ips[0].clone()
        } else {
            String::new()
        };
        let status: String = if p.online {
            String::from_str("Online")
        } else {
            String::from_str("Offline")
        };
        let rec = TailscalePeer {
            ip,
            name: p.host_name.clone(),
            os: String::new(),
            status,
            online: p.online,
        };
        let ghost out0 = out@;
        let ghost recv = rec@;
        proof {
            assert(recv == peer_row(peers@[i as int]));
        }
        out.push(rec);
        proof {
            assert(out@ == out0.push(out@[out0.len() as int]));
            assert(peer_views(out@) =~= peer_views(out0).push(recv));
            assert(peers_spec(peers@) =~~= peer_views(out@) + peers_spec(peers@.skip(i as int + 1)));
        }
        i += 1;
    }
    proof {
        assert(peers_spec(peers@.skip(peers@.len() as int)) =~= Seq::<PeerView>::empty());
        assert(peer_views(out@) + peers_spec(peers@.skip(peers@.len() as int)) =~= peer_views(
            out@,
        ));
    }
    out
}

// ---------------------------------------------------------------------------
// Traffic totals
// ---------------------------------------------------------------------------
/// The mesh traffic totals, in hundredths of a megabyte: `150` stands for
/// 1.50 MB, at 1024 x 1024 bytes per megabyte.
#[derive(Debug, Clone, Copy, PartialEq, Eq, Structural)]
pub struct TailscaleMetrics {
    pub total_tx: u64,
    pub total_rx: u64,
}

impl Default for TailscaleMetrics {
    fn default() -> (r: TailscaleMetrics)
        ensures
            r == (TailscaleMetrics { total_tx: 0, total_rx: 0 }),
    {
        TailscaleMetrics { total_tx: 0, total_rx: 0 }
    }
}

/// Whether a metrics line contributes: its last field must be an unsigned
/// byte count.
pub open spec fn metric_value_ok(line: Seq<char>) -> bool {
    let ts = ws_tokens(line);
    ts.len() > 0 && tok_u64_ok(ts[ts.len() - 1])
}

pub open spec fn metric_value(line: Seq<char>) -> int {
    let ts = ws_tokens(line);
    dec_val(ts[ts.len() - 1]) as int
}

/// Sum the outbound and inbound byte counters over the metrics lines.
pub open spec fn metrics_acc(ls: Seq<Seq<char>>, tx: int, rx: int) -> (int, int)
    decreases ls.len(),
{
    if ls.len() == 0 {
        (tx, rx)
    } else if metric_value_ok(ls[0]) && has_prefix(ls[0], "tailscaled_outbound_bytes_total"@) {
        metrics_acc(ls.drop_first(), tx + metric_value(ls[0]), rx)
    } else if metric_value_ok(ls[0]) && has_prefix(ls[0], "tailscaled_inbound_bytes_total"@) {
        metrics_acc(ls.drop_first(), tx, rx + metric_value(ls[0]))
    } else {
        metrics_acc(ls.drop_first(), tx, rx)
    }
}

/// Bytes rendered into hundredths of a megabyte.
pub open spec fn mb_x100(bytes: int) -> u64 {
    sat_u64(round_div(bytes * 100, (1024 * 1024) as int))
}

pub open spec fn metrics_spec(input: Seq<char>) -> TailscaleMetrics {
    let (tx, rx) = metrics_acc(text_lines(input), 0, 0);
    TailscaleMetrics { total_tx: mb_x100(tx), total_rx: mb_x100(rx) }
}

/// Sum the daemon's outbound and inbound byte totals from its metrics text
/// and convert them to hundredths of a megabyte. Lines whose last field is
/// not an unsigned integer are ignored.
pub fn tailscale_metrics_from_str(input: &str) -> (r: TailscaleMetrics)
    ensures
        r == metrics_spec(input@),
{
    let lines = split_lines(input);
    let mut tx: u128 = 0;
    let mut rx: u128 = 0;
    let mut i: usize = 0;
    proof {
        assert(views(lines@).skip(0) =~= views(lines@));
    }
    while i < lines.len()
        invariant
            0 <= i <= lines@.len(),
            views(lines@) == text_lines(input@),
            tx as int <= i as int * (u64::MAX as int),
            rx as int <= i as int * (u64::MAX as int),
            metrics_acc(views(lines@), 0, 0) == metrics_acc(
                views(lines@).skip(i as int),
                tx as int,
                rx as int,
            ),
        decreases lines@.len() - i,
    {
        let ghost lv = views(lines@).skip(i as int);
        proof {
            assert(lv[0] == lines@[i as int]@);
            assert(lv.drop_first() =~= views(lines@).skip(i as int + 1));
            assert(i as int * (u64::MAX as int) <= lines@.len() as int * (u64::MAX as int))
                by (nonlinear_arith)
                requires
                    0 <= i as int <= lines@.len() as int,
            ;
            assert(lines@.len() <= usize::MAX);
        }
        let toks = split_ws(lines[i].as_str());
        proof {
            assert(ws_tokens(lv[0]).len() == toks@.len());
        }
        if toks.len() > 0 {
            proof {
                assert(views(toks@)[toks@.len() - 1] == toks@[toks@.len() - 1]@);
            }
            match parse_u64(toks[toks.len() - 1].as_str()) {
                Some(v) => {
                    if str_has_prefix(lines[i].as_str(), "tailscaled_outbound_bytes_total") {
                        tx = tx + v as u128;
                    } else if str_has_prefix(lines[i].as_str(), "tailscaled_inbound_bytes_total") {
                        rx = rx + v as u128;
                    }
                },
                None => {},
            }
        }
        i += 1;
    }
    proof {
        assert(views(lines@).skip(lines@.len() as int) =~= Seq::<Seq<char>>::empty());
    }
    let total_tx = mb_x100_exec(tx);
    let total_rx = mb_x100_exec(rx);
    TailscaleMetrics { total_tx, total_rx }
}

/// Convert a byte total to hundredths of a megabyte; a total too large for
/// the field saturates it.
fn mb_x100_exec(bytes: u128) -> (r: u64)
    ensures
        r == mb_x100(bytes as int),
{
    // past this many bytes the hundredths no longer fit a u64
    if bytes >= 19342813113834066795298816u128 {
        proof {
            let n = bytes as int * 100;
            let d = (1024 * 1024) as int;
            vstd::arithmetic::div_mod::lemma_fundamental_div_mod(n, d);
            vstd::arithmetic::div_mod::lemma_mod_division_less_than_divisor(n, d);
            assert(n == d * (n / d) + n % d);
            assert(n / d > u64::MAX);
            assert(round_div(n, d) >= n / d);
        }
        u64::MAX
    } else {
        round_div_sat64(bytes * 100, 1024 * 1024)
    }
}

} // verus!
