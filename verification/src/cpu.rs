//! The CPU probe: parsing the per-core tick table, and turning two such
//! samples taken close together into per-core usage percentages.
//!
//! The two samples are deliberately taken by the caller a fixed short delay
//! apart rather than across publish ticks, so the reading is instantaneous;
//! a core present in only one sample is skipped.

use vstd::prelude::*;
use vstd::string::*;

use crate::diskstats::tok_u64_ok;
use crate::num::{round_div, round_div_u128, sat_sub, sub_sat};
use crate::probe::ProbeError;
use crate::text::{
    dec_val, fixed1_chars, fmt_tenths, has_prefix, split_lines, split_ws, str_eq, str_has_prefix,
    str_trim_start_matches, text_lines, trim_start_matches, views, ws_tokens, parse_u64,
};

verus! {

/// One row of the tick table: a core's cumulative ticks in each state.
#[derive(Debug, Clone, PartialEq, Eq)]
pub struct CpuStat {
    pub name: String,
    pub user: u64,
    pub nice: u64,
    pub system: u64,
    pub idle: u64,
    pub iowait: u64,
    pub irq: u64,
    pub softirq: u64,
    pub steal: u64,
    pub guest: u64,
    pub guest_nice: u64,
}

pub struct CpuStatView {
    pub name: Seq<char>,
    pub user: u64,
    pub nice: u64,
    pub system: u64,
    pub idle: u64,
    pub iowait: u64,
    pub irq: u64,
    pub softirq: u64,
    pub steal: u64,
    pub guest: u64,
    pub guest_nice: u64,
}

impl View for CpuStat {
    type V = CpuStatView;

    open spec fn view(&self) -> CpuStatView {
        CpuStatView {
            name: self.name@,
            user: self.user,
            nice: self.nice,
            system: self.system,
            idle: self.idle,
            iowait: self.iowait,
            irq: self.irq,
            softirq: self.softirq,
            steal: self.steal,
            guest: self.guest,
            guest_nice: self.guest_nice,
        }
    }
}

pub open spec fn cpu_stat_views(s: Seq<CpuStat>) -> Seq<CpuStatView> {
    s.map_values(|x: CpuStat| x@)
}

/// One row of the snapshot's usage list: a display label and a percentage
/// rendered with one decimal.
#[derive(Debug, Clone, PartialEq, Eq, Default)]
pub struct CpuUsage {
    pub core: String,
    pub usage: String,
}

pub struct CpuUsageView {
    pub core: Seq<char>,
    pub usage: Seq<char>,
}

impl View for CpuUsage {
    type V = CpuUsageView;

    open spec fn view(&self) -> CpuUsageView {
        CpuUsageView { core: self.core@, usage: self.usage@ }
    }
}

pub open spec fn cpu_usage_views(s: Seq<CpuUsage>) -> Seq<CpuUsageView> {
    s.map_values(|x: CpuUsage| x@)
}

// ---------------------------------------------------------------------------
// Parsing the tick table
// ---------------------------------------------------------------------------
pub open spec fn cpu_line_fields_ok(line: Seq<char>) -> bool {
    let ts = ws_tokens(line);
    tok_u64_ok(ts[1]) && tok_u64_ok(ts[2]) && tok_u64_ok(ts[3]) && tok_u64_ok(ts[4]) && tok_u64_ok(
        ts[5],
    ) && tok_u64_ok(ts[6]) && tok_u64_ok(ts[7]) && tok_u64_ok(ts[8]) && tok_u64_ok(ts[9])
        && tok_u64_ok(ts[10])
}

pub open spec fn cpu_line_entry(line: Seq<char>) -> CpuStatView {
    let ts = ws_tokens(line);
    CpuStatView {
        name: ts[0],
        user: dec_val(ts[1]) as u64,
        nice: dec_val(ts[2]) as u64,
        system: dec_val(ts[3]) as u64,
        idle: dec_val(ts[4]) as u64,
        iowait: dec_val(ts[5]) as u64,
        irq: dec_val(ts[6]) as u64,
        softirq: dec_val(ts[7]) as u64,
        steal: dec_val(ts[8]) as u64,
        guest: dec_val(ts[9]) as u64,
        guest_nice: dec_val(ts[10]) as u64,
    }
}

pub open spec fn cpu_acc(ls: Seq<Seq<char>>, acc: Seq<CpuStatView>) -> Result<
    Seq<CpuStatView>,
    Seq<char>,
>
    decreases ls.len(),
{
    if ls.len() == 0 {
        Ok(acc)
    } else if !has_prefix(ls[0], "cpu"@) {
        cpu_acc(ls.drop_first(), acc)
    } else if ws_tokens(ls[0]).len() < 11 {
        cpu_acc(ls.drop_first(), acc)
    } else if !cpu_line_fields_ok(ls[0]) {
        Err("parse cpu stat value"@)
    } else {
        cpu_acc(ls.drop_first(), acc.push(cpu_line_entry(ls[0])))
    }
}

pub open spec fn cpu_stats_spec(input: Seq<char>) -> Result<Seq<CpuStatView>, Seq<char>> {
    cpu_acc(text_lines(input), Seq::empty())
}

/// Parse the tick table: only lines opening with the processor prefix
/// count, short ones are skipped, and a malformed tick fails the read.
pub fn parse_cpu_stats_from_str(input: &str) -> (r: Result<Vec<CpuStat>, ProbeError>)
    ensures
        match r {
            Ok(v) => cpu_stats_spec(input@) == Ok::<_, Seq<char>>(cpu_stat_views(v@)),
            Err(e) => cpu_stats_spec(input@) == Err::<Seq<CpuStatView>, _>(e.message@),
        },
{
    let lines = split_lines(input);
    let mut out: Vec<CpuStat> = Vec::new();
    let mut i: usize = 0;
    proof {
        assert(views(lines@).skip(0) =~= views(lines@));
        assert(cpu_stat_views(out@) =~= Seq::<CpuStatView>::empty());
    }
    while i < lines.len()
        invariant
            0 <= i <= lines@.len(),
            views(lines@) == text_lines(input@),
            cpu_stats_spec(input@) == cpu_acc(views(lines@).skip(i as int), cpu_stat_views(out@)),
        decreases lines@.len() - i,
    {
        let ghost lv = views(lines@).skip(i as int);
        proof {
            assert(lv[0] == lines@[i as int]@);
            assert(lv.drop_first() =~= views(lines@).skip(i as int + 1));
        }
        if str_has_prefix(lines[i].as_str(), "cpu") {
            let toks = split_ws(lines[i].as_str());
            proof {
                assert(ws_tokens(lv[0]).len() == toks@.len());
            }
            if toks.len() >= 11 {
                proof {
                    assert(views(toks@)[0] == toks@[0]@);
                    assert(views(toks@)[1] == toks@[1]@);
                    assert(views(toks@)[2] == toks@[2]@);
                    assert(views(toks@)[3] == toks@[3]@);
                    assert(views(toks@)[4] == toks@[4]@);
                    assert(views(toks@)[5] == toks@[5]@);
                    assert(views(toks@)[6] == toks@[6]@);
                    assert(views(toks@)[7] == toks@[7]@);
                    assert(views(toks@)[8] == toks@[8]@);
                    assert(views(toks@)[9] == toks@[9]@);
                    assert(views(toks@)[10] == toks@[10]@);
                }
                let user = match parse_u64(toks[1].as_str()) {
                    Some(v) => v,
                    None => {
                        return Err(ProbeError::msg("parse cpu stat value"));
                    },
                };
                let nice = match parse_u64(toks[2].as_str()) {
                    Some(v) => v,
                    None => {
                        return Err(ProbeError::msg("parse cpu stat value"));
                    },
                };
                let system = match parse_u64(toks[3].as_str()) {
                    Some(v) => v,
                    None => {
                        return Err(ProbeError::msg("parse cpu stat value"));
                    },
                };
                let idle = match parse_u64(toks[4].as_str()) {
                    Some(v) => v,
                    None => {
                        return Err(ProbeError::msg("parse cpu stat value"));
                    },
                };
                let iowait = match parse_u64(toks[5].as_str()) {
                    Some(v) => v,
                    None => {
                        return Err(ProbeError::msg("parse cpu stat value"));
                    },
                };
                let irq = match parse_u64(toks[6].as_str()) {
                    Some(v) => v,
                    None => {
                        return Err(ProbeError::msg("parse cpu stat value"));
                    },
                };
                let softirq = match parse_u64(toks[7].as_str()) {
                    Some(v) => v,
                    None => {
                        return Err(ProbeError::msg("parse cpu stat value"));
                    },
                };
                let steal = match parse_u64(toks[8].as_str()) {
                    Some(v) => v,
                    None => {
                        return Err(ProbeError::msg("parse cpu stat value"));
                    },
                };
                let guest = match parse_u64(toks[9].as_str()) {
                    Some(v) => v,
                    None => {
                        return Err(ProbeError::msg("parse cpu stat value"));
                    },
                };
                let guest_nice = match parse_u64(toks[10].as_str()) {
                    Some(v) => v,
                    None => {
                        return Err(ProbeError::msg("parse cpu stat value"));
                    },
                };
                let rec = CpuStat {
                    name: toks[0].clone(),
                    user,
                    nice,
                    system,
                    idle,
                    iowait,
                    irq,
                    softirq,
                    steal,
                    guest,
                    guest_nice,
                };
                let ghost out0 = out@;
                let ghost recv = rec@;
                proof {
                    assert(recv == cpu_line_entry(lv[0]));
                    assert(cpu_line_fields_ok(lv[0]));
                }
                out.push(rec);
                proof {
                    assert(out@ == out0.push(out@[out0.len() as int]));
                    assert(cpu_stat_views(out@) =~= cpu_stat_views(out0).push(recv));
                }
            }
        }
        i += 1;
    }
    proof {
        assert(views(lines@).skip(lines@.len() as int) =~= Seq::<Seq<char>>::empty());
    }
    Ok(out)
}

// ---------------------------------------------------------------------------
// Usage from two samples
// ---------------------------------------------------------------------------
/// The sum of a row's ticks.
pub open spec fn cpu_total(c: CpuStat) -> int {
    c.user as int + c.nice as int + c.system as int + c.idle as int + c.iowait as int
        + c.irq as int + c.softirq as int + c.steal as int + c.guest as int + c.guest_nice as int
}

/// The display label of a row: the aggregate first row is labeled
/// distinctly from individual core rows.
pub open spec fn core_label(name: Seq<char>) -> Seq<char> {
    if name == "cpu"@ {
        "Total"@
    } else {
        "Core "@ + trim_start_matches(name, "cpu"@)
    }
}

/// A core's usage between two samples, in tenths of a percent: active over
/// total tick difference, clamped to [0, 100] percent, zero when no tick
/// passed.
pub open spec fn usage_tenths(c1: CpuStat, c2: CpuStat) -> u64 {
    let td = if cpu_total(c2) >= cpu_total(c1) {
        cpu_total(c2) - cpu_total(c1)
    } else {
        0
    };
    let id = sat_sub(c2.idle, c1.idle) as int;
    let active = if td >= id {
        td - id
    } else {
        0
    };
    if td > 0 {
        let raw = round_div(active * 1000, td);
        if raw > 1000 {
            1000u64
        } else {
            raw as u64
        }
    } else {
        0
    }
}

pub open spec fn usage_view(c1: CpuStat, c2: CpuStat) -> CpuUsageView {
    CpuUsageView {
        core: core_label(c1.name@),
        usage: fixed1_chars(usage_tenths(c1, c2) as nat),
    }
}

/// The usage rows derived from two samples, pairing rows by position and
/// skipping a pair whose names differ (the core count changed between the
/// samples).
pub open spec fn cpu_usage_spec(s1: Seq<CpuStat>, s2: Seq<CpuStat>) -> Seq<CpuUsageView>
    decreases s1.len(),
{
    if s1.len() == 0 || s2.len() == 0 {
        Seq::empty()
    } else if s1[0].name@ != s2[0].name@ {
        cpu_usage_spec(s1.drop_first(), s2.drop_first())
    } else {
        seq![usage_view(s1[0], s2[0])] + cpu_usage_spec(s1.drop_first(), s2.drop_first())
    }
}

/// Turn a baseline and a current tick sample into per-core usage rows.
pub fn get_cpu_usage_from_samples(stats1: &Vec<CpuStat>, stats2: &Vec<CpuStat>) -> (r: Vec<
    CpuUsage,
>)
    ensures
        cpu_usage_views(r@) == cpu_usage_spec(stats1@, stats2@),
{
    let mut out: Vec<CpuUsage> = Vec::new();
    let mut i: usize = 0;
    proof {
        assert(stats1@.skip(0) =~= stats1@);
        assert(stats2@.skip(0) =~= stats2@);
        assert(cpu_usage_views(out@) =~= Seq::<CpuUsageView>::empty());
        assert(cpu_usage_views(out@) + cpu_usage_spec(stats1@, stats2@) =~= cpu_usage_spec(
            stats1@,
            stats2@,
        ));
    }
    while i < stats1.len() && i < stats2.len()
        invariant
            0 <= i <= stats1@.len(),
            0 <= i <= stats2@.len(),
            cpu_usage_spec(stats1@, stats2@) == cpu_usage_views(out@) + cpu_usage_spec(
                stats1@.skip(i as int),
                stats2@.skip(i as int),
            ),
        decreases stats1@.len() - i,
    {
        proof {
            assert(stats1@.skip(i as int)[0] == stats1@[i as int]);
            assert(stats2@.skip(i as int)[0] == stats2@[i as int]);
            assert(stats1@.skip(i as int).drop_first() =~= stats1@.skip(i as int + 1));
            assert(stats2@.skip(i as int).drop_first() =~= stats2@.skip(i as int + 1));
        }
        let c1 = &stats1[i];
        let c2 = &stats2[i];
        if str_eq(c1.name.as_str(), c2.name.as_str()) {
            let total1: u128 = c1.user as u128 + c1.nice as u128 + c1.system as u128
                + c1.idle as u128 + c1.iowait as u128 + c1.irq as u128 + c1.softirq as u128
                + c1.steal as u128 + c1.guest as u128 + c1.guest_nice as u128;
            let total2: u128 = c2.user as u128 + c2.nice as u128 + c2.system as u128
                + c2.idle as u128 + c2.iowait as u128 + c2.irq as u128 + c2.softirq as u128
                + c2.steal as u128 + c2.guest as u128 + c2.guest_nice as u128;
            let td: u128 = if total2 >= total1 {
                total2 - total1
            } else {
                0
            };
            let id: u128 = sub_sat(c2.idle, c1.idle) as u128;
            let active: u128 = if td >= id {
                td - id
            } else {
                0
            };
            let tenths: u64 = if td > 0 {
                let raw = round_div_u128(active * 1000, td);
                if raw > 1000 {
                    1000
                } else {
                    raw as u64
                }
            } else {
                0
            };
            let core: String = if str_eq(c1.name.as_str(), "cpu") {
                String::from_str("Total")
            } else {
                let mut s = String::from_str("Core ");
                let trimmed = str_trim_start_matches(c1.name.as_str(), "cpu");
                s.append(trimmed.as_str());
                s
            };
            let rec = CpuUsage { core, usage: fmt_tenths(tenths) };
            let ghost out0 = out@;
            let ghost recv = rec@;
            proof {
                assert(recv == usage_view(stats1@[i as int], stats2@[i as int]));
            }
            out.push(rec);
            proof {
                assert(out@ == out0.push(out@[out0.len() as int]));
                assert(cpu_usage_views(out@) =~= cpu_usage_views(out0).push(recv));
            }
        }
        i += 1;
    }
    proof {
        if i >= stats1@.len() {
            assert(stats1@.skip(i as int).len() == 0);
        } else {
            assert(stats2@.skip(i as int).len() == 0);
        }
    }
    out
}

} // verus!
