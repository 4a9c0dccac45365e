//! The memory probe: turn the key/value memory table into totals in
//! gigabytes and a used-fraction percentage.
//!
//! Quantities arrive in kibibytes. Renderings divide by 1024 x 1024 to
//! gigabytes with two decimals; the percentage is held in tenths of a
//! percent, rounded half away from zero.

use vstd::prelude::*;
use vstd::string::*;

use crate::diskstats::tok_u64_ok;
use crate::num::{round_div, round_div_sat64, sat_sub, sat_u64, sub_sat};
use crate::probe::ProbeError;
use crate::text::{
    dec_val, fixed2_chars, fmt_hundredths, split_lines, split_ws,
    str_eq, text_lines, views, ws_tokens, parse_u64,
};

verus! {

/// The memory row of the snapshot. String fields render gigabytes with two
/// decimals; `percentage` holds tenths of a percent of memory in use.
#[derive(Debug, Clone, PartialEq, Eq)]
pub struct RamInfo {
    pub total: String,
    pub used: String,
    pub free: String,
    pub shared: String,
    pub buff_cache: String,
    pub available: String,
    /// Tenths of a percent: `60` stands for 6.0 percent.
    pub percentage: u64,
}

pub struct RamView {
    pub total: Seq<char>,
    pub used: Seq<char>,
    pub free: Seq<char>,
    pub shared: Seq<char>,
    pub buff_cache: Seq<char>,
    pub available: Seq<char>,
    pub percentage: u64,
}

impl View for RamInfo {
    type V = RamView;

    open spec fn view(&self) -> RamView {
        RamView {
            total: self.total@,
            used: self.used@,
            free: self.free@,
            shared: self.shared@,
            buff_cache: self.buff_cache@,
            available: self.available@,
            percentage: self.percentage,
        }
    }
}

/// The row substituted when the memory probe fails: every column empty.
pub open spec fn ram_info_empty() -> RamView {
    RamView {
        total: Seq::empty(),
        used: Seq::empty(),
        free: Seq::empty(),
        shared: Seq::empty(),
        buff_cache: Seq::empty(),
        available: Seq::empty(),
        percentage: 0,
    }
}

impl Default for RamInfo {
    fn default() -> (r: RamInfo)
        ensures
            r@ == ram_info_empty(),
    {
        RamInfo {
            total: String::new(),
            used: String::new(),
            free: String::new(),
            shared: String::new(),
            buff_cache: String::new(),
            available: String::new(),
            percentage: 0,
        }
    }
}

/// Kibibytes rendered as gigabytes with two decimals and the unit suffix.
pub open spec fn gb_chars(kib: int) -> Seq<char> {
    fixed2_chars(sat_u64(round_div(kib * 100, (1024 * 1024) as int)) as nat) + " GB"@
}

/// Render a kibibyte count as gigabytes.
fn gb_string(kib: u128) -> (s: String)
    requires
        kib <= u64::MAX as u128 * 2,
    ensures
        s@ == gb_chars(kib as int),
{
    let h = round_div_sat64(kib * 100, 1024 * 1024);
    let mut s = fmt_hundredths(h);
    proof {
        reveal_strlit(" GB");
    }
    s.append(" GB");
    s
}

/// The memory row derived from the five quantities the table supplies.
pub open spec fn ram_view(t: u64, a: u64, f: u64, sh: u64, buffers: u64, cached: u64) -> RamView {
    let used = sat_sub(t, a);
    RamView {
        total: gb_chars(t as int),
        used: gb_chars(used as int),
        free: gb_chars(f as int),
        shared: gb_chars(sh as int),
        buff_cache: gb_chars(buffers as int + cached as int),
        available: gb_chars(a as int),
        percentage: if t > 0 {
            sat_u64(round_div(used as int * 1000, t as int))
        } else {
            0
        },
    }
}

/// The verdict once every line has been read: each required key must have
/// appeared, in the order the reader checks them.
pub open spec fn ram_finish(
    total: Option<u64>,
    avail: Option<u64>,
    free: Option<u64>,
    shmem: Option<u64>,
    buffers: u64,
    cached: u64,
) -> Result<RamView, Seq<char>> {
    if total is None {
        Err("MemTotal not found in /proc/meminfo"@)
    } else if avail is None {
        Err("MemAvailable not found in /proc/meminfo"@)
    } else if free is None {
        Err("MemFree not found in /proc/meminfo"@)
    } else if shmem is None {
        Err("Shmem not found in /proc/meminfo"@)
    } else {
        Ok(ram_view(total.unwrap(), avail.unwrap(), free.unwrap(), shmem.unwrap(), buffers, cached))
    }
}

/// The message for a malformed value of a key the probe reads.
pub open spec fn ram_value_error(key: Seq<char>) -> Seq<char> {
    "failed to parse value for "@ + key
}

/// The fold over the table's lines. Only a malformed value under a key the
/// probe reads fails the read; every other line — too few fields, an
/// unrecognized key, whatever its value — is silently skipped, since
/// partial or unfamiliar tables are expected.
pub open spec fn ram_acc(
    ls: Seq<Seq<char>>,
    total: Option<u64>,
    avail: Option<u64>,
    free: Option<u64>,
    shmem: Option<u64>,
    buffers: u64,
    cached: u64,
) -> Result<RamView, Seq<char>>
    decreases ls.len(),
{
    if ls.len() == 0 {
        ram_finish(total, avail, free, shmem, buffers, cached)
    } else {
        let ts = ws_tokens(ls[0]);
        if ts.len() < 2 {
            ram_acc(ls.drop_first(), total, avail, free, shmem, buffers, cached)
        } else if ts[0] == "MemTotal:"@ {
            if !tok_u64_ok(ts[1]) {
                Err(ram_value_error(ts[0]))
            } else {
                ram_acc(ls.drop_first(), Some(dec_val(ts[1]) as u64), avail, free, shmem, buffers, cached)
            }
        } else if ts[0] == "MemAvailable:"@ {
            if !tok_u64_ok(ts[1]) {
                Err(ram_value_error(ts[0]))
            } else {
                ram_acc(ls.drop_first(), total, Some(dec_val(ts[1]) as u64), free, shmem, buffers, cached)
            }
        } else if ts[0] == "MemFree:"@ {
            if !tok_u64_ok(ts[1]) {
                Err(ram_value_error(ts[0]))
            } else {
                ram_acc(ls.drop_first(), total, avail, Some(dec_val(ts[1]) as u64), shmem, buffers, cached)
            }
        } else if ts[0] == "Shmem:"@ {
            if !tok_u64_ok(ts[1]) {
                Err(ram_value_error(ts[0]))
            } else {
                ram_acc(ls.drop_first(), total, avail, free, Some(dec_val(ts[1]) as u64), buffers, cached)
            }
        } else if ts[0] == "Buffers:"@ {
            if !tok_u64_ok(ts[1]) {
                Err(ram_value_error(ts[0]))
            } else {
                ram_acc(ls.drop_first(), total, avail, free, shmem, dec_val(ts[1]) as u64, cached)
            }
        } else if ts[0] == "Cached:"@ {
            if !tok_u64_ok(ts[1]) {
                Err(ram_value_error(ts[0]))
            } else {
                ram_acc(ls.drop_first(), total, avail, free, shmem, buffers, dec_val(ts[1]) as u64)
            }
        } else {
            ram_acc(ls.drop_first(), total, avail, free, shmem, buffers, cached)
        }
    }
}

pub open spec fn ram_spec(input: Seq<char>) -> Result<RamView, Seq<char>> {
    ram_acc(text_lines(input), None, None, None, None, 0, 0)
}

/// The value of a line whose key the probe reads: its second field as an
/// unsigned integer, or the message failing the whole read.
fn recognized_value(key: &String, value: &String) -> (r: Result<u64, ProbeError>)
    ensures
        match r {
            Ok(v) => tok_u64_ok(value@) && v == dec_val(value@),
            Err(e) => !tok_u64_ok(value@) && e.message@ == ram_value_error(key@),
        },
{
    match parse_u64(value.as_str()) {
        Some(v) => Ok(v),
        None => Err(ProbeError::with_detail("failed to parse value for ", key.as_str())),
    }
}

/// Parse the memory table into the snapshot's memory row.
pub fn get_ram_info_from_str(input: &str) -> (r: Result<RamInfo, ProbeError>)
    ensures
        match r {
            Ok(info) => ram_spec(input@) == Ok::<_, Seq<char>>(info@),
            Err(e) => ram_spec(input@) == Err::<RamView, _>(e.message@),
        },
{
    let lines = split_lines(input);
    let mut total: Option<u64> = None;
    let mut avail: Option<u64> = None;
    let mut free: Option<u64> = None;
    let mut shmem: Option<u64> = None;
    let mut buffers: u64 = 0;
    let mut cached: u64 = 0;
    let mut i: usize = 0;
    proof {
        assert(views(lines@).skip(0) =~= views(lines@));
    }
    while i < lines.len()
        invariant
            0 <= i <= lines@.len(),
            views(lines@) == text_lines(input@),
            ram_spec(input@) == ram_acc(
                views(lines@).skip(i as int),
                total,
                avail,
                free,
                shmem,
                buffers,
                cached,
            ),
        decreases lines@.len() - i,
    {
        let ghost lv = views(lines@).skip(i as int);
        proof {
            assert(lv[0] == lines@[i as int]@);
            assert(lv.drop_first() =~= views(lines@).skip(i as int + 1));
        }
        let toks = split_ws(lines[i].as_str());
        proof {
            assert(ws_tokens(lv[0]).len() == toks@.len());
        }
        if toks.len() >= 2 {
            proof {
                assert(views(toks@)[0] == toks@[0]@);
                assert(views(toks@)[1] == toks@[1]@);
            }
            if str_eq(toks[0].as_str(), "MemTotal:") {
                match recognized_value(&toks[0], &toks[1]) {
                    Ok(v) => {
                        total = Some(v);
                    },
                    Err(e) => {
                        return Err(e);
                    },
                }
            } else if str_eq(toks[0].as_str(), "MemAvailable:") {
                match recognized_value(&toks[0], &toks[1]) {
                    Ok(v) => {
                        avail = Some(v);
                    },
                    Err(e) => {
                        return Err(e);
                    },
                }
            } else if str_eq(toks[0].as_str(), "MemFree:") {
                match recognized_value(&toks[0], &toks[1]) {
                    Ok(v) => {
                        free = Some(v);
                    },
                    Err(e) => {
                        return Err(e);
                    },
                }
            } else if str_eq(toks[0].as_str(), "Shmem:") {
                match recognized_value(&toks[0], &toks[1]) {
                    Ok(v) => {
                        shmem = Some(v);
                    },
                    Err(e) => {
                        return Err(e);
                    },
                }
            } else if str_eq(toks[0].as_str(), "Buffers:") {
                match recognized_value(&toks[0], &toks[1]) {
                    Ok(v) => {
                        buffers = v;
                    },
                    Err(e) => {
                        return Err(e);
                    },
                }
            } else if str_eq(toks[0].as_str(), "Cached:") {
                match recognized_value(&toks[0], &toks[1]) {
                    Ok(v) => {
                        cached = v;
                    },
                    Err(e) => {
                        return Err(e);
                    },
                }
            }
        }
        i += 1;
    }
    proof {
        assert(views(lines@).skip(lines@.len() as int) =~= Seq::<Seq<char>>::empty());
    }
    let t = match total {
        Some(t) => t,
        None => {
            return Err(ProbeError::msg("MemTotal not found in /proc/meminfo"));
        },
    };
    let a = match avail {
        Some(a) => a,
        None => {
            return Err(ProbeError::msg("MemAvailable not found in /proc/meminfo"));
        },
    };
    let f = match free {
        Some(f) => f,
        None => {
            return Err(ProbeError::msg("MemFree not found in /proc/meminfo"));
        },
    };
    let sh = match shmem {
        Some(sh) => sh,
        None => {
            return Err(ProbeError::msg("Shmem not found in /proc/meminfo"));
        },
    };
    let used = sub_sat(t, a);
    let percentage: u64 = if t > 0 {
        round_div_sat64(used as u128 * 1000, t as u128)
    } else {
        0
    };
    let info = RamInfo {
        total: gb_string(t as u128),
        used: gb_string(used as u128),
        free: gb_string(f as u128),
        shared: gb_string(sh as u128),
        buff_cache: gb_string(buffers as u128 + cached as u128),
        available: gb_string(a as u128),
        percentage,
    };
    proof {
        assert(info@ == ram_view(t, a, f, sh, buffers, cached));
    }
    Ok(info)
}

} // verus!
