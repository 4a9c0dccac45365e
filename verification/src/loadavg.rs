//! The load-average probe: the three load figures in hundredths, and the
//! runnable and total process counts.

use vstd::prelude::*;
use vstd::string::*;

use crate::probe::ProbeError;
use crate::text::{
    char_idx, dec_val, fixed2_ok, fixed2_val, is_digits, parse_fixed2, parse_u32, scan_char,
    split_ws, views, ws_tokens,
};

verus! {

/// The load-average row. The three load figures are held in hundredths:
/// `13` stands for a load of 0.13.
#[derive(Debug, Clone, Copy, PartialEq, Eq, Structural)]
pub struct LoadAvg {
    pub one_min: u32,
    pub five_min: u32,
    pub fifteen_min: u32,
    pub runnable_entities: u32,
    pub total_processes: u32,
}

impl Default for LoadAvg {
    fn default() -> (r: LoadAvg)
        ensures
            r == (LoadAvg {
                one_min: 0,
                five_min: 0,
                fifteen_min: 0,
                runnable_entities: 0,
                total_processes: 0,
            }),
    {
        LoadAvg {
            one_min: 0,
            five_min: 0,
            fifteen_min: 0,
            runnable_entities: 0,
            total_processes: 0,
        }
    }
}

/// A token that is a decimal with up to two fraction digits and fits the
/// hundredths into a `u32`.
pub open spec fn load_tok_ok(t: Seq<char>) -> bool {
    fixed2_ok(t) && fixed2_val(t) <= u32::MAX
}

pub open spec fn load_counts_ok(t: Seq<char>) -> bool {
    is_digits(t) && dec_val(t) <= u32::MAX
}

pub open spec fn loadavg_spec(input: Seq<char>) -> Result<LoadAvg, Seq<char>> {
    let ts = ws_tokens(input);
    if ts.len() < 5 {
        Err("malformed /proc/loadavg output"@)
    } else if !load_tok_ok(ts[0]) {
        Err("parse one_min loadavg"@)
    } else if !load_tok_ok(ts[1]) {
        Err("parse five_min loadavg"@)
    } else if !load_tok_ok(ts[2]) {
        Err("parse fifteen_min loadavg"@)
    } else {
        let d = char_idx(ts[3], '/') as int;
        if d == ts[3].len() {
            Err("parse runnable/total"@)
        } else if !load_counts_ok(ts[3].take(d)) {
            Err("parse runnable entities"@)
        } else if !load_counts_ok(ts[3].skip(d + 1)) {
            Err("parse total processes"@)
        } else {
            Ok(
                LoadAvg {
                    one_min: fixed2_val(ts[0]) as u32,
                    five_min: fixed2_val(ts[1]) as u32,
                    fifteen_min: fixed2_val(ts[2]) as u32,
                    runnable_entities: dec_val(ts[3].take(d)) as u32,
                    total_processes: dec_val(ts[3].skip(d + 1)) as u32,
                },
            )
        }
    }
}

/// Parse a load-average line such as `"0.13 0.50 0.36 1/217 688199"`:
/// the three load figures in hundredths, then the runnable and total
/// process counts from the slash-separated fourth field.
pub fn get_load_avg_from_str(input: &str) -> (r: Result<LoadAvg, ProbeError>)
    ensures
        match r {
            Ok(l) => loadavg_spec(input@) == Ok::<_, Seq<char>>(l),
            Err(e) => loadavg_spec(input@) == Err::<LoadAvg, _>(e.message@),
        },
{
    let toks = split_ws(input);
    if toks.len() < 5 {
        return Err(ProbeError::msg("malformed /proc/loadavg output"));
    }
    proof {
        assert(views(toks@)[0] == toks@[0]@);
        assert(views(toks@)[1] == toks@[1]@);
        assert(views(toks@)[2] == toks@[2]@);
        assert(views(toks@)[3] == toks@[3]@);
    }
    let one_min = match parse_load_value(toks[0].as_str()) {
        Some(v) => v,
        None => {
            return Err(ProbeError::msg("parse one_min loadavg"));
        },
    };
    let five_min = match parse_load_value(toks[1].as_str()) {
        Some(v) => v,
        None => {
            return Err(ProbeError::msg("parse five_min loadavg"));
        },
    };
    let fifteen_min = match parse_load_value(toks[2].as_str()) {
        Some(v) => v,
        None => {
            return Err(ProbeError::msg("parse fifteen_min loadavg"));
        },
    };
    let pair = &toks[3];
    let n = pair.as_str().unicode_len();
    let d = scan_char(pair.as_str(), '/');
    if d == n {
        return Err(ProbeError::msg("parse runnable/total"));
    }
    let left = pair.as_str().substring_char(0, d);
    let right = pair.as_str().substring_char(d + 1, n);
    proof {
        assert(left@ =~= pair@.take(d as int));
        assert(right@ =~= pair@.skip(d as int + 1));
    }
    let runnable_entities = match parse_u32(left) {
        Some(v) => v,
        None => {
            return Err(ProbeError::msg("parse runnable entities"));
        },
    };
    let total_processes = match parse_u32(right) {
        Some(v) => v,
        None => {
            return Err(ProbeError::msg("parse total processes"));
        },
    };
    Ok(LoadAvg { one_min, five_min, fifteen_min, runnable_entities, total_processes })
}

/// Parse one load figure into hundredths bounded by `u32`.
fn parse_load_value(s: &str) -> (r: Option<u32>)
    ensures
        match r {
            Some(v) => load_tok_ok(s@) && v == fixed2_val(s@),
            None => !load_tok_ok(s@),
        },
{
    match parse_fixed2(s) {
        Some(v) => {
            if v <= u32::MAX as u64 {
                Some(v as u32)
            } else {
                None
            }
        },
        None => None,
    }
}

} // verus!
