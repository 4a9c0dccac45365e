//! The uptime probe: two second counts with centisecond fractions, and a
//! days/hours/minutes rendering of the first.

use vstd::prelude::*;
use vstd::string::*;

use crate::probe::ProbeError;
use crate::text::{
    dec_chars, fixed2_ok, fixed2_val, parse_fixed2, split_ws, u64_to_string, views, ws_tokens,
};

verus! {

/// The uptime row of the snapshot. Times are held in centiseconds:
/// `13595186` stands for 135951.86 seconds.
#[derive(Debug, Clone, PartialEq, Eq)]
pub struct UptimeInfo {
    pub total_uptime_centis: u64,
    pub idle_time_centis: u64,
    pub formatted_uptime: String,
}

pub struct UptimeView {
    pub total_uptime_centis: u64,
    pub idle_time_centis: u64,
    pub formatted_uptime: Seq<char>,
}

impl View for UptimeInfo {
    type V = UptimeView;

    open spec fn view(&self) -> UptimeView {
        UptimeView {
            total_uptime_centis: self.total_uptime_centis,
            idle_time_centis: self.idle_time_centis,
            formatted_uptime: self.formatted_uptime@,
        }
    }
}

/// The row substituted when the uptime probe fails.
pub open spec fn uptime_info_empty() -> UptimeView {
    UptimeView { total_uptime_centis: 0, idle_time_centis: 0, formatted_uptime: Seq::empty() }
}

impl Default for UptimeInfo {
    fn default() -> (r: UptimeInfo)
        ensures
            r@ == uptime_info_empty(),
    {
        UptimeInfo { total_uptime_centis: 0, idle_time_centis: 0, formatted_uptime: String::new() }
    }
}

/// Whole days, remaining hours and remaining minutes of an uptime held in
/// centiseconds.
pub open spec fn uptime_chars(centis: nat) -> Seq<char> {
    let secs = centis / 100;
    dec_chars(secs / 86400) + "d "@ + dec_chars(secs % 86400 / 3600) + "h "@ + dec_chars(
        secs % 3600 / 60,
    ) + "m"@
}

pub open spec fn uptime_spec(input: Seq<char>) -> Result<UptimeView, Seq<char>> {
    let ts = ws_tokens(input);
    if ts.len() < 2 {
        Err("malformed /proc/uptime output"@)
    } else if !fixed2_ok(ts[0]) {
        Err("parse total_uptime_seconds"@)
    } else if !fixed2_ok(ts[1]) {
        Err("parse idle_time_seconds"@)
    } else {
        Ok(
            UptimeView {
                total_uptime_centis: fixed2_val(ts[0]) as u64,
                idle_time_centis: fixed2_val(ts[1]) as u64,
                formatted_uptime: uptime_chars(fixed2_val(ts[0])),
            },
        )
    }
}

/// Parse the uptime line: total and idle seconds, each with up to two
/// decimals, and the rendered days/hours/minutes of the total.
pub fn get_uptime_info_from_str(input: &str) -> (r: Result<UptimeInfo, ProbeError>)
    ensures
        match r {
            Ok(info) => uptime_spec(input@) == Ok::<_, Seq<char>>(info@),
            Err(e) => uptime_spec(input@) == Err::<UptimeView, _>(e.message@),
        },
{
    let toks = split_ws(input);
    if toks.len() < 2 {
        return Err(ProbeError::msg("malformed /proc/uptime output"));
    }
    proof {
        assert(views(toks@)[0] == toks@[0]@);
        assert(views(toks@)[1] == toks@[1]@);
    }
    let total = match parse_fixed2(toks[0].as_str()) {
        Some(v) => v,
        None => {
            return Err(ProbeError::msg("parse total_uptime_seconds"));
        },
    };
    let idle = match parse_fixed2(toks[1].as_str()) {
        Some(v) => v,
        None => {
            return Err(ProbeError::msg("parse idle_time_seconds"));
        },
    };
    let secs = total / 100;
    let mut formatted = u64_to_string(secs / 86400);
    proof {
        reveal_strlit("d ");
        reveal_strlit("h ");
        reveal_strlit("m");
    }
    formatted.append("d ");
    let hours = u64_to_string(secs % 86400 / 3600);
    formatted.append(hours.as_str());
    formatted.append("h ");
    let mins = u64_to_string(secs % 3600 / 60);
    formatted.append(mins.as_str());
    formatted.append("m");
    let info = UptimeInfo {
        total_uptime_centis: total,
        idle_time_centis: idle,
        formatted_uptime: formatted,
    };
    proof {
        assert(info@.formatted_uptime == uptime_chars(total as nat));
    }
    Ok(info)
}

} // verus!
