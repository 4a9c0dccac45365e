//! The disk-usage probe: the root filesystem's capacity figures, derived
//! from the block counts a filesystem-statistics call reports.

use vstd::prelude::*;
use vstd::string::*;

use crate::num::{round_div, round_div_sat64, round_div_u128, sat_u64};
use crate::text::{dec_chars, fixed1_chars, fmt_tenths, u64_to_string};

verus! {

/// The disk row of the snapshot. Sizes render gigabytes with one decimal;
/// `percentage` is the rounded whole percent of space in use.
#[derive(Debug, Clone, PartialEq, Eq)]
pub struct DiskInfo {
    pub filesystem: String,
    pub size: String,
    pub used: String,
    pub avail: String,
    pub use_perc: String,
    pub mount: String,
    pub total: String,
    pub percentage: u32,
}

pub struct DiskInfoView {
    pub filesystem: Seq<char>,
    pub size: Seq<char>,
    pub used: Seq<char>,
    pub avail: Seq<char>,
    pub use_perc: Seq<char>,
    pub mount: Seq<char>,
    pub total: Seq<char>,
    pub percentage: u32,
}

impl View for DiskInfo {
    type V = DiskInfoView;

    open spec fn view(&self) -> DiskInfoView {
        DiskInfoView {
            filesystem: self.filesystem@,
            size: self.size@,
            used: self.used@,
            avail: self.avail@,
            use_perc: self.use_perc@,
            mount: self.mount@,
            total: self.total@,
            percentage: self.percentage,
        }
    }
}

/// The row substituted when the disk probe fails: every column empty.
pub open spec fn disk_info_empty() -> DiskInfoView {
    DiskInfoView {
        filesystem: Seq::empty(),
        size: Seq::empty(),
        used: Seq::empty(),
        avail: Seq::empty(),
        use_perc: Seq::empty(),
        mount: Seq::empty(),
        total: Seq::empty(),
        percentage: 0,
    }
}

impl Default for DiskInfo {
    fn default() -> (r: DiskInfo)
        ensures
            r@ == disk_info_empty(),
    {
        DiskInfo {
            filesystem: String::new(),
            size: String::new(),
            used: String::new(),
            avail: String::new(),
            use_perc: String::new(),
            mount: String::new(),
            total: String::new(),
            percentage: 0,
        }
    }
}

/// Bytes rendered as gigabytes with one decimal and the unit letter.
pub open spec fn g_chars(bytes: int) -> Seq<char> {
    fixed1_chars(sat_u64(round_div(bytes * 10, (1024 * 1024 * 1024) as int)) as nat) + "G"@
}

/// The rounded whole percent of `used` out of `total` bytes, zero for an
/// empty filesystem, capped at the width of its field.
pub open spec fn used_percentage(used: int, total: int) -> u32 {
    if total > 0 {
        let raw = round_div(used * 100, total);
        if raw > u32::MAX {
            u32::MAX
        } else {
            raw as u32
        }
    } else {
        0
    }
}

/// The disk row computed from a filesystem-statistics report of the root
/// filesystem: total, free and available blocks of `frsize` bytes each.
/// Used space is total minus free, floored at zero.
pub open spec fn disk_info_spec(blocks: u64, frsize: u64, bavail: u64, bfree: u64) -> DiskInfoView {
    let total = blocks as int * frsize as int;
    let avail = bavail as int * frsize as int;
    let free = bfree as int * frsize as int;
    let used = if total >= free {
        total - free
    } else {
        0
    };
    DiskInfoView {
        filesystem: "rootfs"@,
        size: g_chars(total),
        used: g_chars(used),
        avail: g_chars(avail),
        use_perc: dec_chars(used_percentage(used, total) as nat) + "%"@,
        mount: "/"@,
        total: g_chars(total),
        percentage: used_percentage(used, total),
    }
}

fn g_string(bytes: u64) -> (s: String)
    ensures
        s@ == g_chars(bytes as int),
{
    let t = round_div_sat64(bytes as u128 * 10, 1024 * 1024 * 1024);
    let mut s = fmt_tenths(t);
    proof {
        reveal_strlit("G");
        assert(t == sat_u64(round_div(bytes as int * 10, (1024 * 1024 * 1024) as int)));
    }
    s.append("G");
    s
}

/// Build the disk row from the root filesystem's block counts. Each block
/// count times the block size must fit the byte counters, as it does for
/// any real filesystem; the caller checks this before converting.
pub fn disk_info_from_statvfs(blocks: u64, frsize: u64, bavail: u64, bfree: u64) -> (r: DiskInfo)
    requires
        blocks as int * frsize as int <= u64::MAX,
        bavail as int * frsize as int <= u64::MAX,
        bfree as int * frsize as int <= u64::MAX,
    ensures
        r@ == disk_info_spec(blocks, frsize, bavail, bfree),
{
    let total: u64 = blocks * frsize;
    let avail: u64 = bavail * frsize;
    let free: u64 = bfree * frsize;
    let used: u64 = if total >= free {
        total - free
    } else {
        0
    };
    let percentage: u32 = if total > 0 {
        let raw = round_div_u128(used as u128 * 100, total as u128);
        if raw > u32::MAX as u128 {
            u32::MAX
        } else {
            raw as u32
        }
    } else {
        0
    };
    let mut use_perc = u64_to_string(percentage as u64);
    proof {
        reveal_strlit("%");
        assert((percentage as u64) as nat == percentage as nat);
    }
    use_perc.append("%");
    let r = DiskInfo {
        filesystem: String::from_str("rootfs"),
        size: g_string(total),
        used: g_string(used),
        avail: g_string(avail),
        use_perc,
        mount: String::from_str("/"),
        total: g_string(total),
        percentage,
    };
    r
}

} // verus!
