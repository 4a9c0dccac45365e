//! Counter-based rates: the per-device throughput and utilization derived
//! from two counter snapshots, and the debounced rate window that keeps the
//! previous snapshot between calls.
//!
//! All rate fields are fixed-point integers in hundredths: `read_iops ==
//! 1000` stands for 10.00 operations per second, `utilization == 100` for
//! 1.00 percent. Differences use saturating subtraction so a counter reset
//! never underflows, and utilization is clamped to [0, 100] percent.

use vstd::prelude::*;
use vstd::string::*;

use crate::diskstats::{sorted_device_keys, table_find, DiskStats, DiskStatsTable};
use crate::order::lex_lt;
use crate::num::{round_div, round_div_sat64, round_div_u128, sat_sub, sat_u64, sub_sat};

verus! {

/// A computed rate never covers less elapsed time than this, so that two
/// near-simultaneous polls cannot produce noisy near-zero-duration rates.
pub const MIN_SAMPLE_INTERVAL_MS: u64 = 2000;

/// One published rate record, derived from two snapshots of one device and
/// never kept beyond one publish cycle.
#[derive(Debug, Clone, PartialEq, Eq)]
pub struct DiskIoInfo {
    pub device: String,
    /// Hundredths of read operations per second.
    pub read_iops: u64,
    /// Hundredths of write operations per second.
    pub write_iops: u64,
    /// Hundredths of megabytes read per second.
    pub read_mb_s: u64,
    /// Hundredths of megabytes written per second.
    pub write_mb_s: u64,
    /// Hundredths of a percent of elapsed time spent doing transfers.
    pub utilization: u64,
    pub total_reads_completed: u64,
    pub total_sectors_read: u64,
    pub total_writes_completed: u64,
    pub total_sectors_written: u64,
    pub total_time_spent_io: u64,
}

/// The mathematical content of a rate record.
pub struct RateView {
    pub device: Seq<char>,
    pub read_iops: u64,
    pub write_iops: u64,
    pub read_mb_s: u64,
    pub write_mb_s: u64,
    pub utilization: u64,
    pub total_reads_completed: u64,
    pub total_sectors_read: u64,
    pub total_writes_completed: u64,
    pub total_sectors_written: u64,
    pub total_time_spent_io: u64,
}

impl View for DiskIoInfo {
    type V = RateView;

    open spec fn view(&self) -> RateView {
        RateView {
            device: self.device@,
            read_iops: self.read_iops,
            write_iops: self.write_iops,
            read_mb_s: self.read_mb_s,
            write_mb_s: self.write_mb_s,
            utilization: self.utilization,
            total_reads_completed: self.total_reads_completed,
            total_sectors_read: self.total_sectors_read,
            total_writes_completed: self.total_writes_completed,
            total_sectors_written: self.total_sectors_written,
            total_time_spent_io: self.total_time_spent_io,
        }
    }
}

pub open spec fn rate_views(s: Seq<DiskIoInfo>) -> Seq<RateView> {
    s.map_values(|x: DiskIoInfo| x@)
}

/// Operations per second in hundredths: `diff` operations over `elapsed_ms`
/// milliseconds, rounded half away from zero.
pub open spec fn ops_rate_x100(diff: u64, elapsed_ms: u64) -> u64
    recommends
        elapsed_ms > 0,
{
    sat_u64(round_div(diff as int * 100_000, elapsed_ms as int))
}

/// Megabytes per second in hundredths, at 512 bytes per sector and
/// 1024 x 1024 bytes per megabyte.
pub open spec fn mb_rate_x100(sectors: u64, elapsed_ms: u64) -> u64
    recommends
        elapsed_ms > 0,
{
    sat_u64(round_div(sectors as int * 51_200_000, elapsed_ms as int * 1_048_576))
}

/// Busy-time fraction in hundredths of a percent, clamped to [0, 100]
/// percent.
pub open spec fn util_x100(busy_ms: u64, elapsed_ms: u64) -> u64
    recommends
        elapsed_ms > 0,
{
    let raw = round_div(busy_ms as int * 10_000, elapsed_ms as int);
    if raw > 10_000 {
        10_000u64
    } else {
        raw as u64
    }
}

/// The rate record for one device, from its previous and current counters.
pub open spec fn rate_view(device: Seq<char>, prev: DiskStats, cur: DiskStats, ms: u64) -> RateView {
    RateView {
        device,
        read_iops: ops_rate_x100(sat_sub(cur.reads_completed, prev.reads_completed), ms),
        write_iops: ops_rate_x100(sat_sub(cur.writes_completed, prev.writes_completed), ms),
        read_mb_s: mb_rate_x100(sat_sub(cur.sectors_read, prev.sectors_read), ms),
        write_mb_s: mb_rate_x100(sat_sub(cur.sectors_written, prev.sectors_written), ms),
        utilization: util_x100(sat_sub(cur.time_spent_io, prev.time_spent_io), ms),
        total_reads_completed: cur.reads_completed,
        total_sectors_read: cur.sectors_read,
        total_writes_completed: cur.writes_completed,
        total_sectors_written: cur.sectors_written,
        total_time_spent_io: cur.time_spent_io,
    }
}

/// The rate records of every device present in both snapshots, in the order
/// of the current snapshot. A device only in the current snapshot is skipped
/// for this cycle; one only in the baseline is dropped silently.
pub open spec fn disk_rates(
    initial: Seq<(Seq<char>, DiskStats)>,
    cur: Seq<(Seq<char>, DiskStats)>,
    ms: u64,
) -> Seq<RateView>
    decreases cur.len(),
{
    if cur.len() == 0 {
        Seq::empty()
    } else {
        let rest = disk_rates(initial, cur.drop_first(), ms);
        match table_find(initial, cur[0].0) {
            Some(prev) => seq![rate_view(cur[0].0, prev, cur[0].1, ms)] + rest,
            None => rest,
        }
    }
}

/// Derive the per-device rates between two counter snapshots taken
/// `elapsed_ms` apart. A zero elapsed duration yields the empty result
/// rather than an error or a division by zero.
pub fn get_disk_io_info_from_str(
    initial: &DiskStatsTable,
    current: &DiskStatsTable,
    elapsed_ms: u64,
) -> (r: Vec<DiskIoInfo>)
    ensures
        elapsed_ms == 0 ==> r@.len() == 0,
        elapsed_ms > 0 ==> rate_views(r@) == disk_rates(initial@, current@, elapsed_ms),
        forall|i: int| 0 <= i < r@.len() ==> (#[trigger] r@[i])@.utilization <= 10_000,
{
    let mut out: Vec<DiskIoInfo> = Vec::new();
    if elapsed_ms == 0 {
        return out;
    }
    let mut i: usize = 0;
    proof {
        assert(current@.skip(0) =~= current@);
        assert(rate_views(out@) + disk_rates(initial@, current@, elapsed_ms) =~= disk_rates(
            initial@,
            current@,
            elapsed_ms,
        ));
    }
    while i < current.entries.len()
        invariant
            elapsed_ms > 0,
            0 <= i <= current.entries@.len(),
            current@.len() == current.entries@.len(),
            disk_rates(initial@, current@, elapsed_ms) == rate_views(out@) + disk_rates(
                initial@,
                current@.skip(i as int),
                elapsed_ms,
            ),
            forall|k: int| 0 <= k < out@.len() ==> (#[trigger] out@[k])@.utilization <= 10_000,
        decreases current.entries@.len() - i,
    {
        let ghost rem = current@.skip(i as int);
        proof {
            assert(rem[0] == current@[i as int]);
            assert(rem.drop_first() =~= current@.skip(i as int + 1));
        }
        let device: &String = &current.entries[i].0;
        let cur: DiskStats = current.entries[i].1;
        match initial.get(device.as_str()) {
            Some(prev) => {
                let reads_diff = sub_sat(cur.reads_completed, prev.reads_completed);
                let writes_diff = sub_sat(cur.writes_completed, prev.writes_completed);
                let sectors_read_diff = sub_sat(cur.sectors_read, prev.sectors_read);
                let sectors_written_diff = sub_sat(cur.sectors_written, prev.sectors_written);
                let busy_diff = sub_sat(cur.time_spent_io, prev.time_spent_io);
                let read_iops = round_div_sat64(reads_diff as u128 * 100_000, elapsed_ms as u128);
                let write_iops = round_div_sat64(writes_diff as u128 * 100_000, elapsed_ms as u128);
                let read_mb_s = round_div_sat64(
                    sectors_read_diff as u128 * 51_200_000,
                    elapsed_ms as u128 * 1_048_576,
                );
                let write_mb_s = round_div_sat64(
                    sectors_written_diff as u128 * 51_200_000,
                    elapsed_ms as u128 * 1_048_576,
                );
                let util_raw = round_div_u128(busy_diff as u128 * 10_000, elapsed_ms as u128);
                let utilization: u64 = if util_raw > 10_000 {
                    10_000
                } else {
                    util_raw as u64
                };
                let rec = DiskIoInfo {
                    device: device.clone(),
                    read_iops,
                    write_iops,
                    read_mb_s,
                    write_mb_s,
                    utilization,
                    total_reads_completed: cur.reads_completed,
                    total_sectors_read: cur.sectors_read,
                    total_writes_completed: cur.writes_completed,
                    total_sectors_written: cur.sectors_written,
                    total_time_spent_io: cur.time_spent_io,
                };
                proof {
                    assert(rec@ == rate_view(rem[0].0, prev, cur, elapsed_ms));
                }
                out.push(rec);
                proof {
                    assert(rate_views(out@) =~= rate_views(out@.drop_last()) + seq![
                        out@.last()@,
                    ]);
                    assert(disk_rates(initial@, current@, elapsed_ms) =~~= rate_views(out@)
                        + disk_rates(initial@, current@.skip(i as int + 1), elapsed_ms));
                }
            },
            None => {},
        }
        i += 1;
    }
    proof {
        assert(current@.skip(current@.len() as int) =~= Seq::<(Seq<char>, DiskStats)>::empty());
        assert(rate_views(out@) + disk_rates(
            initial@,
            current@.skip(current@.len() as int),
            elapsed_ms,
        ) =~= rate_views(out@));
    }
    out
}

// ---------------------------------------------------------------------------
// Rate laws
// ---------------------------------------------------------------------------
/// For any two counter snapshots and any elapsed duration, every computed
/// rate field is non-negative and utilization never exceeds 100 percent
/// (10 000 hundredths), counter resets included.
pub proof fn lemma_rates_in_range(
    initial: Seq<(Seq<char>, DiskStats)>,
    cur: Seq<(Seq<char>, DiskStats)>,
    ms: u64,
    i: int,
)
    requires
        ms > 0,
        0 <= i < disk_rates(initial, cur, ms).len(),
    ensures
        disk_rates(initial, cur, ms)[i].read_iops >= 0,
        disk_rates(initial, cur, ms)[i].write_iops >= 0,
        disk_rates(initial, cur, ms)[i].read_mb_s >= 0,
        disk_rates(initial, cur, ms)[i].write_mb_s >= 0,
        disk_rates(initial, cur, ms)[i].utilization <= 10_000,
    decreases cur.len(),
{
    if cur.len() > 0 {
        match table_find(initial, cur[0].0) {
            Some(prev) => {
                if i > 0 {
                    lemma_rates_in_range(initial, cur.drop_first(), ms, i - 1);
                } else {
                    assert(disk_rates(initial, cur, ms)[0] == rate_view(
                        cur[0].0,
                        prev,
                        cur[0].1,
                        ms,
                    ));
                }
            },
            None => {
                lemma_rates_in_range(initial, cur.drop_first(), ms, i);
            },
        }
    }
}

/// Every device in the rate list is strictly above `lo` whenever every
/// device of the current snapshot is.
proof fn lemma_rates_devices_bounded(
    initial: Seq<(Seq<char>, DiskStats)>,
    cur: Seq<(Seq<char>, DiskStats)>,
    ms: u64,
    lo: Seq<char>,
    m: int,
)
    requires
        forall|t: int| 0 <= t < cur.len() ==> lex_lt(lo, #[trigger] cur[t].0),
        0 <= m < disk_rates(initial, cur, ms).len(),
    ensures
        lex_lt(lo, disk_rates(initial, cur, ms)[m].device),
    decreases cur.len(),
{
    if cur.len() > 0 {
        let tail = cur.drop_first();
        assert(forall|t: int| 0 <= t < tail.len() ==> lex_lt(lo, #[trigger] tail[t].0)) by {
            assert(forall|t: int| 0 <= t < tail.len() ==> #[trigger] tail[t] == cur[t + 1]);
        }
        match table_find(initial, cur[0].0) {
            Some(prev) => {
                if m > 0 {
                    lemma_rates_devices_bounded(initial, tail, ms, lo, m - 1);
                }
            },
            None => {
                lemma_rates_devices_bounded(initial, tail, ms, lo, m);
            },
        }
    }
}

/// When the current snapshot is sorted by device, the rate list is sorted by
/// device as well: the snapshot's deterministic order carries through.
pub proof fn lemma_disk_rates_sorted(
    initial: Seq<(Seq<char>, DiskStats)>,
    cur: Seq<(Seq<char>, DiskStats)>,
    ms: u64,
)
    requires
        sorted_device_keys(cur),
    ensures
        forall|i: int, j: int|
            0 <= i < j < disk_rates(initial, cur, ms).len() ==> lex_lt(
                #[trigger] disk_rates(initial, cur, ms)[i].device,
                #[trigger] disk_rates(initial, cur, ms)[j].device,
            ),
    decreases cur.len(),
{
    if cur.len() > 0 {
        let tail = cur.drop_first();
        assert(sorted_device_keys(tail)) by {
            assert forall|i: int, j: int| 0 <= i < j < tail.len() implies lex_lt(
                #[trigger] tail[i].0,
                #[trigger] tail[j].0,
            ) by {
                assert(tail[i] == cur[i + 1]);
                assert(tail[j] == cur[j + 1]);
            }
        }
        lemma_disk_rates_sorted(initial, tail, ms);
        let r = disk_rates(initial, cur, ms);
        let rt = disk_rates(initial, tail, ms);
        match table_find(initial, cur[0].0) {
            Some(prev) => {
                assert forall|i: int, j: int| 0 <= i < j < r.len() implies lex_lt(
                    #[trigger] r[i].device,
                    #[trigger] r[j].device,
                ) by {
                    if i == 0 {
                        assert(r[j].device == rt[j - 1].device);
                        assert(forall|t: int|
                            0 <= t < tail.len() ==> lex_lt(cur[0].0, #[trigger] tail[t].0)) by {
                            assert(forall|t: int|
                                0 <= t < tail.len() ==> #[trigger] tail[t] == cur[t + 1]);
                        }
                        lemma_rates_devices_bounded(initial, tail, ms, cur[0].0, j - 1);
                    } else {
                        assert(r[i].device == rt[i - 1].device);
                        assert(r[j].device == rt[j - 1].device);
                    }
                }
            },
            None => {},
        }
    }
}

// ---------------------------------------------------------------------------
// The rate window
// ---------------------------------------------------------------------------
/// The cross-call state for counter-based rates: the last stored snapshot
/// and the instant it was taken, if any sample has been accepted yet. One
/// instance lives for the whole process; the aggregator's host wraps it in
/// a mutual-exclusion primitive so each read-modify-write cycle is atomic.
#[derive(Debug, Clone, PartialEq, Eq)]
pub struct RateWindow {
    pub baseline: Option<(DiskStatsTable, u64)>,
}

impl RateWindow {
    /// The stored baseline as mathematics: the table's entries and the
    /// stamp of the moment they were captured.
    pub open spec fn model(self) -> Option<(Seq<(Seq<char>, DiskStats)>, u64)> {
        match self.baseline {
            Some(b) => Some((b.0@, b.1)),
            None => None,
        }
    }

    pub open spec fn wf(self) -> bool {
        match self.baseline {
            Some(b) => sorted_device_keys(b.0@),
            None => true,
        }
    }

    /// A window with no baseline yet.
    pub fn new() -> (r: RateWindow)
        ensures
            r.model() is None,
            r.wf(),
    {
        RateWindow { baseline: None }
    }

    /// One debounced sampling step.
    ///
    /// The first accepted sample only establishes the baseline. A later
    /// sample within the minimum interval returns the empty list and leaves
    /// the baseline untouched, so a still-useful older baseline is never
    /// discarded. A sample at or past the interval computes the rates
    /// against the stored baseline and replaces it.
    pub fn sample(&mut self, current: DiskStatsTable, now_ms: u64) -> (r: Vec<DiskIoInfo>)
        requires
            old(self).wf(),
            sorted_device_keys(current@),
        ensures
            final(self).wf(),
            (final(self).model(), rate_views(r@)) == window_step(
                old(self).model(),
                current@,
                now_ms,
            ),
    {
        if self.baseline.is_none() {
            self.baseline = Some((current, now_ms));
            let r: Vec<DiskIoInfo> = Vec::new();
            proof {
                assert(rate_views(r@) =~= Seq::<RateView>::empty());
            }
            return r;
        }
        let pair = self.baseline.as_ref().unwrap();
        let at: u64 = pair.1;
        let elapsed = if now_ms >= at {
            now_ms - at
        } else {
            0
        };
        if elapsed < MIN_SAMPLE_INTERVAL_MS {
            let r: Vec<DiskIoInfo> = Vec::new();
            proof {
                assert(rate_views(r@) =~= Seq::<RateView>::empty());
            }
            return r;
        }
        let out = get_disk_io_info_from_str(&pair.0, &current, elapsed);
        self.baseline = Some((current, now_ms));
        out
    }
}

/// The rate window's step as a function of state and sample: the next state
/// and the records published for this cycle.
pub open spec fn window_step(
    state: Option<(Seq<(Seq<char>, DiskStats)>, u64)>,
    cur: Seq<(Seq<char>, DiskStats)>,
    now: u64,
) -> (Option<(Seq<(Seq<char>, DiskStats)>, u64)>, Seq<RateView>) {
    match state {
        None => (Some((cur, now)), Seq::empty()),
        Some(base) => {
            let elapsed = sat_sub(now, base.1);
            if elapsed < MIN_SAMPLE_INTERVAL_MS {
                (state, Seq::empty())
            } else {
                (Some((cur, now)), disk_rates(base.0, cur, elapsed))
            }
        },
    }
}

/// Sampling twice within the minimum interval returns empty both times and
/// leaves the stored baseline equal to the first call's input, not the
/// second's.
pub proof fn lemma_window_debounce(
    c1: Seq<(Seq<char>, DiskStats)>,
    t1: u64,
    c2: Seq<(Seq<char>, DiskStats)>,
    t2: u64,
)
    requires
        sat_sub(t2, t1) < MIN_SAMPLE_INTERVAL_MS,
    ensures
        ({
            let (s1, r1) = window_step(None, c1, t1);
            let (s2, r2) = window_step(s1, c2, t2);
            r1 =~= Seq::<RateView>::empty() && r2 =~= Seq::<RateView>::empty() && s2 == Some(
                (c1, t1),
            )
        }),
{
}

} // verus!
