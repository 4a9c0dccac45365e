//! The disk-counter table: parsing the line-oriented counter file into a
//! per-device table of monotonic counters, kept sorted by device name.
//!
//! Lines with fewer than the required thirteen fields are skipped, as are
//! pseudo-devices (loopback, optical, ram-backed). A malformed required
//! field on a kept device fails the whole read.

use vstd::prelude::*;
use vstd::string::*;

use crate::order::{lemma_lex_le_antisym, lemma_lex_le_trans, lex_lt};
use crate::probe::ProbeError;
use crate::text::{
    dec_val, has_prefix, is_digits, lex_le, parse_u64, split_lines, split_ws, str_eq,
    str_has_prefix, str_lex_le, text_lines, views, ws_tokens,
};

verus! {

/// One device's monotonically non-decreasing counters, as read at a single
/// instant.
#[derive(Debug, Clone, Copy, PartialEq, Eq)]
pub struct DiskStats {
    pub reads_completed: u64,
    pub sectors_read: u64,
    pub writes_completed: u64,
    pub sectors_written: u64,
    pub time_spent_io: u64,
}

/// Device keys strictly increasing: sorted, with no duplicates.
pub open spec fn sorted_device_keys(s: Seq<(Seq<char>, DiskStats)>) -> bool {
    forall|i: int, j: int|
        0 <= i < j < s.len() ==> lex_lt(#[trigger] s[i].0, #[trigger] s[j].0)
}

/// A counter snapshot: one entry per device, sorted by device name.
/// Supersedes the previous snapshot atomically inside the rate window.
#[derive(Debug, Clone, PartialEq, Eq)]
pub struct DiskStatsTable {
    pub entries: Vec<(String, DiskStats)>,
}

impl View for DiskStatsTable {
    type V = Seq<(Seq<char>, DiskStats)>;

    open spec fn view(&self) -> Seq<(Seq<char>, DiskStats)> {
        self.entries@.map_values(|e: (String, DiskStats)| (e.0@, e.1))
    }
}

/// The stats stored under `k`, front to back.
pub open spec fn table_find(s: Seq<(Seq<char>, DiskStats)>, k: Seq<char>) -> Option<DiskStats>
    decreases s.len(),
{
    if s.len() == 0 {
        None
    } else if s[0].0 == k {
        Some(s[0].1)
    } else {
        table_find(s.drop_first(), k)
    }
}

/// Insertion into a key-sorted entry sequence; an existing entry with the
/// same key is replaced.
pub open spec fn sorted_insert(
    s: Seq<(Seq<char>, DiskStats)>,
    k: Seq<char>,
    v: DiskStats,
) -> Seq<(Seq<char>, DiskStats)>
    decreases s.len(),
{
    if s.len() == 0 {
        seq![(k, v)]
    } else if s[0].0 == k {
        seq![(k, v)] + s.drop_first()
    } else if lex_le(k, s[0].0) {
        seq![(k, v)] + s
    } else {
        seq![s[0]] + sorted_insert(s.drop_first(), k, v)
    }
}

impl DiskStatsTable {
    pub open spec fn wf(self) -> bool {
        sorted_device_keys(self@)
    }

    /// An empty snapshot.
    pub fn new() -> (r: DiskStatsTable)
        ensures
            r@ == Seq::<(Seq<char>, DiskStats)>::empty(),
            r.wf(),
    {
        let r = DiskStatsTable { entries: Vec::new() };
        proof {
            assert(r@ =~= Seq::<(Seq<char>, DiskStats)>::empty());
        }
        r
    }

    pub fn len(&self) -> (n: usize)
        ensures
            n == self@.len(),
    {
        self.entries.len()
    }

    /// Look a device up by name.
    pub fn get(&self, device: &str) -> (r: Option<DiskStats>)
        ensures
            r == table_find(self@, device@),
    {
        let mut i: usize = 0;
        proof {
            assert(self@.skip(0) =~= self@);
        }
        while i < self.entries.len()
            invariant
                0 <= i <= self.entries@.len(),
                self@.len() == self.entries@.len(),
                table_find(self@, device@) == table_find(self@.skip(i as int), device@),
            decreases self.entries@.len() - i,
        {
            proof {
                assert(self@.skip(i as int)[0] == self@[i as int]);
            }
            if str_eq(self.entries[i].0.as_str(), device) {
                return Some(self.entries[i].1);
            }
            proof {
                assert(self@.skip(i as int).drop_first() =~= self@.skip(i as int + 1));
            }
            i += 1;
        }
        None
    }

    /// Decide whether the entries are strictly sorted by device name, as
    /// every table this crate builds is; a caller holding a table of
    /// unknown origin can test it before sampling rates.
    pub fn is_sorted(&self) -> (r: bool)
        ensures
            r == sorted_device_keys(self@),
    {
        let n = self.entries.len();
        let mut i: usize = 0;
        while n > 0 && i < n - 1
            invariant
                0 <= i <= n,
                n == self.entries@.len(),
                self@.len() == n,
                forall|k: int| 0 <= k < i ==> lex_lt(#[trigger] self@[k].0, self@[k + 1].0),
            decreases n - i,
        {
            let a = &self.entries[i].0;
            let b = &self.entries[i + 1].0;
            let lt = str_lex_le(a.as_str(), b.as_str()) && !str_eq(a.as_str(), b.as_str());
            if !lt {
                proof {
                    assert(!lex_lt(self@[i as int].0, self@[i as int + 1].0));
                }
                return false;
            }
            i += 1;
        }
        proof {
            lemma_adjacent_implies_sorted(self@);
        }
        true
    }

    /// Store `st` under `device`, replacing any entry with the same name and
    /// keeping the table sorted.
    pub fn insert(&mut self, device: String, st: DiskStats)
        ensures
            final(self)@ == sorted_insert(old(self)@, device@, st),
    {
        let mut i: usize = 0;
        proof {
            assert(old(self)@.take(0) =~= Seq::<(Seq<char>, DiskStats)>::empty());
            assert(old(self)@.skip(0) =~= old(self)@);
            assert(Seq::<(Seq<char>, DiskStats)>::empty() + sorted_insert(old(self)@, device@, st)
                =~= sorted_insert(old(self)@, device@, st));
        }
        loop
            invariant
                0 <= i <= self.entries@.len(),
                self.entries@ == old(self).entries@,
                sorted_insert(old(self)@, device@, st) == old(self)@.take(i as int)
                    + sorted_insert(old(self)@.skip(i as int), device@, st),
            decreases self.entries@.len() - i,
        {
            let ghost rem = old(self)@.skip(i as int);
            if i >= self.entries.len() {
                self.entries.push((device, st));
                proof {
                    assert(rem.len() == 0);
                    assert(sorted_insert(old(self)@, device@, st) =~~= self@);
                }
                return;
            }
            proof {
                assert(rem[0] == old(self)@[i as int]);
            }
            if str_eq(self.entries[i].0.as_str(), device.as_str()) {
                self.entries.remove(i);
                self.entries.insert(i, (device, st));
                proof {
                    assert(rem.drop_first() =~= old(self)@.skip(i as int + 1));
                    assert(sorted_insert(old(self)@, device@, st) =~~= self@);
                }
                return;
            }
            if str_lex_le(device.as_str(), self.entries[i].0.as_str()) {
                self.entries.insert(i, (device, st));
                proof {
                    assert(sorted_insert(old(self)@, device@, st) =~~= self@);
                }
                return;
            }
            proof {
                assert(rem.drop_first() =~= old(self)@.skip(i as int + 1));
                assert(old(self)@.take(i as int + 1) =~= old(self)@.take(i as int) + seq![
                    old(self)@[i as int],
                ]);
                assert(sorted_insert(old(self)@, device@, st) =~~= old(self)@.take(i as int + 1)
                    + sorted_insert(old(self)@.skip(i as int + 1), device@, st));
            }
            i += 1;
        }
    }
}

/// Strict order between the ends of a span whose adjacent keys all
/// increase.
proof fn lemma_lt_span(s: Seq<(Seq<char>, DiskStats)>, i: int, j: int)
    requires
        forall|k: int| 0 <= k < s.len() - 1 ==> lex_lt(#[trigger] s[k].0, s[k + 1].0),
        0 <= i < j < s.len(),
    ensures
        lex_lt(s[i].0, s[j].0),
    decreases j - i,
{
    if j == i + 1 {
    } else {
        lemma_lt_span(s, i, j - 1);
        assert(lex_lt(s[j - 1].0, s[j].0));
        crate::order::lemma_lex_lt_trans(s[i].0, s[j - 1].0, s[j].0);
    }
}

/// Adjacent strictly increasing keys make the whole table sorted.
proof fn lemma_adjacent_implies_sorted(s: Seq<(Seq<char>, DiskStats)>)
    requires
        forall|k: int| 0 <= k < s.len() - 1 ==> lex_lt(#[trigger] s[k].0, s[k + 1].0),
    ensures
        sorted_device_keys(s),
{
    assert forall|i: int, j: int| 0 <= i < j < s.len() implies lex_lt(
        #[trigger] s[i].0,
        #[trigger] s[j].0,
    ) by {
        lemma_lt_span(s, i, j);
    }
}

/// Inserting preserves strictly increasing keys.
pub proof fn lemma_sorted_insert_wf(s: Seq<(Seq<char>, DiskStats)>, k: Seq<char>, v: DiskStats)
    requires
        sorted_device_keys(s),
    ensures
        sorted_device_keys(sorted_insert(s, k, v)),
    decreases s.len(),
{
    crate::text::lemma_lex_le_total(k, s[0].0);
    let r = sorted_insert(s, k, v);
    if s.len() == 0 {
    } else if s[0].0 == k {
        assert forall|i: int, j: int| 0 <= i < j < r.len() implies lex_lt(
            #[trigger] r[i].0,
            #[trigger] r[j].0,
        ) by {
            assert(r[j] == s[j]);
            if i == 0 {
                assert(lex_lt(s[0].0, s[j].0));
            } else {
                assert(r[i] == s[i]);
            }
        }
    } else if lex_le(k, s[0].0) {
        assert forall|i: int, j: int| 0 <= i < j < r.len() implies lex_lt(
            #[trigger] r[i].0,
            #[trigger] r[j].0,
        ) by {
            assert(r[j] == s[j - 1]);
            if i == 0 {
                if j == 1 {
                    assert(lex_lt(k, s[0].0));
                } else {
                    assert(lex_lt(s[0].0, s[j - 1].0));
                    lemma_lex_le_trans(k, s[0].0, s[j - 1].0);
                    if k == s[j - 1].0 {
                        lemma_lex_le_antisym(s[0].0, s[j - 1].0);
                    }
                }
            } else {
                assert(r[i] == s[i - 1]);
            }
        }
    } else {
        let tail = s.drop_first();
        assert(sorted_device_keys(tail)) by {
            assert forall|i: int, j: int| 0 <= i < j < tail.len() implies lex_lt(
                #[trigger] tail[i].0,
                #[trigger] tail[j].0,
            ) by {
                assert(tail[i] == s[i + 1]);
                assert(tail[j] == s[j + 1]);
            }
        }
        lemma_sorted_insert_wf(tail, k, v);
        let rt = sorted_insert(tail, k, v);
        // every key in rt is either k or a tail key, and s[0].0 is below all
        assert forall|i: int, j: int| 0 <= i < j < r.len() implies lex_lt(
            #[trigger] r[i].0,
            #[trigger] r[j].0,
        ) by {
            if i == 0 {
                assert(r[j] == rt[j - 1]);
                lemma_insert_keys_bounded(tail, k, v, j - 1, s[0].0);
            } else {
                assert(r[i] == rt[i - 1]);
                assert(r[j] == rt[j - 1]);
            }
        }
    }
}

/// If `lo` is strictly below `k` and below every key of `s`, it is below
/// every key of the insertion result.
proof fn lemma_insert_keys_bounded(
    s: Seq<(Seq<char>, DiskStats)>,
    k: Seq<char>,
    v: DiskStats,
    j: int,
    lo: Seq<char>,
)
    requires
        0 <= j < sorted_insert(s, k, v).len(),
        lex_lt(lo, k),
        forall|i: int| 0 <= i < s.len() ==> lex_lt(lo, #[trigger] s[i].0),
    ensures
        lex_lt(lo, sorted_insert(s, k, v)[j].0),
    decreases s.len(),
{
    let r = sorted_insert(s, k, v);
    if s.len() == 0 {
    } else if s[0].0 == k {
        if j > 0 {
            assert(r[j] == s.drop_first()[j - 1]);
            assert(s.drop_first()[j - 1] == s[j]);
        }
    } else if lex_le(k, s[0].0) {
        if j > 0 {
            assert(r[j] == s[j - 1]);
        }
    } else {
        if j == 0 {
            assert(r[0] == s[0]);
        } else {
            let tail = s.drop_first();
            assert(forall|i: int| 0 <= i < tail.len() ==> lex_lt(lo, #[trigger] tail[i].0)) by {
                assert(forall|i: int|
                    0 <= i < tail.len() ==> #[trigger] tail[i] == s[i + 1]);
            }
            lemma_insert_keys_bounded(tail, k, v, j - 1, lo);
            assert(r[j] == sorted_insert(tail, k, v)[j - 1]);
        }
    }
}

// ---------------------------------------------------------------------------
// Parsing
// ---------------------------------------------------------------------------
/// Pseudo-devices filtered out before rate tracking.
pub open spec fn device_filtered(d: Seq<char>) -> bool {
    has_prefix(d, "loop"@) || has_prefix(d, "sr"@) || has_prefix(d, "ram"@)
}

/// A line ignored by the parse: too few fields, or a filtered device.
pub open spec fn line_skipped(line: Seq<char>) -> bool {
    ws_tokens(line).len() < 13 || device_filtered(ws_tokens(line)[2])
}

/// A token that parses as a `u64` counter.
pub open spec fn tok_u64_ok(t: Seq<char>) -> bool {
    is_digits(t) && dec_val(t) <= u64::MAX
}

/// All five required counter fields of a kept line parse.
pub open spec fn line_fields_ok(line: Seq<char>) -> bool {
    let ts = ws_tokens(line);
    tok_u64_ok(ts[3]) && tok_u64_ok(ts[5]) && tok_u64_ok(ts[7]) && tok_u64_ok(ts[9]) && tok_u64_ok(
        ts[12],
    )
}

/// The counters read from a kept, well-formed line.
pub open spec fn line_stats(line: Seq<char>) -> DiskStats {
    let ts = ws_tokens(line);
    DiskStats {
        reads_completed: dec_val(ts[3]) as u64,
        sectors_read: dec_val(ts[5]) as u64,
        writes_completed: dec_val(ts[7]) as u64,
        sectors_written: dec_val(ts[9]) as u64,
        time_spent_io: dec_val(ts[12]) as u64,
    }
}

/// The message reported for the first malformed required field of a line.
pub open spec fn line_error(line: Seq<char>) -> Seq<char> {
    let ts = ws_tokens(line);
    if !tok_u64_ok(ts[3]) {
        "failed to parse reads_completed for device "@ + ts[2]
    } else if !tok_u64_ok(ts[5]) {
        "failed to parse sectors_read for device "@ + ts[2]
    } else if !tok_u64_ok(ts[7]) {
        "failed to parse writes_completed for device "@ + ts[2]
    } else if !tok_u64_ok(ts[9]) {
        "failed to parse sectors_written for device "@ + ts[2]
    } else {
        "failed to parse time_spent_io for device "@ + ts[2]
    }
}

/// The table built from `ls`, line by line, onto `acc`; the first malformed
/// kept line aborts the read with its message.
pub open spec fn diskstats_acc(
    ls: Seq<Seq<char>>,
    acc: Seq<(Seq<char>, DiskStats)>,
) -> Result<Seq<(Seq<char>, DiskStats)>, Seq<char>>
    decreases ls.len(),
{
    if ls.len() == 0 {
        Ok(acc)
    } else if line_skipped(ls[0]) {
        diskstats_acc(ls.drop_first(), acc)
    } else if !line_fields_ok(ls[0]) {
        Err(line_error(ls[0]))
    } else {
        diskstats_acc(
            ls.drop_first(),
            sorted_insert(acc, ws_tokens(ls[0])[2], line_stats(ls[0])),
        )
    }
}

/// What parsing a whole counter file yields.
pub open spec fn diskstats_spec(input: Seq<char>) -> Result<
    Seq<(Seq<char>, DiskStats)>,
    Seq<char>,
> {
    diskstats_acc(text_lines(input), Seq::empty())
}

/// Parse the disk-counter table. Short lines and pseudo-devices are
/// skipped; the first malformed required counter of a kept line fails the
/// whole read with a message naming the field and device.
pub fn parse_diskstats_from_str(input: &str) -> (r: Result<DiskStatsTable, ProbeError>)
    ensures
        match r {
            Ok(t) => t.wf() && diskstats_spec(input@) == Ok::<_, Seq<char>>(t@),
            Err(e) => diskstats_spec(input@) == Err::<Seq<(Seq<char>, DiskStats)>, _>(e.message@),
        },
{
    let lines = split_lines(input);
    let mut table = DiskStatsTable::new();
    let mut i: usize = 0;
    proof {
        assert(views(lines@).skip(0) =~= views(lines@));
    }
    while i < lines.len()
        invariant
            0 <= i <= lines@.len(),
            views(lines@) == text_lines(input@),
            table.wf(),
            diskstats_acc(views(lines@).skip(i as int), table@) == diskstats_spec(input@),
        decreases lines@.len() - i,
    {
        let ghost lv = views(lines@).skip(i as int);
        proof {
            assert(lv[0] == lines@[i as int]@);
            assert(lv.drop_first() =~= views(lines@).skip(i as int + 1));
        }
        let toks = split_ws(lines[i].as_str());
        if toks.len() < 13 {
            proof {
                assert(line_skipped(lv[0]));
            }
        } else {
            let device = &toks[2];
            proof {
                assert(views(toks@)[2] == toks@[2]@);
            }
            if str_has_prefix(device.as_str(), "loop") || str_has_prefix(device.as_str(), "sr")
                || str_has_prefix(device.as_str(), "ram") {
                proof {
                    assert(line_skipped(lv[0]));
                }
            } else {
                proof {
                    assert(!line_skipped(lv[0]));
                    assert(views(toks@)[3] == toks@[3]@);
                    assert(views(toks@)[5] == toks@[5]@);
                    assert(views(toks@)[7] == toks@[7]@);
                    assert(views(toks@)[9] == toks@[9]@);
                    assert(views(toks@)[12] == toks@[12]@);
                }
                let reads_completed = match parse_u64(toks[3].as_str()) {
                    Some(v) => v,
                    None => {
                        return Err(
                            ProbeError::with_detail(
                                "failed to parse reads_completed for device ",
                                device.as_str(),
                            ),
                        );
                    },
                };
                let sectors_read = match parse_u64(toks[5].as_str()) {
                    Some(v) => v,
                    None => {
                        return Err(
                            ProbeError::with_detail(
                                "failed to parse sectors_read for device ",
                                device.as_str(),
                            ),
                        );
                    },
                };
                let writes_completed = match parse_u64(toks[7].as_str()) {
                    Some(v) => v,
                    None => {
                        return Err(
                            ProbeError::with_detail(
                                "failed to parse writes_completed for device ",
                                device.as_str(),
                            ),
                        );
                    },
                };
                let sectors_written = match parse_u64(toks[9].as_str()) {
                    Some(v) => v,
                    None => {
                        return Err(
                            ProbeError::with_detail(
                                "failed to parse sectors_written for device ",
                                device.as_str(),
                            ),
                        );
                    },
                };
                let time_spent_io = match parse_u64(toks[12].as_str()) {
                    Some(v) => v,
                    None => {
                        return Err(
                            ProbeError::with_detail(
                                "failed to parse time_spent_io for device ",
                                device.as_str(),
                            ),
                        );
                    },
                };
                let st = DiskStats {
                    reads_completed,
                    sectors_read,
                    writes_completed,
                    sectors_written,
                    time_spent_io,
                };
                proof {
                    assert(line_fields_ok(lv[0]));
                    assert(st == line_stats(lv[0]));
                    lemma_sorted_insert_wf(table@, toks@[2]@, st);
                }
                table.insert(device.clone(), st);
            }
        }
        i += 1;
    }
    proof {
        assert(views(lines@).skip(lines@.len() as int) =~= Seq::<Seq<char>>::empty());
    }
    Ok(table)
}

} // verus!
