//! The profiling engine: per-call-site timing records for each frame, folded
//! every `snapshot_interval` frames into a ranked statistics snapshot that is
//! kept in a circular log.
use vstd::prelude::*;

verus! {

/// Records one frame's set is allocated for up front.
pub const PERFORMANCE_RECORDS_CAPACITY: usize = 512;

/// A bound on the records of one frame that no machine reaches (each record
/// holds three strings): it keeps the sums of a fold within their integers.
pub const FRAME_RECORDS_LIMIT: usize = 0xffff_ffff;

/// Slots of the circular log of snapshots.
pub const PERFORMANCE_COUNTER_LOG_SIZE: usize = 120;

/// The largest accepted snapshot interval, in frames.
pub const MAX_SNAPSHOT_INTERVAL: usize = 60;

pub const DEFAULT_SNAPSHOT_INTERVAL: usize = 3;

/// Percentages are held in hundredths of a percent: a whole is this much.
pub const PERCENT_SCALE: u32 = 10000;

/// Largest number of records the frame ring can hold in all:
/// `MAX_SNAPSHOT_INTERVAL * FRAME_RECORDS_LIMIT`.
pub const MAX_RING_RECORDS: u64 = 257_698_037_700;

/// A call site: its name, its file and its line.
pub type CallSite = (Seq<char>, Seq<char>, u32);

/// What one call site accumulated within one frame.
pub struct ClocsDebugRecord {
    pub name: String,
    pub file_name: String,
    pub line: u32,
    /// Nanoseconds.
    pub elapsed: u64,
    pub hits: u32,
    pub thread_id: String,
}

impl ClocsDebugRecord {
    pub open spec fn key(&self) -> CallSite {
        (self.name@, self.file_name@, self.line)
    }
}

/// One frame's records, at most one per call site.
pub struct PerformanceCounterState {
    pub records: Vec<ClocsDebugRecord>,
}

impl PerformanceCounterState {
    pub open spec fn wf(&self) -> bool {
        &&& self.records@.len() <= FRAME_RECORDS_LIMIT
        &&& forall|i: int, j: int|
            0 <= i < j < self.records@.len() ==> #[trigger] self.records@[i].key()
                != #[trigger] self.records@[j].key()
    }

    pub fn new() -> (r: PerformanceCounterState)
        ensures
            r.records@.len() == 0,
    {
        PerformanceCounterState { records: Vec::with_capacity(PERFORMANCE_RECORDS_CAPACITY) }
    }
}

/// The statistics of one call site over a window of frames.
pub struct PerformanceCounterStatisticsRecord {
    pub name: String,
    pub file_name: String,
    pub line: u32,
    /// Nanoseconds, summed over the window.
    pub sum_elapsed: u128,
    pub sum_hits: u128,
    /// The number of frames in the window in which the call site ran.
    pub hits: u64,
    /// `sum_elapsed / sum_hits`, rounded down.
    pub elapsed_per_hit: u128,
    /// Share of the window's total elapsed time, in hundredths of a percent,
    /// rounded down.
    pub percent: u32,
    /// The thread of the call site's last record in the window.
    pub thread_id: String,
}

impl PerformanceCounterStatisticsRecord {
    pub open spec fn key(&self) -> CallSite {
        (self.name@, self.file_name@, self.line)
    }

    fn copy(&self) -> (r: PerformanceCounterStatisticsRecord)
        ensures
            r == *self,
    {
        PerformanceCounterStatisticsRecord {
            name: self.name.clone(),
            file_name: self.file_name.clone(),
            line: self.line,
            sum_elapsed: self.sum_elapsed,
            sum_hits: self.sum_hits,
            hits: self.hits,
            elapsed_per_hit: self.elapsed_per_hit,
            percent: self.percent,
            thread_id: self.thread_id.clone(),
        }
    }
}

/// One snapshot: statistics ranked by decreasing share.
pub struct PerformanceCounterStatistics {
    pub records: Vec<PerformanceCounterStatisticsRecord>,
}

impl PerformanceCounterStatistics {
    pub fn new() -> (r: PerformanceCounterStatistics)
        ensures
            r.records@.len() == 0,
    {
        PerformanceCounterStatistics { records: Vec::new() }
    }
}

// ---------------------------------------------------------------------------
// The mathematical model of a fold.
/// All records of the ring, frame after frame.
pub open spec fn flatten(ring: Seq<PerformanceCounterState>) -> Seq<ClocsDebugRecord>
    decreases ring.len(),
{
    if ring.len() == 0 {
        Seq::empty()
    } else {
        flatten(ring.drop_last()) + ring.last().records@
    }
}

/// The number of records of call site `k`.
pub open spec fn count_of(s: Seq<ClocsDebugRecord>, k: CallSite) -> int
    decreases s.len(),
{
    if s.len() == 0 {
        0
    } else {
        count_of(s.drop_last(), k) + (if s.last().key() == k {
            1int
        } else {
            0int
        })
    }
}

/// The elapsed time of call site `k`, summed.
pub open spec fn sum_elapsed_of(s: Seq<ClocsDebugRecord>, k: CallSite) -> int
    decreases s.len(),
{
    if s.len() == 0 {
        0
    } else {
        sum_elapsed_of(s.drop_last(), k) + (if s.last().key() == k {
            s.last().elapsed as int
        } else {
            0int
        })
    }
}

/// The hits of call site `k`, summed.
pub open spec fn sum_hits_of(s: Seq<ClocsDebugRecord>, k: CallSite) -> int
    decreases s.len(),
{
    if s.len() == 0 {
        0
    } else {
        sum_hits_of(s.drop_last(), k) + (if s.last().key() == k {
            s.last().hits as int
        } else {
            0int
        })
    }
}

/// The thread of the last record of call site `k`.
pub open spec fn last_thread_of(s: Seq<ClocsDebugRecord>, k: CallSite) -> Seq<char>
    decreases s.len(),
{
    if s.len() == 0 {
        Seq::empty()
    } else if s.last().key() == k {
        s.last().thread_id@
    } else {
        last_thread_of(s.drop_last(), k)
    }
}

/// The elapsed time of all records, summed.
pub open spec fn total_elapsed(s: Seq<ClocsDebugRecord>) -> int
    decreases s.len(),
{
    if s.len() == 0 {
        0
    } else {
        total_elapsed(s.drop_last()) + s.last().elapsed as int
    }
}

/// The `sum_elapsed` of statistics records, summed.
pub open spec fn sum_of_elapsed(s: Seq<PerformanceCounterStatisticsRecord>) -> int
    decreases s.len(),
{
    if s.len() == 0 {
        0
    } else {
        sum_of_elapsed(s.drop_last()) + s.last().sum_elapsed as int
    }
}

/// The `percent` of statistics records, summed.
pub open spec fn sum_of_percent(s: Seq<PerformanceCounterStatisticsRecord>) -> int
    decreases s.len(),
{
    if s.len() == 0 {
        0
    } else {
        sum_of_percent(s.drop_last()) + s.last().percent as int
    }
}

pub open spec fn has_key(s: Seq<PerformanceCounterStatisticsRecord>, k: CallSite) -> bool {
    exists|i: int| 0 <= i < s.len() && #[trigger] s[i].key() == k
}

/// `r` holds the sums of its call site over the records `s`.
pub open spec fn is_group_of(r: PerformanceCounterStatisticsRecord, s: Seq<ClocsDebugRecord>) -> bool {
    &&& count_of(s, r.key()) > 0
    &&& r.hits == count_of(s, r.key())
    &&& r.sum_elapsed == sum_elapsed_of(s, r.key())
    &&& r.sum_hits == sum_hits_of(s, r.key())
    &&& r.thread_id@ == last_thread_of(s, r.key())
}

/// `share(e, total)`: `e` as hundredths of a percent of `total`, rounded down.
pub open spec fn share(e: int, total: int) -> int {
    if total > 0 {
        PERCENT_SCALE * e / total
    } else {
        0
    }
}

/// `r` is the complete statistics record of its call site over `s`.
pub open spec fn is_record_of(r: PerformanceCounterStatisticsRecord, s: Seq<ClocsDebugRecord>) -> bool {
    &&& is_group_of(r, s)
    &&& r.elapsed_per_hit == (if r.sum_hits > 0 {
        r.sum_elapsed as int / r.sum_hits as int
    } else {
        0
    })
}

/// `r` is the complete statistics record of its call site over `s`, with its
/// share rounded down.
pub open spec fn is_statistics_of(
    r: PerformanceCounterStatisticsRecord,
    s: Seq<ClocsDebugRecord>,
) -> bool {
    &&& is_record_of(r, s)
    &&& r.percent == share(r.sum_elapsed as int, total_elapsed(s))
}

/// `g` holds one group per call site of `s`, and nothing else.
pub open spec fn is_grouping_of(
    g: Seq<PerformanceCounterStatisticsRecord>,
    s: Seq<ClocsDebugRecord>,
) -> bool {
    &&& forall|i: int| 0 <= i < g.len() ==> is_group_of(#[trigger] g[i], s)
    &&& forall|i: int, j: int| 0 <= i < j < g.len() ==> #[trigger] g[i].key() != #[trigger] g[j].key()
    &&& forall|k: CallSite| #[trigger] count_of(s, k) > 0 ==> has_key(g, k)
    &&& sum_of_elapsed(g) == total_elapsed(s)
}

/// `snap` holds one complete statistics record per call site of `s`, each
/// with its share rounded down, ranked by decreasing share.
spec fn is_share_ranking_of(
    snap: Seq<PerformanceCounterStatisticsRecord>,
    s: Seq<ClocsDebugRecord>,
) -> bool {
    &&& forall|i: int| 0 <= i < snap.len() ==> is_statistics_of(#[trigger] snap[i], s)
    &&& forall|i: int, j: int|
        0 <= i < j < snap.len() ==> #[trigger] snap[i].key() != #[trigger] snap[j].key()
    &&& forall|k: CallSite| #[trigger] count_of(s, k) > 0 ==> has_key(snap, k)
    &&& forall|i: int, j: int|
        0 <= i < j < snap.len() ==> #[trigger] snap[i].percent >= #[trigger] snap[j].percent
    &&& sum_of_elapsed(snap) == total_elapsed(s)
}

/// `snap` is the snapshot of the records `s`: one complete statistics record
/// per call site, ranked by decreasing share. Every share is rounded down but
/// the first, which takes what rounding left over, so that the shares of a
/// window with some elapsed time sum to exactly one whole. (The last clause
/// follows from the others and is stated for the use of callers.)
pub open spec fn is_snapshot_of(
    snap: Seq<PerformanceCounterStatisticsRecord>,
    s: Seq<ClocsDebugRecord>,
) -> bool {
    &&& forall|i: int| 0 <= i < snap.len() ==> is_record_of(#[trigger] snap[i], s)
    &&& forall|i: int|
        1 <= i < snap.len() ==> (#[trigger] snap[i]).percent == share(snap[i].sum_elapsed as int, total_elapsed(s))
    &&& snap.len() > 0 ==> snap[0].percent >= share(snap[0].sum_elapsed as int, total_elapsed(s))
    &&& total_elapsed(s) == 0 && snap.len() > 0 ==> snap[0].percent == 0
    &&& total_elapsed(s) > 0 ==> sum_of_percent(snap) == PERCENT_SCALE
    &&& forall|i: int, j: int|
        0 <= i < j < snap.len() ==> #[trigger] snap[i].key() != #[trigger] snap[j].key()
    &&& forall|k: CallSite| #[trigger] count_of(s, k) > 0 ==> has_key(snap, k)
    &&& forall|i: int, j: int|
        0 <= i < j < snap.len() ==> #[trigger] snap[i].percent >= #[trigger] snap[j].percent
    &&& sum_of_elapsed(snap) == total_elapsed(s)
}

/// The ring holds at most `MAX_SNAPSHOT_INTERVAL` frames, each within its
/// record bound and with one record per call site.
pub open spec fn ring_wf(ring: Seq<PerformanceCounterState>) -> bool {
    &&& ring.len() <= MAX_SNAPSHOT_INTERVAL
    &&& forall|f: int| 0 <= f < ring.len() ==> (#[trigger] ring[f]).wf()
}

// ---------------------------------------------------------------------------
// Lemmas on the model.
proof fn lemma_flatten_len(ring: Seq<PerformanceCounterState>)
    requires
        forall|f: int| 0 <= f < ring.len() ==> (#[trigger] ring[f]).wf(),
    ensures
        flatten(ring).len() <= ring.len() * FRAME_RECORDS_LIMIT,
    decreases ring.len(),
{
    if ring.len() > 0 {
        let r = ring.drop_last();
        assert forall|f: int| 0 <= f < r.len() implies (#[trigger] r[f]).wf() by {
            assert(r[f] == ring[f]);
        }
        lemma_flatten_len(r);
        assert(ring.last().wf());
    }
}

proof fn lemma_total_bound(s: Seq<ClocsDebugRecord>)
    ensures
        0 <= total_elapsed(s) <= s.len() * 0xffff_ffff_ffff_ffffint,
    decreases s.len(),
{
    if s.len() > 0 {
        lemma_total_bound(s.drop_last());
    }
}

proof fn lemma_group_sums_bound(s: Seq<ClocsDebugRecord>, k: CallSite)
    ensures
        0 <= sum_elapsed_of(s, k) <= total_elapsed(s),
        0 <= sum_hits_of(s, k) <= s.len() * 0xffff_ffffint,
        0 <= count_of(s, k) <= s.len(),
        count_of(s, k) == 0 ==> sum_elapsed_of(s, k) == 0 && sum_hits_of(s, k) == 0,
    decreases s.len(),
{
    if s.len() > 0 {
        lemma_group_sums_bound(s.drop_last(), k);
    }
}

proof fn lemma_sum_of_elapsed_update(
    s: Seq<PerformanceCounterStatisticsRecord>,
    i: int,
    x: PerformanceCounterStatisticsRecord,
)
    requires
        0 <= i < s.len(),
    ensures
        sum_of_elapsed(s.update(i, x)) == sum_of_elapsed(s) - s[i].sum_elapsed + x.sum_elapsed,
    decreases s.len(),
{
    let t = s.update(i, x);
    if i == s.len() - 1 {
        assert(t.drop_last() =~= s.drop_last());
    } else {
        assert(t.drop_last() =~= s.drop_last().update(i, x));
        lemma_sum_of_elapsed_update(s.drop_last(), i, x);
    }
}

proof fn lemma_sum_of_elapsed_concat(
    a: Seq<PerformanceCounterStatisticsRecord>,
    b: Seq<PerformanceCounterStatisticsRecord>,
)
    ensures
        sum_of_elapsed(a + b) == sum_of_elapsed(a) + sum_of_elapsed(b),
    decreases b.len(),
{
    if b.len() == 0 {
        assert(a + b =~= a);
    } else {
        assert((a + b).drop_last() =~= a + b.drop_last());
        lemma_sum_of_elapsed_concat(a, b.drop_last());
    }
}

proof fn lemma_sum_of_elapsed_insert(
    s: Seq<PerformanceCounterStatisticsRecord>,
    i: int,
    x: PerformanceCounterStatisticsRecord,
)
    requires
        0 <= i <= s.len(),
    ensures
        sum_of_elapsed(s.insert(i, x)) == sum_of_elapsed(s) + x.sum_elapsed,
{
    let a = s.subrange(0, i);
    let b = s.subrange(i, s.len() as int);
    assert(s.insert(i, x) =~= a.push(x) + b);
    assert(s =~= a + b);
    lemma_sum_of_elapsed_concat(a.push(x), b);
    lemma_sum_of_elapsed_concat(a, b);
    assert(a.push(x).drop_last() =~= a);
}

// ---------------------------------------------------------------------------
// The fold.
/// Whether the statistics record `g` belongs to call site `r`.
fn same_call_site(g: &PerformanceCounterStatisticsRecord, r: &ClocsDebugRecord) -> (b: bool)
    ensures
        b == (g.key() == r.key()),
{
    g.line == r.line && g.name == r.name && g.file_name == r.file_name
}

/// Adds the record `rec` to the grouping `groups` of the records `p`.
fn add_record(
    groups: &mut Vec<PerformanceCounterStatisticsRecord>,
    rec: &ClocsDebugRecord,
    Ghost(p): Ghost<Seq<ClocsDebugRecord>>,
)
    requires
        is_grouping_of(old(groups)@, p),
        p.len() < MAX_RING_RECORDS,
    ensures
        is_grouping_of(final(groups)@, p.push(*rec)),
{
    let ghost q = p.push(*rec);
    proof {
        assert(q.drop_last() =~= p);
        lemma_group_sums_bound(p, rec.key());
    }
    let mut idx: usize = 0;
    let mut found = false;
    while idx < groups.len() && !found
        invariant
            idx <= groups@.len(),
            groups@ == old(groups)@,
            found ==> idx < groups@.len() && groups@[idx as int].key() == rec.key(),
            forall|j: int| 0 <= j < idx ==> (#[trigger] groups@[j]).key() != rec.key(),
        decreases groups@.len() - idx + (if found { 0int } else { 1int }),
    {
        if same_call_site(&groups[idx], rec) {
            found = true;
        } else {
            idx = idx + 1;
        }
    }
    let ghost old_groups = groups@;
    if found {
        let old_group = groups[idx].copy();
        proof {
            assert(is_group_of(old_groups[idx as int], p));
            lemma_total_bound(p);
            assert(p.len() * 0xffff_ffff_ffff_ffffint <= MAX_RING_RECORDS * 0xffff_ffff_ffff_ffffint)
                by (nonlinear_arith)
                requires
                    p.len() < MAX_RING_RECORDS,
            ;
            assert(p.len() * 0xffff_ffffint <= MAX_RING_RECORDS * 0xffff_ffffint) by (nonlinear_arith)
                requires
                    p.len() < MAX_RING_RECORDS,
            ;
        }
        let updated = PerformanceCounterStatisticsRecord {
            name: old_group.name,
            file_name: old_group.file_name,
            line: old_group.line,
            sum_elapsed: old_group.sum_elapsed + rec.elapsed as u128,
            sum_hits: old_group.sum_hits + rec.hits as u128,
            hits: old_group.hits + 1,
            elapsed_per_hit: 0,
            percent: 0,
            thread_id: rec.thread_id.clone(),
        };
        groups.set(idx, updated);
        proof {
            lemma_sum_of_elapsed_update(old_groups, idx as int, updated);
            assert forall|i: int| 0 <= i < groups@.len() implies is_group_of(#[trigger] groups@[i], q) by {
                if i != idx {
                    assert(old_groups[i].key() != rec.key());
                }
            }
            assert forall|k: CallSite| #[trigger] count_of(q, k) > 0 implies has_key(groups@, k) by {
                if k == rec.key() {
                    assert(groups@[idx as int].key() == k);
                } else {
                    assert(count_of(p, k) > 0);
                    let i = choose|i: int| 0 <= i < old_groups.len() && #[trigger] old_groups[i].key() == k;
                    assert(groups@[i].key() == k);
                }
            }
        }
    } else {
        let group = PerformanceCounterStatisticsRecord {
            name: rec.name.clone(),
            file_name: rec.file_name.clone(),
            line: rec.line,
            sum_elapsed: rec.elapsed as u128,
            sum_hits: rec.hits as u128,
            hits: 1,
            elapsed_per_hit: 0,
            percent: 0,
            thread_id: rec.thread_id.clone(),
        };
        groups.push(group);
        proof {
            assert(groups@.drop_last() =~= old_groups);
            assert(count_of(p, rec.key()) == 0);
            assert forall|i: int| 0 <= i < groups@.len() implies is_group_of(#[trigger] groups@[i], q) by {
                if i < old_groups.len() {
                    assert(groups@[i] == old_groups[i]);
                    assert(old_groups[i].key() != rec.key());
                }
            }
            assert forall|k: CallSite| #[trigger] count_of(q, k) > 0 implies has_key(groups@, k) by {
                if k == rec.key() {
                    assert(groups@[old_groups.len() as int].key() == k);
                } else {
                    assert(count_of(p, k) > 0);
                    let i = choose|i: int| 0 <= i < old_groups.len() && #[trigger] old_groups[i].key() == k;
                    assert(groups@[i].key() == k);
                }
            }
        }
    }
}

/// Groups all records of the ring by call site; also returns their total
/// elapsed time.
fn group_records(ring: &Vec<PerformanceCounterState>) -> (r: (
    Vec<PerformanceCounterStatisticsRecord>,
    u128,
))
    requires
        ring_wf(ring@),
    ensures
        is_grouping_of(r.0@, flatten(ring@)),
        r.1 == total_elapsed(flatten(ring@)),
{
    let mut groups: Vec<PerformanceCounterStatisticsRecord> = Vec::new();
    let mut total: u128 = 0;
    let mut f: usize = 0;
    proof {
        assert(ring@.take(0) =~= Seq::<PerformanceCounterState>::empty());
        assert(groups@ =~= Seq::<PerformanceCounterStatisticsRecord>::empty());
    }
    while f < ring.len()
        invariant
            f <= ring@.len(),
            ring_wf(ring@),
            is_grouping_of(groups@, flatten(ring@.take(f as int))),
            total == total_elapsed(flatten(ring@.take(f as int))),
        decreases ring@.len() - f,
    {
        let ghost done = flatten(ring@.take(f as int));
        let records = &ring[f].records;
        proof {
            let r = ring@.take(f as int);
            assert forall|g: int| 0 <= g < r.len() implies (#[trigger] r[g]).wf() by {
                assert(r[g] == ring@[g]);
            }
            lemma_flatten_len(r);
            assert(ring@[f as int].wf());
        }
        let mut i: usize = 0;
        proof {
            assert(done + records@.take(0) =~= done);
        }
        while i < records.len()
            invariant
                i <= records@.len(),
                records@.len() <= FRAME_RECORDS_LIMIT,
                done.len() <= f * FRAME_RECORDS_LIMIT,
                f < MAX_SNAPSHOT_INTERVAL,
                is_grouping_of(groups@, done + records@.take(i as int)),
                total == total_elapsed(done + records@.take(i as int)),
            decreases records@.len() - i,
        {
            let ghost p = done + records@.take(i as int);
            let rec = &records[i];
            proof {
                assert(p.len() < MAX_RING_RECORDS) by (nonlinear_arith)
                    requires
                        p.len() == done.len() + i,
                        done.len() <= f * 0xffff_ffff,
                        f < 60,
                        i < 0xffff_ffff,
                ;
                lemma_total_bound(p);
                assert(p.len() * 0xffff_ffff_ffff_ffffint <= MAX_RING_RECORDS * 0xffff_ffff_ffff_ffffint) by (nonlinear_arith)
                    requires p.len() < MAX_RING_RECORDS;
                assert(done + records@.take(i + 1) =~= p.push(*rec));
                assert(p.push(*rec).drop_last() =~= p);
            }
            add_record(&mut groups, rec, Ghost(p));
            total = total + rec.elapsed as u128;
            i = i + 1;
        }
        proof {
            assert(records@.take(records@.len() as int) =~= records@);
            assert(ring@.take(f + 1).drop_last() =~= ring@.take(f as int));
        }
        f = f + 1;
    }
    proof {
        assert(ring@.take(ring@.len() as int) =~= ring@);
    }
    (groups, total)
}

/// `out` ranks, by decreasing share, the complete statistics of the first
/// `j` groups of `groups`.
spec fn is_ranked_prefix(
    out: Seq<PerformanceCounterStatisticsRecord>,
    groups: Seq<PerformanceCounterStatisticsRecord>,
    j: int,
    s: Seq<ClocsDebugRecord>,
) -> bool {
    &&& out.len() == j
    &&& forall|i: int| 0 <= i < out.len() ==> is_statistics_of(#[trigger] out[i], s)
    &&& forall|i: int, k: int| 0 <= i < k < out.len() ==> #[trigger] out[i].key() != #[trigger] out[k].key()
    &&& forall|i: int| 0 <= i < j ==> has_key(out, #[trigger] groups[i].key())
    &&& forall|i: int| 0 <= i < out.len() ==> has_key(groups.take(j), #[trigger] out[i].key())
    &&& forall|i: int, k: int| 0 <= i < k < out.len() ==> #[trigger] out[i].percent >= #[trigger] out[k].percent
    &&& sum_of_elapsed(out) == sum_of_elapsed(groups.take(j))
}

#[verifier::rlimit(60)]
proof fn lemma_insert_ranked(
    before: Seq<PerformanceCounterStatisticsRecord>,
    pos: int,
    x: PerformanceCounterStatisticsRecord,
    groups: Seq<PerformanceCounterStatisticsRecord>,
    j: int,
    s: Seq<ClocsDebugRecord>,
)
    requires
        0 <= j < groups.len(),
        is_grouping_of(groups, s),
        is_ranked_prefix(before, groups, j, s),
        0 <= pos <= before.len(),
        x.key() == groups[j].key(),
        x.sum_elapsed == groups[j].sum_elapsed,
        is_statistics_of(x, s),
        forall|i: int| 0 <= i < pos ==> (#[trigger] before[i]).percent >= x.percent,
        pos < before.len() ==> before[pos].percent < x.percent,
    ensures
        is_ranked_prefix(before.insert(pos, x), groups, j + 1, s),
{
    before.insert_ensures(pos, x);
    let after = before.insert(pos, x);
    let gj = groups.take(j);
    let gj1 = groups.take(j + 1);
    assert(gj1.drop_last() =~= gj);
    lemma_sum_of_elapsed_insert(before, pos, x);
    assert forall|i: int| pos <= i < before.len() implies (#[trigger] before[i]).percent < x.percent by {
        if i > pos {
            assert(before[pos].percent >= before[i].percent);
        }
    }
    assert forall|i: int| 0 <= i < after.len() implies {
        &&& i < pos ==> after[i] == before[i]
        &&& i == pos ==> after[i] == x
        &&& i > pos ==> after[i] == before[i - 1]
    } by {
        if i > pos {
            assert(after[(i - 1) + 1] == before[i - 1]);
        }
    }
    assert forall|i: int| 0 <= i < before.len() implies #[trigger] before[i].key() != x.key() by {
        assert(has_key(gj, before[i].key()));
        let m = choose|m: int| 0 <= m < gj.len() && #[trigger] gj[m].key() == before[i].key();
        assert(gj[m] == groups[m]);
        assert(groups[m].key() != groups[j].key());
    }
    assert forall|i: int| 0 <= i < after.len() implies is_statistics_of(#[trigger] after[i], s) by {
        if i > pos {
            assert(after[i] == before[i - 1]);
        }
    }
    assert forall|i: int, k: int| 0 <= i < k < after.len() implies #[trigger] after[i].key()
        != #[trigger] after[k].key() by {
        if i < pos && k > pos {
            assert(after[k] == before[k - 1]);
        } else if i > pos {
            assert(after[i] == before[i - 1]);
            assert(after[k] == before[k - 1]);
        } else if i == pos {
            assert(after[k] == before[k - 1]);
        }
    }
    assert forall|i: int, k: int| 0 <= i < k < after.len() implies #[trigger] after[i].percent
        >= #[trigger] after[k].percent by {
        if i < pos && k > pos {
            assert(after[k] == before[k - 1]);
            assert(before[i].percent >= before[k - 1].percent);
        } else if i > pos {
            assert(after[i] == before[i - 1]);
            assert(after[k] == before[k - 1]);
            assert(before[i - 1].percent >= before[k - 1].percent);
        } else if i == pos {
            assert(after[k] == before[k - 1]);
        }
    }
    assert forall|i: int| 0 <= i < j + 1 implies has_key(after, #[trigger] groups[i].key()) by {
        if i == j {
            assert(after[pos].key() == groups[i].key());
        } else {
            let w = choose|w: int| 0 <= w < before.len() && #[trigger] before[w].key() == groups[i].key();
            if w < pos {
                assert(after[w].key() == groups[i].key());
            } else {
                assert(after[w + 1] == before[w]);
                assert(after[w + 1].key() == groups[i].key());
            }
        }
    }
    assert forall|i: int| 0 <= i < after.len() implies has_key(gj1, #[trigger] after[i].key()) by {
        if i == pos {
            assert(gj1[j].key() == after[i].key());
        } else {
            let b = if i < pos {
                i
            } else {
                i - 1
            };
            assert(after[i] == before[b]);
            assert(has_key(gj, before[b].key()));
            let m = choose|m: int| 0 <= m < gj.len() && #[trigger] gj[m].key() == before[b].key();
            assert(gj1[m] == gj[m]);
        }
    }
}

/// Completes each group with its average and its share of `total`, and
/// ranks the groups by decreasing share (groups of equal share keep their
/// order).
fn rank_groups(
    groups: &Vec<PerformanceCounterStatisticsRecord>,
    total: u128,
    Ghost(s): Ghost<Seq<ClocsDebugRecord>>,
) -> (r: Vec<PerformanceCounterStatisticsRecord>)
    requires
        is_grouping_of(groups@, s),
        total == total_elapsed(s),
        total_elapsed(s) <= MAX_RING_RECORDS * 0xffff_ffff_ffff_ffffint,
    ensures
        is_share_ranking_of(r@, s),
{
    let mut out: Vec<PerformanceCounterStatisticsRecord> = Vec::new();
    let mut j: usize = 0;
    proof {
        assert(groups@.take(0) =~= Seq::<PerformanceCounterStatisticsRecord>::empty());
    }
    while j < groups.len()
        invariant
            j <= groups@.len(),
            is_grouping_of(groups@, s),
            total == total_elapsed(s),
            total_elapsed(s) <= MAX_RING_RECORDS * 0xffff_ffff_ffff_ffffint,
            is_ranked_prefix(out@, groups@, j as int, s),
        decreases groups@.len() - j,
    {
        let g = groups[j].copy();
        proof {
            assert(is_group_of(groups@[j as int], s));
            lemma_group_sums_bound(s, g.key());
            assert(PERCENT_SCALE * g.sum_elapsed <= PERCENT_SCALE * total) by (nonlinear_arith)
                requires
                    g.sum_elapsed <= total,
            ;
            assert(total > 0 ==> PERCENT_SCALE * g.sum_elapsed / (total as int) <= PERCENT_SCALE)
                by (nonlinear_arith)
                requires
                    g.sum_elapsed <= total,
            ;
        }
        let elapsed_per_hit: u128 = if g.sum_hits > 0 {
            g.sum_elapsed / g.sum_hits
        } else {
            0
        };
        let percent: u32 = if total > 0 {
            ((PERCENT_SCALE as u128) * g.sum_elapsed / total) as u32
        } else {
            0
        };
        let x = PerformanceCounterStatisticsRecord {
            name: g.name,
            file_name: g.file_name,
            line: g.line,
            sum_elapsed: g.sum_elapsed,
            sum_hits: g.sum_hits,
            hits: g.hits,
            elapsed_per_hit,
            percent,
            thread_id: g.thread_id,
        };
        let mut pos: usize = 0;
        while pos < out.len() && out[pos].percent >= percent
            invariant
                pos <= out@.len(),
                forall|i: int| 0 <= i < pos ==> (#[trigger] out@[i]).percent >= percent,
            decreases out@.len() - pos,
        {
            pos = pos + 1;
        }
        proof {
            lemma_insert_ranked(out@, pos as int, x, groups@, j as int, s);
        }
        out.insert(pos, x);
        j = j + 1;
    }
    proof {
        assert(groups@.take(groups@.len() as int) =~= groups@);
        assert forall|k: CallSite| #[trigger] count_of(s, k) > 0 implies has_key(out@, k) by {
            let i = choose|i: int| 0 <= i < groups@.len() && #[trigger] groups@[i].key() == k;
        }
    }
    out
}

proof fn lemma_sum_of_percent_update(
    s: Seq<PerformanceCounterStatisticsRecord>,
    i: int,
    x: PerformanceCounterStatisticsRecord,
)
    requires
        0 <= i < s.len(),
    ensures
        sum_of_percent(s.update(i, x)) == sum_of_percent(s) - s[i].percent + x.percent,
    decreases s.len(),
{
    let t = s.update(i, x);
    if i == s.len() - 1 {
        assert(t.drop_last() =~= s.drop_last());
    } else {
        assert(t.drop_last() =~= s.drop_last().update(i, x));
        lemma_sum_of_percent_update(s.drop_last(), i, x);
    }
}

proof fn lemma_sum_of_percent_prefix(s: Seq<PerformanceCounterStatisticsRecord>, i: int)
    requires
        0 <= i <= s.len(),
    ensures
        0 <= sum_of_percent(s.take(i)) <= sum_of_percent(s),
    decreases s.len(),
{
    if s.len() > 0 {
        if i == s.len() {
            assert(s.take(i) =~= s);
            lemma_sum_of_percent_prefix(s.drop_last(), i - 1);
            assert(s.drop_last().take(i - 1) =~= s.drop_last());
        } else {
            lemma_sum_of_percent_prefix(s.drop_last(), i);
            assert(s.drop_last().take(i) =~= s.take(i));
        }
    }
}

/// Folds all records of the ring into a snapshot.
pub fn fold_frames(ring: &Vec<PerformanceCounterState>) -> (snapshot: Vec<PerformanceCounterStatisticsRecord>)
    requires
        ring_wf(ring@),
    ensures
        is_snapshot_of(snapshot@, flatten(ring@)),
{
    let (groups, total) = group_records(ring);
    let ghost s = flatten(ring@);
    proof {
        lemma_flatten_len(ring@);
        lemma_total_bound(s);
        assert(s.len() * 0xffff_ffff_ffff_ffffint <= MAX_RING_RECORDS * 0xffff_ffff_ffff_ffffint)
            by (nonlinear_arith)
            requires
                s.len() <= ring@.len() * 0xffff_ffff,
                ring@.len() <= 60,
        ;
    }
    let mut out = rank_groups(&groups, total, Ghost(s));
    if total > 0 && out.len() > 0 {
        proof {
            assert forall|i: int| 0 <= i < out@.len() implies (#[trigger] out@[i]).percent == PERCENT_SCALE
                * out@[i].sum_elapsed / (total as int) by {
                assert(is_statistics_of(out@[i], s));
            }
            lemma_percent_sum_bounds(out@, total as int);
            assert(sum_of_percent(out@) <= PERCENT_SCALE) by (nonlinear_arith)
                requires
                    sum_of_percent(out@) * total <= PERCENT_SCALE * total,
                    total > 0,
            ;
        }
        let mut sum: u32 = 0;
        let mut i: usize = 0;
        while i < out.len()
            invariant
                i <= out@.len(),
                sum_of_percent(out@) <= PERCENT_SCALE,
                sum == sum_of_percent(out@.take(i as int)),
            decreases out@.len() - i,
        {
            proof {
                assert(out@.take(i + 1).drop_last() =~= out@.take(i as int));
                lemma_sum_of_percent_prefix(out@, i + 1);
            }
            sum = sum + out[i].percent;
            i = i + 1;
        }
        proof {
            assert(out@.take(out@.len() as int) =~= out@);
        }
        let first = out[0].copy();
        let ghost before = out@;
        proof {
            lemma_sum_of_percent_prefix(out@, 1);
            let t = out@.take(1);
            assert(t.drop_last() =~= Seq::<PerformanceCounterStatisticsRecord>::empty());
            assert(sum_of_percent(t.drop_last()) == 0);
            assert(t.last() == out@[0]);
            assert(sum_of_percent(t) == out@[0].percent);
        }
        let topped = PerformanceCounterStatisticsRecord {
            name: first.name,
            file_name: first.file_name,
            line: first.line,
            sum_elapsed: first.sum_elapsed,
            sum_hits: first.sum_hits,
            hits: first.hits,
            elapsed_per_hit: first.elapsed_per_hit,
            percent: first.percent + (PERCENT_SCALE - sum),
            thread_id: first.thread_id,
        };
        out.set(0, topped);
        proof {
            lemma_sum_of_percent_update(before, 0, topped);
            assert(is_statistics_of(before[0], s));
            assert forall|i: int| 0 <= i < out@.len() implies is_record_of(#[trigger] out@[i], s) by {
                assert(is_statistics_of(before[i], s));
            }
            assert forall|i: int| 1 <= i < out@.len() implies (#[trigger] out@[i]).percent == share(
                out@[i].sum_elapsed as int,
                total_elapsed(s),
            ) by {
                assert(is_statistics_of(before[i], s));
            }
            assert forall|i: int, j: int| 0 <= i < j < out@.len() implies #[trigger] out@[i].key()
                != #[trigger] out@[j].key() by {
                assert(before[i].key() != before[j].key());
            }
            assert forall|i: int, j: int| 0 <= i < j < out@.len() implies #[trigger] out@[i].percent
                >= #[trigger] out@[j].percent by {
                assert(before[i].percent >= before[j].percent);
            }
            assert forall|k: CallSite| #[trigger] count_of(s, k) > 0 implies has_key(out@, k) by {
                assert(has_key(before, k));
                let w = choose|w: int| 0 <= w < before.len() && #[trigger] before[w].key() == k;
                assert(out@[w].key() == k);
            }
            lemma_sum_of_elapsed_update(before, 0, topped);
        }
    } else {
        proof {
            assert forall|i: int| 0 <= i < out@.len() implies is_record_of(#[trigger] out@[i], s) by {
                assert(is_statistics_of(out@[i], s));
            }
            assert forall|i: int| 1 <= i < out@.len() implies (#[trigger] out@[i]).percent == share(
                out@[i].sum_elapsed as int,
                total_elapsed(s),
            ) by {
                assert(is_statistics_of(out@[i], s));
            }
            if out@.len() > 0 {
                assert(is_statistics_of(out@[0], s));
            }
            if total > 0 {
                lemma_snapshot_not_empty(s, out@);
            }
        }
    }
    out
}

// ---------------------------------------------------------------------------
// Profiling state and its operations.
/// The profiling state: a ring of `snapshot_interval` frame record sets, the
/// frame clock, and a circular log of snapshots.
pub struct ProfileState {
    pub snapshot_interval: usize,
    /// Clock reading at the start of the current frame, in nanoseconds.
    pub frame_timer: u64,
    /// Duration of the last complete frame, in nanoseconds.
    pub frame_elapsed: u64,
    /// Frames recorded in the current window; the frame being recorded sits
    /// at `frame_counter % snapshot_interval` in the ring.
    pub frame_counter: usize,
    /// The log slot of the newest snapshot.
    pub snapshot_counter: usize,
    pub performance_counter_states: Vec<PerformanceCounterState>,
    pub performance_counter_log: Vec<PerformanceCounterStatistics>,
}

/// A scope being timed: its call site, its thread and its start time.
pub struct TimedBlock {
    pub thread_id: String,
    pub name: String,
    pub file_name: String,
    pub line: u32,
    /// Clock reading at scope entry, in nanoseconds.
    pub timer: u64,
}

impl TimedBlock {
    pub open spec fn key(&self) -> CallSite {
        (self.name@, self.file_name@, self.line)
    }

    /// Starts timing the call site `(name, file_name, line)` on thread
    /// `thread_id` at clock reading `now_ns`.
    pub fn new(name: String, file_name: String, line: u32, thread_id: String, now_ns: u64) -> (r: TimedBlock)
        ensures
            r == (TimedBlock { thread_id, name, file_name, line, timer: now_ns }),
    {
        TimedBlock { thread_id, name, file_name, line, timer: now_ns }
    }
}

/// Nanoseconds from clock reading `start` to `now` (zero if the clock reads
/// earlier than `start`).
pub open spec fn elapsed_since(start: u64, now: u64) -> u64 {
    now.saturating_sub(start)
}

/// The record of a call site's first timed scope in a frame.
pub open spec fn first_record(b: TimedBlock, elapsed: u64) -> ClocsDebugRecord {
    ClocsDebugRecord {
        name: b.name,
        file_name: b.file_name,
        line: b.line,
        elapsed,
        hits: 1,
        thread_id: b.thread_id,
    }
}

/// The record `r` of a frame with one more timed scope `b` of its call site.
pub open spec fn merged_record(r: ClocsDebugRecord, b: TimedBlock, elapsed: u64) -> ClocsDebugRecord {
    ClocsDebugRecord {
        name: b.name,
        file_name: b.file_name,
        line: b.line,
        elapsed: r.elapsed.saturating_add(elapsed),
        hits: r.hits.saturating_add(1),
        thread_id: b.thread_id,
    }
}

/// The records of a frame after the timed scope `b` ended with `elapsed`: the
/// call site's record is merged, or a new one is appended.
pub open spec fn recorded(records: Seq<ClocsDebugRecord>, b: TimedBlock, elapsed: u64) -> Seq<ClocsDebugRecord> {
    if exists|i: int| 0 <= i < records.len() && #[trigger] records[i].key() == b.key() {
        let i = choose|i: int| 0 <= i < records.len() && #[trigger] records[i].key() == b.key();
        records.update(i, merged_record(records[i], b, elapsed))
    } else {
        records.push(first_record(b, elapsed))
    }
}

impl ProfileState {
    pub open spec fn wf(&self) -> bool {
        &&& self.snapshot_interval <= MAX_SNAPSHOT_INTERVAL
        &&& self.performance_counter_states@.len() == self.snapshot_interval
        &&& ring_wf(self.performance_counter_states@)
        &&& self.frame_counter < MAX_SNAPSHOT_INTERVAL
        &&& self.snapshot_counter < PERFORMANCE_COUNTER_LOG_SIZE
        &&& self.performance_counter_log@.len() == PERFORMANCE_COUNTER_LOG_SIZE
    }

    /// The position in the ring of the frame being recorded.
    pub open spec fn current_frame(&self) -> int {
        self.frame_counter as int % self.snapshot_interval as int
    }

    /// The records of the frame being recorded.
    pub open spec fn current_records(&self) -> Seq<ClocsDebugRecord> {
        self.performance_counter_states@[self.current_frame()].records@
    }

    /// The snapshot in the newest log slot.
    pub open spec fn current_snapshot(&self) -> Seq<PerformanceCounterStatisticsRecord> {
        self.performance_counter_log@[self.snapshot_counter as int].records@
    }

    pub fn new() -> (r: ProfileState)
        ensures
            r.wf(),
            r.snapshot_interval == DEFAULT_SNAPSHOT_INTERVAL,
            r.frame_counter == 0,
            r.snapshot_counter == 0,
            r.frame_timer == 0,
            r.frame_elapsed == 0,
            forall|f: int| 0 <= f < r.performance_counter_states@.len()
                ==> (#[trigger] r.performance_counter_states@[f]).records@.len() == 0,
            forall|i: int| 0 <= i < PERFORMANCE_COUNTER_LOG_SIZE
                ==> (#[trigger] r.performance_counter_log@[i]).records@.len() == 0,
    {
        let ring = empty_ring(DEFAULT_SNAPSHOT_INTERVAL);
        let mut log: Vec<PerformanceCounterStatistics> = Vec::new();
        let mut i: usize = 0;
        while i < PERFORMANCE_COUNTER_LOG_SIZE
            invariant
                i <= PERFORMANCE_COUNTER_LOG_SIZE,
                log@.len() == i,
                forall|k: int| 0 <= k < i ==> (#[trigger] log@[k]).records@.len() == 0,
            decreases PERFORMANCE_COUNTER_LOG_SIZE - i,
        {
            log.push(PerformanceCounterStatistics::new());
            i = i + 1;
        }
        ProfileState {
            snapshot_interval: DEFAULT_SNAPSHOT_INTERVAL,
            frame_timer: 0,
            frame_elapsed: 0,
            frame_counter: 0,
            snapshot_counter: 0,
            performance_counter_states: ring,
            performance_counter_log: log,
        }
    }
}

/// A ring of `n` empty frame record sets.
fn empty_ring(n: usize) -> (ring: Vec<PerformanceCounterState>)
    requires
        n <= MAX_SNAPSHOT_INTERVAL,
    ensures
        ring@.len() == n,
        ring_wf(ring@),
        forall|f: int| 0 <= f < n ==> (#[trigger] ring@[f]).records@.len() == 0,
{
    let mut ring: Vec<PerformanceCounterState> = Vec::new();
    let mut i: usize = 0;
    while i < n
        invariant
            i <= n <= MAX_SNAPSHOT_INTERVAL,
            ring@.len() == i,
            forall|f: int| 0 <= f < i ==> (#[trigger] ring@[f]).records@.len() == 0,
        decreases n - i,
    {
        ring.push(PerformanceCounterState::new());
        i = i + 1;
    }
    ring
}

/// Ends the timed scope `block` at clock reading `now_ns`: its elapsed time
/// is merged into the current frame's record of its call site, or recorded
/// as a new record. With an empty ring nothing is recorded.
pub fn record_timed_block(profile: &mut ProfileState, block: TimedBlock, now_ns: u64)
    requires
        old(profile).wf(),
        old(profile).snapshot_interval > 0 ==> old(profile).current_records().len() < FRAME_RECORDS_LIMIT,
    ensures
        final(profile).wf(),
        final(profile).snapshot_interval == old(profile).snapshot_interval,
        final(profile).frame_timer == old(profile).frame_timer,
        final(profile).frame_elapsed == old(profile).frame_elapsed,
        final(profile).frame_counter == old(profile).frame_counter,
        final(profile).snapshot_counter == old(profile).snapshot_counter,
        final(profile).performance_counter_log@ == old(profile).performance_counter_log@,
        old(profile).snapshot_interval == 0 ==> final(profile).performance_counter_states@
            == old(profile).performance_counter_states@,
        final(profile).performance_counter_states@.len() == old(profile).performance_counter_states@.len(),
        forall|f: int| 0 <= f < old(profile).performance_counter_states@.len() && f != old(profile).current_frame()
            ==> #[trigger] final(profile).performance_counter_states@[f] == old(profile).performance_counter_states@[f],
        old(profile).snapshot_interval > 0 ==> final(profile).current_records() == recorded(
            old(profile).current_records(),
            block,
            elapsed_since(block.timer, now_ns),
        ),
{
    if profile.performance_counter_states.len() == 0 {
        return ;
    }
    let elapsed = now_ns.saturating_sub(block.timer);
    let fc = profile.frame_counter % profile.performance_counter_states.len();
    let ghost ring0 = profile.performance_counter_states@;
    let mut set = PerformanceCounterState { records: Vec::new() };
    profile.performance_counter_states.set_and_swap(fc, &mut set);
    assert(ring0[fc as int].wf());
    let ghost records0 = set.records@;
    let mut idx: usize = 0;
    let mut found = false;
    while idx < set.records.len() && !found
        invariant
            idx <= set.records@.len(),
            set.records@ == records0,
            found ==> idx < records0.len() && records0[idx as int].key() == block.key(),
            forall|j: int| 0 <= j < idx ==> (#[trigger] records0[j]).key() != block.key(),
        decreases set.records@.len() - idx + (if found { 0int } else { 1int }),
    {
        let r = &set.records[idx];
        if r.line == block.line && r.name == block.name && r.file_name == block.file_name {
            found = true;
        } else {
            idx = idx + 1;
        }
    }
    if found {
        let merged = ClocsDebugRecord {
            elapsed: set.records[idx].elapsed.saturating_add(elapsed),
            hits: set.records[idx].hits.saturating_add(1),
            name: block.name,
            file_name: block.file_name,
            line: block.line,
            thread_id: block.thread_id,
        };
        proof {
            let i = choose|i: int| 0 <= i < records0.len() && #[trigger] records0[i].key() == block.key();
            assert(i == idx) by {
                if i != idx {
                    assert(records0[i].key() != records0[idx as int].key());
                }
            }
        }
        set.records.set(idx, merged);
        proof {
            assert forall|i: int, j: int| 0 <= i < j < set.records@.len() implies #[trigger] set.records@[i].key()
                != #[trigger] set.records@[j].key() by {
                assert(records0[i].key() != records0[j].key());
            }
        }
    } else {
        let fresh = ClocsDebugRecord {
            name: block.name,
            file_name: block.file_name,
            line: block.line,
            elapsed,
            hits: 1,
            thread_id: block.thread_id,
        };
        set.records.push(fresh);
        proof {
            assert forall|i: int, j: int| 0 <= i < j < set.records@.len() implies #[trigger] set.records@[i].key()
                != #[trigger] set.records@[j].key() by {
                if j < records0.len() {
                    assert(records0[i].key() != records0[j].key());
                } else {
                    assert(records0[i].key() != block.key());
                }
            }
        }
    }
    let ghost records1 = set.records@;
    profile.performance_counter_states.set_and_swap(fc, &mut set);
    proof {
        let ring1 = profile.performance_counter_states@;
        assert(ring1[fc as int].records@ == records1);
        assert forall|f: int| 0 <= f < ring1.len() implies (#[trigger] ring1[f]).wf() by {
            if f != fc {
                assert(ring1[f] == ring0[f]);
            }
        }
    }
}

/// Starts a frame at clock reading `now_ns`.
pub fn frame_start(profile: &mut ProfileState, now_ns: u64)
    requires
        old(profile).wf(),
    ensures
        final(profile).wf(),
        *final(profile) == (ProfileState { frame_timer: now_ns, ..*old(profile) }),
{
    profile.frame_timer = now_ns;
}

/// `p` is `q` after the end of a frame at clock reading `now`: the frame's
/// duration is kept, and when the window of `snapshot_interval` frames is
/// complete, its snapshot fills the next log slot and the ring starts over
/// empty.
pub open spec fn frame_ended(p: ProfileState, q: ProfileState, now: u64) -> bool {
    &&& p.snapshot_interval == q.snapshot_interval
    &&& p.frame_timer == q.frame_timer
    &&& p.frame_elapsed == elapsed_since(q.frame_timer, now)
    &&& q.frame_counter + 1 >= q.snapshot_interval ==> {
        &&& p.frame_counter == 0
        &&& p.snapshot_counter == (q.snapshot_counter + 1) % PERFORMANCE_COUNTER_LOG_SIZE as int
        &&& is_snapshot_of(p.current_snapshot(), flatten(q.performance_counter_states@))
        &&& forall|i: int|
            0 <= i < PERFORMANCE_COUNTER_LOG_SIZE && i != p.snapshot_counter
                ==> #[trigger] p.performance_counter_log@[i] == q.performance_counter_log@[i]
        &&& p.performance_counter_states@.len() == q.performance_counter_states@.len()
        &&& forall|f: int|
            0 <= f < p.performance_counter_states@.len()
                ==> (#[trigger] p.performance_counter_states@[f]).records@.len() == 0
    }
    &&& q.frame_counter + 1 < q.snapshot_interval ==> {
        &&& p.frame_counter == q.frame_counter + 1
        &&& p.snapshot_counter == q.snapshot_counter
        &&& p.performance_counter_log@ == q.performance_counter_log@
        &&& p.performance_counter_states@ == q.performance_counter_states@
    }
}

/// Ends a frame at clock reading `now_ns`; folds the window when it is
/// complete.
pub fn frame_end(profile: &mut ProfileState, now_ns: u64)
    requires
        old(profile).wf(),
    ensures
        final(profile).wf(),
        frame_ended(*final(profile), *old(profile), now_ns),
{
    profile.frame_elapsed = now_ns.saturating_sub(profile.frame_timer);
    profile.frame_counter = profile.frame_counter + 1;
    if profile.frame_counter >= profile.snapshot_interval {
        take_snapshot(profile);
        profile.frame_counter = 0;
        profile.performance_counter_states = empty_ring(profile.snapshot_interval);
    }
}

/// Folds the ring into a snapshot written to the next log slot.
pub fn take_snapshot(profile: &mut ProfileState)
    requires
        ring_wf(old(profile).performance_counter_states@),
        old(profile).snapshot_counter < PERFORMANCE_COUNTER_LOG_SIZE,
        old(profile).performance_counter_log@.len() == PERFORMANCE_COUNTER_LOG_SIZE,
    ensures
        final(profile).snapshot_counter == (old(profile).snapshot_counter + 1) % PERFORMANCE_COUNTER_LOG_SIZE as int,
        final(profile).performance_counter_log@ == old(profile).performance_counter_log@.update(
            final(profile).snapshot_counter as int,
            final(profile).performance_counter_log@[final(profile).snapshot_counter as int],
        ),
        is_snapshot_of(final(profile).current_snapshot(), flatten(old(profile).performance_counter_states@)),
        final(profile).snapshot_interval == old(profile).snapshot_interval,
        final(profile).frame_timer == old(profile).frame_timer,
        final(profile).frame_elapsed == old(profile).frame_elapsed,
        final(profile).frame_counter == old(profile).frame_counter,
        final(profile).performance_counter_states@ == old(profile).performance_counter_states@,
{
    let records = fold_frames(&profile.performance_counter_states);
    profile.snapshot_counter = if profile.snapshot_counter + 1 >= PERFORMANCE_COUNTER_LOG_SIZE {
        0
    } else {
        profile.snapshot_counter + 1
    };
    let slot = profile.snapshot_counter;
    profile.performance_counter_log.set(slot, PerformanceCounterStatistics { records });
}

/// `p` is the ring `q` resized to `n` frames: the first frames are kept,
/// frames beyond `q`'s end are empty.
pub open spec fn ring_resized(p: Seq<PerformanceCounterState>, q: Seq<PerformanceCounterState>, n: int) -> bool {
    &&& p.len() == n
    &&& forall|f: int| 0 <= f < n && f < q.len() ==> #[trigger] p[f] == q[f]
    &&& forall|f: int| 0 <= f < n && f >= q.len() ==> (#[trigger] p[f]).records@.len() == 0
}

/// `p` is `q` after a request to set the snapshot interval to `n`: above
/// `MAX_SNAPSHOT_INTERVAL` nothing changes; otherwise the interval becomes
/// `n` and the ring is resized to `n` frames, all else unchanged.
pub open spec fn interval_updated(p: ProfileState, q: ProfileState, n: usize) -> bool {
    &&& n > MAX_SNAPSHOT_INTERVAL ==> p == q
    &&& n <= MAX_SNAPSHOT_INTERVAL ==> {
        &&& p.snapshot_interval == n
        &&& ring_resized(p.performance_counter_states@, q.performance_counter_states@, n as int)
        &&& p.frame_counter == q.frame_counter
        &&& p.snapshot_counter == q.snapshot_counter
        &&& p.performance_counter_log@ == q.performance_counter_log@
        &&& p.frame_timer == q.frame_timer
        &&& p.frame_elapsed == q.frame_elapsed
    }
}

/// Sets the snapshot interval to `new_interval` frames and resizes the ring
/// to that many frame record sets, keeping the frames that remain. An
/// interval above `MAX_SNAPSHOT_INTERVAL` is refused and nothing changes.
pub fn update_snapshot_interval(profile: &mut ProfileState, new_interval: usize)
    requires
        old(profile).wf(),
    ensures
        final(profile).wf(),
        interval_updated(*final(profile), *old(profile), new_interval),
{
    if new_interval <= MAX_SNAPSHOT_INTERVAL {
        let ghost q = profile.performance_counter_states@;
        profile.snapshot_interval = new_interval;
        profile.performance_counter_states.truncate(new_interval);
        while profile.performance_counter_states.len() < new_interval
            invariant
                new_interval <= MAX_SNAPSHOT_INTERVAL,
                profile.performance_counter_states@.len() <= new_interval,
                profile.performance_counter_states@.len() >= (if q.len() < new_interval {
                    q.len() as int
                } else {
                    new_interval as int
                }),
                forall|f: int|
                    0 <= f < profile.performance_counter_states@.len() && f < q.len()
                        ==> #[trigger] profile.performance_counter_states@[f] == q[f],
                forall|f: int|
                    0 <= f < profile.performance_counter_states@.len() && f >= q.len()
                        ==> (#[trigger] profile.performance_counter_states@[f]).records@.len() == 0,
                ring_wf(q),
                profile.snapshot_interval == new_interval,
                profile.frame_counter == old(profile).frame_counter,
                profile.snapshot_counter == old(profile).snapshot_counter,
                profile.performance_counter_log@ == old(profile).performance_counter_log@,
                profile.frame_timer == old(profile).frame_timer,
                profile.frame_elapsed == old(profile).frame_elapsed,
            decreases new_interval - profile.performance_counter_states@.len(),
        {
            profile.performance_counter_states.push(PerformanceCounterState::new());
        }
        proof {
            let p = profile.performance_counter_states@;
            assert forall|f: int| 0 <= f < p.len() implies (#[trigger] p[f]).wf() by {
                if f < q.len() {
                    assert(q[f].wf());
                }
            }
        }
    }
}

// ---------------------------------------------------------------------------
// Laws of snapshots.
proof fn lemma_percent_sum_bounds(snap: Seq<PerformanceCounterStatisticsRecord>, t: int)
    requires
        t > 0,
        forall|i: int| 0 <= i < snap.len() ==> (#[trigger] snap[i]).percent == PERCENT_SCALE * snap[i].sum_elapsed / t,
    ensures
        sum_of_percent(snap) * t <= PERCENT_SCALE * sum_of_elapsed(snap),
        sum_of_percent(snap) * t >= PERCENT_SCALE * sum_of_elapsed(snap) - snap.len() * (t - 1),
    decreases snap.len(),
{
    if snap.len() > 0 {
        let rest = snap.drop_last();
        assert forall|i: int| 0 <= i < rest.len() implies (#[trigger] rest[i]).percent == PERCENT_SCALE
            * rest[i].sum_elapsed / t by {
            assert(rest[i] == snap[i]);
        }
        lemma_percent_sum_bounds(rest, t);
        let last = snap.last();
        let a = PERCENT_SCALE * last.sum_elapsed;
        assert(last.percent == a / t);
        assert((a / t) * t <= a && (a / t) * t >= a - (t - 1)) by (nonlinear_arith)
            requires
                t > 0,
                a >= 0,
        ;
        assert(sum_of_percent(snap) * t == sum_of_percent(rest) * t + last.percent * t) by (nonlinear_arith)
            requires
                sum_of_percent(snap) == sum_of_percent(rest) + last.percent,
        ;
        assert(snap.len() * (t - 1) == rest.len() * (t - 1) + (t - 1)) by (nonlinear_arith)
            requires
                snap.len() == rest.len() + 1,
        ;
    }
}

/// The shares of a snapshot add up to the whole: when the folded window
/// holds some elapsed time, the percents of its snapshot sum to exactly 100%
/// (10000 hundredths), and every share but the first is rounded down.
pub proof fn lemma_snapshot_shares_sum(
    ring: Seq<PerformanceCounterState>,
    snap: Seq<PerformanceCounterStatisticsRecord>,
)
    requires
        is_snapshot_of(snap, flatten(ring)),
        total_elapsed(flatten(ring)) > 0,
    ensures
        sum_of_percent(snap) == PERCENT_SCALE,
        snap.len() >= 1,
        forall|i: int|
            1 <= i < snap.len() ==> (#[trigger] snap[i]).percent == PERCENT_SCALE * snap[i].sum_elapsed
                / total_elapsed(flatten(ring)),
{
    lemma_snapshot_not_empty(flatten(ring), snap);
}

/// A window with some elapsed time has a non-empty snapshot.
proof fn lemma_snapshot_not_empty(s: Seq<ClocsDebugRecord>, snap: Seq<PerformanceCounterStatisticsRecord>)
    requires
        forall|k: CallSite| #[trigger] count_of(s, k) > 0 ==> has_key(snap, k),
        total_elapsed(s) > 0,
    ensures
        snap.len() >= 1,
{
    assert(s.len() > 0);
    let k = s.last().key();
    lemma_group_sums_bound(s.drop_last(), k);
    assert(count_of(s, k) > 0);
    assert(has_key(snap, k));
}

/// A call site hit exactly once in the window has the whole of its elapsed
/// time as its elapsed time per hit.
pub proof fn lemma_single_hit_per_hit_elapsed(
    ring: Seq<PerformanceCounterState>,
    snap: Seq<PerformanceCounterStatisticsRecord>,
    i: int,
)
    requires
        is_snapshot_of(snap, flatten(ring)),
        0 <= i < snap.len(),
        snap[i].sum_hits == 1,
    ensures
        snap[i].elapsed_per_hit == snap[i].sum_elapsed,
{
    assert(is_record_of(snap[i], flatten(ring)));
}

} // verus!
