//! Retry delays given by ranges of attempt indices.
//!
//! A range gives every attempt index from its first to its last one a delay;
//! where ranges overlap, the one that was added later decides. The ranges are
//! compiled once, into a table of delays or into the maximal runs of equal
//! non-zero delays, whichever is smaller.

use crate::error::{BeaverError, BeaverResult};
use crate::ids::is_random_uuid;
use crate::listener::WorkListener;
use crate::task::{Task, TaskId};
use crate::time::Duration;
use std::sync::Arc;
use vstd::prelude::*;

verus! {

/// Attempt indices from `start_inclusive` to `end_inclusive` wait `duration_millis`.
#[derive(Clone, Copy, Debug)]
pub struct RangeIntervalRange {
    pub start_inclusive: u32,
    pub end_inclusive: u32,
    pub duration_millis: u64,
}

/// A maximal run of attempt indices with one non-zero delay.
#[derive(Clone, Copy, Debug)]
pub struct RangeDelaySegment {
    pub start_inclusive: u64,
    pub end_exclusive: u64,
    pub duration_millis: u64,
}

/// Compiled delays: a table, or the runs of equal non-zero delays in order.
#[derive(Debug)]
pub enum RangeIntervals {
    Dense(Vec<u64>),
    Segments(Vec<RangeDelaySegment>),
}

/// Tables of up to this many delays are never compressed.
pub const DENSE_LIMIT: usize = 4096;

/// Bytes of one table entry.
pub const DENSE_ENTRY_BYTES: usize = 8;

/// Bytes of one run.
pub const SEGMENT_BYTES: usize = 24;

/// Whether `range` gives attempt `index` a delay.
pub open spec fn covers(range: RangeIntervalRange, index: int) -> bool {
    range.start_inclusive <= index <= range.end_inclusive
}

/// The delay of the last range that covers `index`, or zero if none does.
pub open spec fn range_delay(ranges: Seq<RangeIntervalRange>, index: int) -> u64
    decreases ranges.len(),
{
    if ranges.len() == 0 {
        0
    } else if covers(ranges.last(), index) {
        ranges.last().duration_millis
    } else {
        range_delay(ranges.drop_last(), index)
    }
}

/// The delay of `index` among the attempts `0..total`; beyond them there is none.
pub open spec fn attempt_delay(total: u32, ranges: Seq<RangeIntervalRange>, index: int) -> u64 {
    if 0 <= index < total {
        range_delay(ranges, index)
    } else {
        0
    }
}

/// Whether a maximal run of one non-zero delay starts at `index`.
pub open spec fn run_starts(total: u32, ranges: Seq<RangeIntervalRange>, index: int) -> bool {
    &&& attempt_delay(total, ranges, index) != 0
    &&& attempt_delay(total, ranges, index - 1) != attempt_delay(total, ranges, index)
}

/// The number of maximal runs that start before `end`.
pub open spec fn run_count(total: u32, ranges: Seq<RangeIntervalRange>, end: nat) -> nat
    decreases end,
{
    if end == 0 {
        0
    } else {
        run_count(total, ranges, (end - 1) as nat) + if run_starts(total, ranges, end - 1) {
            1nat
        } else {
            0
        }
    }
}

/// A count of bytes, which saturates.
pub open spec fn capped(bytes: int) -> int {
    if bytes <= usize::MAX {
        bytes
    } else {
        usize::MAX as int
    }
}

/// Whether the delays are kept as a table: it is short, or no larger than the runs.
pub open spec fn keeps_table(total: u32, ranges: Seq<RangeIntervalRange>) -> bool {
    ||| total <= DENSE_LIMIT
    ||| capped(total * DENSE_ENTRY_BYTES) <= capped(
        run_count(total, ranges, total as nat) * SEGMENT_BYTES,
    )
}

/// A table is kept exactly if it has at most 4096 entries or takes no more bytes
/// than the runs, where byte counts saturate at `usize::MAX`.
pub proof fn lemma_keeps_table(total: u32, ranges: Seq<RangeIntervalRange>)
    ensures
        keeps_table(total, ranges) <==> (total <= 4096 || capped(total * 8) <= capped(
            (run_count(total, ranges, total as nat) * 24) as int,
        )),
{
}

/// The runs are the maximal runs of equal non-zero delays among the first `end`
/// attempts, in order.
pub open spec fn are_runs(
    segments: Seq<RangeDelaySegment>,
    total: u32,
    ranges: Seq<RangeIntervalRange>,
    end: int,
) -> bool {
    &&& forall|k: int|
        0 <= k < segments.len() ==> {
            &&& (#[trigger] segments[k]).start_inclusive < segments[k].end_exclusive
            &&& segments[k].end_exclusive <= end
            &&& segments[k].duration_millis != 0
        }
    &&& forall|j: int, k: int|
        0 <= j < k < segments.len() ==> {
            &&& (#[trigger] segments[j]).end_exclusive <= (#[trigger] segments[k]).start_inclusive
            &&& k == j + 1 && segments[j].end_exclusive == segments[k].start_inclusive
                ==> segments[j].duration_millis != segments[k].duration_millis
        }
    &&& forall|k: int, i: int|
        0 <= k < segments.len() && segments[k].start_inclusive <= i < segments[k].end_exclusive
            ==> #[trigger] attempt_delay(total, ranges, i) == (
        #[trigger] segments[k]).duration_millis
    &&& forall|i: int|
        0 <= i < end && #[trigger] attempt_delay(total, ranges, i) != 0 ==> exists|k: int|
            0 <= k < segments.len() && (#[trigger] segments[k]).start_inclusive <= i
                < segments[k].end_exclusive
}

/// Runs are not empty, in order and do not overlap.
pub open spec fn runs_ordered(segments: Seq<RangeDelaySegment>) -> bool {
    &&& forall|k: int|
        0 <= k < segments.len() ==> (#[trigger] segments[k]).start_inclusive
            < segments[k].end_exclusive
    &&& forall|j: int, k: int|
        0 <= j < k < segments.len() ==> (#[trigger] segments[j]).end_exclusive <= (
        #[trigger] segments[k]).start_inclusive
}

/// The number of runs that start at or before `index`, by bisection.
fn runs_starting_by(segments: &Vec<RangeDelaySegment>, index: u64) -> (position: usize)
    requires
        runs_ordered(segments@),
    ensures
        position <= segments.len(),
        forall|k: int| 0 <= k < position ==> (#[trigger] segments@[k]).start_inclusive <= index,
        forall|k: int|
            position <= k < segments.len() ==> index < (#[trigger] segments@[k]).start_inclusive,
{
    let mut low: usize = 0;
    let mut high: usize = segments.len();
    while low < high
        invariant
            runs_ordered(segments@),
            0 <= low <= high <= segments.len(),
            forall|k: int| 0 <= k < low ==> (#[trigger] segments@[k]).start_inclusive <= index,
            forall|k: int|
                high <= k < segments.len() ==> index < (#[trigger] segments@[k]).start_inclusive,
        decreases high - low,
    {
        let middle: usize = low + (high - low) / 2;
        assert forall|j: int, k: int| 0 <= j < k < segments.len() implies (
        #[trigger] segments@[j]).start_inclusive < (#[trigger] segments@[k]).start_inclusive by {
            assert(segments@[j].end_exclusive <= segments@[k].start_inclusive);
        }
        if segments[middle].start_inclusive <= index {
            low = middle + 1;
        } else {
            high = middle;
        }
    }
    low
}

impl RangeIntervals {
    /// Whether these are the delays that `ranges` give to the attempts `0..total`.
    pub open spec fn compiles(
        &self,
        total: u32,
        ranges: Seq<RangeIntervalRange>,
    ) -> bool {
        match *self {
            RangeIntervals::Dense(table) => {
                &&& table.len() == total
                &&& forall|i: int| 0 <= i < total ==> #[trigger] table@[i] == range_delay(ranges, i)
            },
            RangeIntervals::Segments(segments) => {
                are_runs(segments@, total, ranges, total as int)
            },
        }
    }

    /// The delay of `index` as the compiled form has it.
    pub open spec fn delay(&self, index: int) -> u64 {
        match *self {
            RangeIntervals::Dense(table) => if 0 <= index < table.len() {
                table@[index]
            } else {
                0
            },
            RangeIntervals::Segments(segments) => if exists|k: int|
                0 <= k < segments.len() && (#[trigger] segments@[k]).start_inclusive <= index
                    < segments@[k].end_exclusive {
                let k = choose|k: int|
                    0 <= k < segments.len() && (#[trigger] segments@[k]).start_inclusive <= index
                        < segments@[k].end_exclusive;
                segments@[k].duration_millis
            } else {
                0
            },
        }
    }

    /// Whether runs, if the delays are kept as runs, are in order and do not overlap.
    pub open spec fn ordered(&self) -> bool {
        match *self {
            RangeIntervals::Dense(_) => true,
            RangeIntervals::Segments(segments) => runs_ordered(segments@),
        }
    }

    /// The delay of an attempt, found by index or by bisection of the runs.
    pub fn delay_at(&self, attempt_index: usize) -> (millis: u64)
        requires
            self.ordered(),
        ensures
            millis == self.delay(attempt_index as int),
    {
        match self {
            RangeIntervals::Dense(intervals) => {
                if attempt_index < intervals.len() {
                    intervals[attempt_index]
                } else {
                    0
                }
            },
            RangeIntervals::Segments(segments) => {
                let index: u64 = attempt_index as u64;
                let position: usize = runs_starting_by(segments, index);
                if position == 0 {
                    return 0;
                }
                let segment = segments[position - 1];
                if index < segment.end_exclusive {
                    assert(segments@[position - 1].start_inclusive <= index < segments@[position
                        - 1].end_exclusive);
                    segment.duration_millis
                } else {
                    assert forall|k: int| 0 <= k < segments.len() implies !((
                    #[trigger] segments@[k]).start_inclusive <= index
                        < segments@[k].end_exclusive) by {
                        if k < position - 1 {
                            assert(segments@[k].end_exclusive <= segments@[position
                                - 1].start_inclusive);
                        }
                    }
                    0
                }
            },
        }
    }
}

/// Delays that `ranges` compile to are in order, and give each attempt the delay
/// of the last range that covers it; attempts beyond `total` get none.
pub proof fn lemma_compiled_delay(
    intervals: RangeIntervals,
    total: u32,
    ranges: Seq<RangeIntervalRange>,
    index: int,
)
    requires
        intervals.compiles(total, ranges),
        0 <= index,
    ensures
        intervals.ordered(),
        intervals.delay(index) == attempt_delay(total, ranges, index),
{
    match intervals {
        RangeIntervals::Dense(_) => {},
        RangeIntervals::Segments(segments) => {
            if exists|k: int|
                0 <= k < segments.len() && (#[trigger] segments@[k]).start_inclusive <= index
                    < segments@[k].end_exclusive {
            } else {
                assert(attempt_delay(total, ranges, index) == 0);
            }
        },
    }
}

/// A range clipped to the attempts, with its position among the added ranges.
#[derive(Clone, Copy)]
struct ClippedRange {
    start: u64,
    end_exclusive: u64,
    priority: usize,
    duration_millis: u64,
}

spec fn clipped_end(range: RangeIntervalRange, total: int) -> int {
    if range.end_inclusive + 1 <= total {
        range.end_inclusive + 1
    } else {
        total
    }
}

spec fn clip(range: RangeIntervalRange, total: int, priority: int) -> ClippedRange {
    ClippedRange {
        start: range.start_inclusive as u64,
        end_exclusive: clipped_end(range, total) as u64,
        priority: priority as usize,
        duration_millis: range.duration_millis,
    }
}

spec fn is_kept(range: RangeIntervalRange, total: int) -> bool {
    range.start_inclusive < clipped_end(range, total)
}

/// `clipped` holds the kept ranges among the first `count`, by start.
spec fn is_clipped(
    clipped: Seq<ClippedRange>,
    ranges: Seq<RangeIntervalRange>,
    total: int,
    count: int,
) -> bool {
    &&& forall|k: int|
        0 <= k < clipped.len() ==> {
            &&& 0 <= (#[trigger] clipped[k]).priority < count
            &&& is_kept(ranges[clipped[k].priority as int], total)
            &&& clipped[k] == clip(
                ranges[clipped[k].priority as int],
                total,
                clipped[k].priority as int,
            )
        }
    &&& forall|p: int|
        0 <= p < count && is_kept(#[trigger] ranges[p], total) ==> exists|k: int|
            0 <= k < clipped.len() && (#[trigger] clipped[k]).priority == p
    &&& forall|j: int, k: int|
        0 <= j < k < clipped.len() ==> (#[trigger] clipped[j]).start <= (
        #[trigger] clipped[k]).start
    &&& forall|j: int, k: int|
        0 <= j < k < clipped.len() ==> (#[trigger] clipped[j]).priority != (
        #[trigger] clipped[k]).priority
}

spec fn strictly_ascending(values: Seq<u64>) -> bool {
    forall|j: int, k: int| 0 <= j < k < values.len() ==> values[j] < values[k]
}

/// Inserts `value` into an ascending list unless it is there.
fn insert_boundary(values: &mut Vec<u64>, value: u64)
    requires
        strictly_ascending(old(values)@),
    ensures
        strictly_ascending(final(values)@),
        forall|x: u64| #[trigger]
            final(values)@.contains(x) <==> old(values)@.contains(x) || x == value,
{
    let mut low: usize = 0;
    let mut high: usize = values.len();
    while low < high
        invariant
            strictly_ascending(values@),
            values@ == old(values)@,
            0 <= low <= high <= values.len(),
            forall|k: int| 0 <= k < low ==> values@[k] < value,
            forall|k: int| high <= k < values.len() ==> value <= values@[k],
        decreases high - low,
    {
        let middle: usize = low + (high - low) / 2;
        if values[middle] < value {
            low = middle + 1;
        } else {
            high = middle;
        }
    }
    if low < values.len() && values[low] == value {
        assert(values@[low as int] == value);
        return ;
    }
    values.insert(low, value);
    proof {
        let before = old(values)@;
        let after = values@;
        assert(after[low as int] == value);
        assert forall|x: u64| #[trigger] after.contains(x) implies before.contains(x) || x
            == value by {
            let k = after.index_of(x);
            if k < low {
                assert(before[k] == x);
            } else if k > low {
                assert(before[k - 1] == x);
            }
        }
        assert forall|x: u64| before.contains(x) || x == value implies #[trigger] after.contains(
            x,
        ) by {
            if x != value {
                let k = before.index_of(x);
                if k < low {
                    assert(after[k] == x);
                } else {
                    assert(after[k + 1] == x);
                }
            }
        }
        assert forall|j: int, k: int| 0 <= j < k < after.len() implies after[j] < after[k] by {
            let j0 = if j <= low {
                j
            } else {
                j - 1
            };
            let k0 = if k <= low {
                k
            } else {
                k - 1
            };
            if j < low && k == low {
            } else if j == low {
                assert(before[k - 1] >= value);
                assert(before[low as int] != value);
                assert(before[low as int] <= before[k - 1]);
            } else {
                assert(after[j] == before[j0]);
                assert(after[k] == before[k0]);
            }
        }
    }
}

/// Inserts `range` behind all ranges that start no later.
fn insert_by_start(clipped: &mut Vec<ClippedRange>, range: ClippedRange) -> (at: usize)
    requires
        forall|j: int, k: int|
            0 <= j < k < old(clipped).len() ==> (#[trigger] old(clipped)@[j]).start <= (
            #[trigger] old(clipped)@[k]).start,
    ensures
        at <= old(clipped).len(),
        final(clipped)@ == old(clipped)@.insert(at as int, range),
        forall|j: int, k: int|
            0 <= j < k < final(clipped).len() ==> (#[trigger] final(clipped)@[j]).start <= (
            #[trigger] final(clipped)@[k]).start,
{
    let mut low: usize = 0;
    let mut high: usize = clipped.len();
    while low < high
        invariant
            clipped@ == old(clipped)@,
            0 <= low <= high <= clipped.len(),
            forall|j: int, k: int|
                0 <= j < k < clipped.len() ==> (#[trigger] clipped@[j]).start <= (
                #[trigger] clipped@[k]).start,
            forall|k: int| 0 <= k < low ==> (#[trigger] clipped@[k]).start <= range.start,
            forall|k: int|
                high <= k < clipped.len() ==> range.start < (#[trigger] clipped@[k]).start,
        decreases high - low,
    {
        let middle: usize = low + (high - low) / 2;
        if clipped[middle].start <= range.start {
            low = middle + 1;
        } else {
            high = middle;
        }
    }
    clipped.insert(low, range);
    low
}

/// Inserts `range` into a list that ascends by priority.
fn insert_by_priority(active: &mut Vec<ClippedRange>, range: ClippedRange) -> (at: usize)
    requires
        forall|j: int, k: int|
            0 <= j < k < old(active).len() ==> (#[trigger] old(active)@[j]).priority < (
            #[trigger] old(active)@[k]).priority,
        forall|k: int|
            0 <= k < old(active).len() ==> (#[trigger] old(active)@[k]).priority != range.priority,
    ensures
        at <= old(active).len(),
        final(active)@ == old(active)@.insert(at as int, range),
        forall|j: int, k: int|
            0 <= j < k < final(active).len() ==> (#[trigger] final(active)@[j]).priority < (
            #[trigger] final(active)@[k]).priority,
{
    let mut low: usize = 0;
    let mut high: usize = active.len();
    while low < high
        invariant
            active@ == old(active)@,
            0 <= low <= high <= active.len(),
            forall|j: int, k: int|
                0 <= j < k < active.len() ==> (#[trigger] active@[j]).priority < (
                #[trigger] active@[k]).priority,
            forall|k: int|
                0 <= k < active.len() ==> (#[trigger] active@[k]).priority != range.priority,
            forall|k: int| 0 <= k < low ==> (#[trigger] active@[k]).priority < range.priority,
            forall|k: int|
                high <= k < active.len() ==> range.priority < (#[trigger] active@[k]).priority,
        decreases high - low,
    {
        let middle: usize = low + (high - low) / 2;
        if active[middle].priority < range.priority {
            low = middle + 1;
        } else {
            high = middle;
        }
    }
    active.insert(low, range);
    low
}

/// If `p` covers `index` and no later range does, `p` gives the delay.
proof fn lemma_range_delay_winner(ranges: Seq<RangeIntervalRange>, index: int, p: int)
    requires
        0 <= p < ranges.len(),
        covers(ranges[p], index),
        forall|q: int| p < q < ranges.len() ==> !covers(#[trigger] ranges[q], index),
    ensures
        range_delay(ranges, index) == ranges[p].duration_millis,
    decreases ranges.len(),
{
    if p < ranges.len() - 1 {
        assert(!covers(ranges[ranges.len() - 1], index));
        let shorter = ranges.drop_last();
        assert(forall|q: int| 0 <= q < shorter.len() ==> shorter[q] == ranges[q]);
        lemma_range_delay_winner(shorter, index, p);
    }
}

/// If no range covers `index`, it has no delay.
proof fn lemma_range_delay_none(ranges: Seq<RangeIntervalRange>, index: int)
    requires
        forall|q: int| 0 <= q < ranges.len() ==> !covers(#[trigger] ranges[q], index),
    ensures
        range_delay(ranges, index) == 0,
    decreases ranges.len(),
{
    if ranges.len() > 0 {
        assert(!covers(ranges[ranges.len() - 1], index));
        let shorter = ranges.drop_last();
        assert(forall|q: int| 0 <= q < shorter.len() ==> shorter[q] == ranges[q]);
        lemma_range_delay_none(shorter, index);
    }
}

/// Indices that the same ranges cover have the same delay.
proof fn lemma_range_delay_same(ranges: Seq<RangeIntervalRange>, i: int, j: int)
    requires
        forall|q: int|
            0 <= q < ranges.len() ==> covers(#[trigger] ranges[q], i) == covers(ranges[q], j),
    ensures
        range_delay(ranges, i) == range_delay(ranges, j),
    decreases ranges.len(),
{
    if ranges.len() > 0 {
        let last = ranges[ranges.len() - 1];
        assert(covers(last, i) == covers(last, j));
        let shorter = ranges.drop_last();
        assert(forall|q: int| 0 <= q < shorter.len() ==> shorter[q] == ranges[q]);
        lemma_range_delay_same(shorter, i, j);
    }
}

/// Over indices of one delay, at most the first starts a run.
proof fn lemma_run_count_block(
    total: u32,
    ranges: Seq<RangeIntervalRange>,
    start: nat,
    end: nat,
    delay: u64,
)
    requires
        start < end <= total,
        forall|i: int|
            start <= i < end ==> #[trigger] attempt_delay(total, ranges, i) == delay,
    ensures
        run_count(total, ranges, end) == run_count(total, ranges, start) + if run_starts(
            total,
            ranges,
            start as int,
        ) {
            1nat
        } else {
            0
        },
    decreases end - start,
{
    assert(attempt_delay(total, ranges, end - 1) == delay);
    if end - 1 > start {
        assert(attempt_delay(total, ranges, end - 2) == delay);
        lemma_run_count_block(total, ranges, start, (end - 1) as nat, delay);
        assert(!run_starts(total, ranges, end - 1));
    }
}

/// Every range's start and clipped end is a boundary.
spec fn bounds_all(
    boundaries: Seq<u64>,
    ranges: Seq<RangeIntervalRange>,
    total: int,
    count: int,
) -> bool {
    forall|p: int|
        0 <= p < count && is_kept(#[trigger] ranges[p], total) ==> {
            &&& boundaries.contains(ranges[p].start_inclusive as u64)
            &&& boundaries.contains(clipped_end(ranges[p], total) as u64)
        }
}

/// Between two neighbouring boundaries the same ranges cover every index.
proof fn lemma_window_uniform(
    boundaries: Seq<u64>,
    ranges: Seq<RangeIntervalRange>,
    total: u32,
    w: int,
    i: int,
)
    requires
        strictly_ascending(boundaries),
        bounds_all(boundaries, ranges, total as int, ranges.len() as int),
        0 <= w < boundaries.len() - 1,
        boundaries[w] <= i < boundaries[w + 1],
        boundaries[w + 1] <= total,
    ensures
        range_delay(ranges, i) == range_delay(ranges, boundaries[w] as int),
{
    let s = boundaries[w] as int;
    assert forall|q: int| 0 <= q < ranges.len() implies covers(#[trigger] ranges[q], i) == covers(
        ranges[q],
        s,
    ) by {
        let range = ranges[q];
        if is_kept(range, total as int) {
            let first = range.start_inclusive as u64;
            let end = clipped_end(range, total as int) as u64;
            let a = boundaries.index_of(first);
            let b = boundaries.index_of(end);
            assert(boundaries[a] == first && boundaries[b] == end);
            if a <= w {
                assert(boundaries[a] <= boundaries[w]);
            } else {
                assert(boundaries[w + 1] <= boundaries[a]);
            }
            if b <= w {
                assert(boundaries[b] <= boundaries[w]);
            } else {
                assert(boundaries[w + 1] <= boundaries[b]);
            }
        }
    }
    lemma_range_delay_same(ranges, i, s);
}

/// Sweep invariant: every clipped range before `next` is active or ended by `at`.
spec fn is_active(
    active: Seq<ClippedRange>,
    clipped: Seq<ClippedRange>,
    next: int,
    at: int,
) -> bool {
    &&& forall|j: int, k: int|
        0 <= j < k < active.len() ==> (#[trigger] active[j]).priority < (
        #[trigger] active[k]).priority
    &&& forall|j: int|
        0 <= j < active.len() ==> exists|k: int|
            0 <= k < next && #[trigger] clipped[k] == #[trigger] active[j]
    &&& forall|k: int|
        0 <= k < next ==> (#[trigger] clipped[k]).end_exclusive <= at || active.contains(
            clipped[k],
        )
}

/// The active range of the highest priority, if it covers `at`, gives the delay.
proof fn lemma_active_winner(
    active: Seq<ClippedRange>,
    clipped: Seq<ClippedRange>,
    ranges: Seq<RangeIntervalRange>,
    total: u32,
    next: int,
    at: int,
)
    requires
        is_clipped(clipped, ranges, total as int, ranges.len() as int),
        is_active(active, clipped, next, at),
        0 <= next <= clipped.len(),
        0 <= at < total,
        forall|k: int| 0 <= k < next ==> (#[trigger] clipped[k]).start <= at,
        forall|k: int| next <= k < clipped.len() ==> at < (#[trigger] clipped[k]).start,
        active.len() > 0 ==> at < active.last().end_exclusive,
    ensures
        range_delay(ranges, at) == if active.len() > 0 {
            active.last().duration_millis
        } else {
            0
        },
{
    assert forall|q: int|
        0 <= q < ranges.len() && covers(#[trigger] ranges[q], at) implies active.len() > 0 && q
        <= active.last().priority by {
        assert(is_kept(ranges[q], total as int));
        let k = choose|k: int|
            0 <= k < clipped.len() && (#[trigger] clipped[k]).priority == q;
        assert(clipped[k] == clip(ranges[q], total as int, q));
        assert(clipped[k].start <= at < clipped[k].end_exclusive);
        assert(k < next);
        assert(active.contains(clipped[k]));
        let j = active.index_of(clipped[k]);
        assert(active[j].priority == q);
        if j < active.len() - 1 {
            assert(active[j].priority < active[active.len() - 1].priority);
        }
    }
    if active.len() > 0 {
        let top = active.last();
        assert(active[active.len() - 1] == top);
        let k = choose|k: int| 0 <= k < next && #[trigger] clipped[k] == top;
        assert(clipped[k] == clip(
            ranges[clipped[k].priority as int],
            total as int,
            clipped[k].priority as int,
        ));
        assert(covers(ranges[top.priority as int], at));
        lemma_range_delay_winner(ranges, at, top.priority as int);
    } else {
        lemma_range_delay_none(ranges, at);
    }
}

/// Extends the runs of the attempts before `start` by a window of one delay.
fn extend_runs(
    segments: &mut Vec<RangeDelaySegment>,
    total: u32,
    ranges: &Vec<RangeIntervalRange>,
    start: u64,
    end_exclusive: u64,
    duration_millis: u64,
)
    requires
        are_runs(old(segments)@, total, ranges@, start as int),
        old(segments).len() == run_count(total, ranges@, start as nat),
        start < end_exclusive <= total,
        forall|i: int|
            start <= i < end_exclusive ==> #[trigger] attempt_delay(total, ranges@, i)
                == duration_millis,
    ensures
        are_runs(final(segments)@, total, ranges@, end_exclusive as int),
        final(segments).len() == run_count(total, ranges@, end_exclusive as nat),
{
    proof {
        lemma_run_count_block(
            total,
            ranges@,
            start as nat,
            end_exclusive as nat,
            duration_millis,
        );
        assert(attempt_delay(total, ranges@, start as int) == duration_millis);
    }
    let ghost before = segments@;
    if duration_millis == 0 {
        assert forall|i: int|
            0 <= i < end_exclusive && #[trigger] attempt_delay(total, ranges@, i)
                != 0 implies exists|k: int|
            0 <= k < before.len() && (#[trigger] before[k]).start_inclusive <= i
                < before[k].end_exclusive by {
            assert(i < start);
        }
        return ;
    }
    let count: usize = segments.len();
    if count > 0 {
        let last = segments[count - 1];
        if last.end_exclusive == start && last.duration_millis == duration_millis {
            let merged = RangeDelaySegment { end_exclusive, ..last };
            segments.set(count - 1, merged);
            proof {
                let after = segments@;
                assert(before[count - 1].start_inclusive <= start - 1
                    < before[count - 1].end_exclusive);
                assert(attempt_delay(total, ranges@, start - 1) == duration_millis);
                assert forall|i: int|
                    0 <= i < end_exclusive && #[trigger] attempt_delay(total, ranges@, i)
                        != 0 implies exists|k: int|
                    0 <= k < after.len() && (#[trigger] after[k]).start_inclusive <= i
                        < after[k].end_exclusive by {
                    if i < start {
                        let k = choose|k: int|
                            0 <= k < before.len() && (#[trigger] before[k]).start_inclusive <= i
                                < before[k].end_exclusive;
                        assert(after[k].start_inclusive <= i < after[k].end_exclusive);
                    } else {
                        assert(after[count - 1].start_inclusive <= i
                            < after[count - 1].end_exclusive);
                    }
                }
            }
            return ;
        }
    }
    proof {
        if start > 0 && attempt_delay(total, ranges@, start - 1) == duration_millis {
            let k = choose|k: int|
                0 <= k < before.len() && (#[trigger] before[k]).start_inclusive <= start - 1
                    < before[k].end_exclusive;
            if k < before.len() - 1 {
                assert(before[k].end_exclusive <= before[before.len() - 1].start_inclusive);
                assert(before[before.len() - 1].end_exclusive <= start);
            }
            assert(false);
        }
        assert(run_starts(total, ranges@, start as int));
    }
    segments.push(RangeDelaySegment { start_inclusive: start, end_exclusive, duration_millis });
    proof {
        let after = segments@;
        assert forall|i: int|
            0 <= i < end_exclusive && #[trigger] attempt_delay(total, ranges@, i)
                != 0 implies exists|k: int|
            0 <= k < after.len() && (#[trigger] after[k]).start_inclusive <= i
                < after[k].end_exclusive by {
            if i < start {
                let k = choose|k: int|
                    0 <= k < before.len() && (#[trigger] before[k]).start_inclusive <= i
                        < before[k].end_exclusive;
                assert(after[k].start_inclusive <= i < after[k].end_exclusive);
            } else {
                assert(after[before.len() as int].start_inclusive <= i
                    < after[before.len() as int].end_exclusive);
            }
        }
    }
}

/// The maximal runs of equal non-zero delays among all attempts, found by a sweep
/// over the boundaries of the ranges.
fn compile_runs(total: u32, ranges: &Vec<RangeIntervalRange>) -> (segments: Vec<RangeDelaySegment>)
    requires
        total > 0,
    ensures
        are_runs(segments@, total, ranges@, total as int),
        segments.len() == run_count(total, ranges@, total as nat),
{
    let limit: u64 = total as u64;
    let mut clipped: Vec<ClippedRange> = Vec::new();
    let mut boundaries: Vec<u64> = Vec::new();
    boundaries.push(0);
    boundaries.push(limit);
    assert(boundaries@[0] == 0 && boundaries@[1] == limit);
    let mut priority: usize = 0;
    while priority < ranges.len()
        invariant
            limit == total,
            total > 0,
            priority <= ranges.len(),
            is_clipped(clipped@, ranges@, total as int, priority as int),
            strictly_ascending(boundaries@),
            bounds_all(boundaries@, ranges@, total as int, priority as int),
            boundaries@.contains(0),
            boundaries@.contains(limit),
            forall|x: u64| #[trigger] boundaries@.contains(x) ==> x <= limit,
        decreases ranges.len() - priority,
    {
        let range = ranges[priority];
        let start: u64 = range.start_inclusive as u64;
        let past: u64 = range.end_inclusive as u64 + 1;
        let end_exclusive: u64 = if past <= limit {
            past
        } else {
            limit
        };
        if start < end_exclusive {
            let ghost before = clipped@;
            let entry = ClippedRange {
                start,
                end_exclusive,
                priority,
                duration_millis: range.duration_millis,
            };
            let at = insert_by_start(&mut clipped, entry);
            insert_boundary(&mut boundaries, start);
            insert_boundary(&mut boundaries, end_exclusive);
            proof {
                let after = clipped@;
                assert(after[at as int] == entry);
                assert forall|p: int|
                    0 <= p < priority + 1 && is_kept(
                        #[trigger] ranges@[p],
                        total as int,
                    ) implies exists|k: int|
                    0 <= k < after.len() && (#[trigger] after[k]).priority == p by {
                    if p == priority {
                        assert(after[at as int].priority == p);
                    } else {
                        let k = choose|k: int|
                            0 <= k < before.len() && (#[trigger] before[k]).priority == p;
                        if k < at {
                            assert(after[k].priority == p);
                        } else {
                            assert(after[k + 1].priority == p);
                        }
                    }
                }
                assert forall|k: int| 0 <= k < after.len() implies {
                    &&& 0 <= (#[trigger] after[k]).priority < priority + 1
                    &&& is_kept(ranges@[after[k].priority as int], total as int)
                    &&& after[k] == clip(
                        ranges@[after[k].priority as int],
                        total as int,
                        after[k].priority as int,
                    )
                } by {
                    if k < at {
                        assert(after[k] == before[k]);
                    } else if k > at {
                        assert(after[k] == before[k - 1]);
                    }
                }
                assert forall|j: int, k: int| 0 <= j < k < after.len() implies (
                #[trigger] after[j]).priority != (#[trigger] after[k]).priority by {
                    let j0 = if j <= at {
                        j
                    } else {
                        j - 1
                    };
                    let k0 = if k <= at {
                        k
                    } else {
                        k - 1
                    };
                    if j == at {
                        assert(after[k] == before[k0]);
                    } else if k == at {
                        assert(after[j] == before[j0]);
                    } else {
                        assert(after[j] == before[j0]);
                        assert(after[k] == before[k0]);
                    }
                }
            }
        }
        priority = priority + 1;
    }
    proof {
        let b = boundaries@;
        let zero = b.index_of(0);
        let top = b.index_of(limit);
        assert(b[zero] == 0 && b[top] == limit);
        assert(b.contains(b[0]));
        assert(b.contains(b[b.len() - 1]));
        if zero > 0 {
            assert(b[0] < b[zero]);
        }
        if top < b.len() - 1 {
            assert(b[top] < b[b.len() - 1]);
        }
        if b.len() < 2 {
            assert(zero == top);
        }
    }
    let mut active: Vec<ClippedRange> = Vec::new();
    let mut next: usize = 0;
    let mut segments: Vec<RangeDelaySegment> = Vec::new();
    let mut w: usize = 0;
    while w < boundaries.len() - 1
        invariant
            limit == total,
            is_clipped(clipped@, ranges@, total as int, ranges.len() as int),
            strictly_ascending(boundaries@),
            bounds_all(boundaries@, ranges@, total as int, ranges.len() as int),
            boundaries.len() >= 2,
            boundaries@[0] == 0,
            boundaries@[boundaries.len() - 1] == limit,
            0 <= w <= boundaries.len() - 1,
            0 <= next <= clipped.len(),
            forall|k: int|
                0 <= k < next ==> (#[trigger] clipped@[k]).start <= boundaries@[w as int],
            is_active(active@, clipped@, next as int, boundaries@[w as int] as int),
            are_runs(segments@, total, ranges@, boundaries@[w as int] as int),
            segments.len() == run_count(total, ranges@, boundaries@[w as int] as nat),
        decreases boundaries.len() - w,
    {
        let start: u64 = boundaries[w];
        let end_exclusive: u64 = boundaries[w + 1];
        proof {
            assert(start < end_exclusive);
            if w + 1 < boundaries.len() - 1 {
                assert(boundaries@[w + 1] < boundaries@[boundaries.len() - 1]);
            }
        }
        while next < clipped.len() && clipped[next].start <= start
            invariant
                is_clipped(clipped@, ranges@, total as int, ranges.len() as int),
                0 <= next <= clipped.len(),
                forall|k: int| 0 <= k < next ==> (#[trigger] clipped@[k]).start <= start,
                is_active(active@, clipped@, next as int, start as int),
            decreases clipped.len() - next,
        {
            let ghost before = active@;
            let entry = clipped[next];
            assert forall|j: int| 0 <= j < active.len() implies (
            #[trigger] active@[j]).priority != entry.priority by {
                let k = choose|k: int| 0 <= k < next && #[trigger] clipped@[k] == active@[j];
                assert(clipped@[k].priority != clipped@[next as int].priority);
            }
            let at = insert_by_priority(&mut active, entry);
            proof {
                let after = active@;
                assert(after[at as int] == entry);
                assert(clipped@[next as int] == entry);
                assert forall|j: int| 0 <= j < after.len() implies exists|k: int|
                    0 <= k < next + 1 && #[trigger] clipped@[k] == #[trigger] after[j] by {
                    if j == at {
                        assert(clipped@[next as int] == after[j]);
                    } else {
                        let j0 = if j < at {
                            j
                        } else {
                            j - 1
                        };
                        assert(after[j] == before[j0]);
                        let k = choose|k: int| 0 <= k < next && #[trigger] clipped@[k] == before[j0];
                        assert(clipped@[k] == after[j]);
                    }
                }
                assert forall|k: int| 0 <= k < next + 1 implies (
                #[trigger] clipped@[k]).end_exclusive <= start || after.contains(clipped@[k]) by {
                    if k == next {
                        assert(after.contains(entry));
                    } else if before.contains(clipped@[k]) {
                        let j = before.index_of(clipped@[k]);
                        if j < at {
                            assert(after[j] == clipped@[k]);
                        } else {
                            assert(after[j + 1] == clipped@[k]);
                        }
                    }
                }
            }
            next = next + 1;
        }
        while active.len() > 0 && active[active.len() - 1].end_exclusive <= start
            invariant
                is_active(active@, clipped@, next as int, start as int),
            decreases active.len(),
        {
            let ghost before = active@;
            active.pop();
            proof {
                let after = active@;
                assert forall|k: int| 0 <= k < next implies (#[trigger] clipped@[k]).end_exclusive
                    <= start || after.contains(clipped@[k]) by {
                    if before.contains(clipped@[k]) {
                        let j = before.index_of(clipped@[k]);
                        if j < after.len() {
                            assert(after[j] == clipped@[k]);
                        }
                    }
                }
                assert forall|j: int| 0 <= j < after.len() implies exists|k: int|
                    0 <= k < next && #[trigger] clipped@[k] == #[trigger] after[j] by {
                    assert(after[j] == before[j]);
                }
            }
        }
        let duration_millis: u64 = if active.len() > 0 {
            active[active.len() - 1].duration_millis
        } else {
            0
        };
        proof {
            assert forall|k: int| next <= k < clipped.len() implies start < (
            #[trigger] clipped@[k]).start by {
                if k > next {
                    assert(clipped@[next as int].start <= clipped@[k].start);
                }
            }
            lemma_active_winner(active@, clipped@, ranges@, total, next as int, start as int);
            assert forall|i: int| start <= i < end_exclusive implies #[trigger] attempt_delay(
                total,
                ranges@,
                i,
            ) == duration_millis by {
                lemma_window_uniform(boundaries@, ranges@, total, w as int, i);
            }
        }
        extend_runs(&mut segments, total, ranges, start, end_exclusive, duration_millis);
        proof {
            assert forall|k: int| 0 <= k < next implies (#[trigger] clipped@[k]).end_exclusive
                <= end_exclusive || active@.contains(clipped@[k]) by {}
        }
        w = w + 1;
    }
    segments
}

/// Compiles ranges into the delays of the attempts `0..total_retries`.
pub fn compile_intervals(
    total_retries: u32,
    ranges: &Vec<RangeIntervalRange>,
) -> (intervals: RangeIntervals)
    ensures
        intervals.compiles(total_retries, ranges@),
        intervals is Dense <==> keeps_table(total_retries, ranges@),
        intervals matches RangeIntervals::Segments(segments) ==> segments.len() == run_count(
            total_retries,
            ranges@,
            total_retries as nat,
        ),
{
    if total_retries == 0 {
        return RangeIntervals::Dense(Vec::new());
    }
    let segments = compile_runs(total_retries, ranges);
    let total: usize = total_retries as usize;
    let dense_bytes: usize = match total.checked_mul(DENSE_ENTRY_BYTES) {
        Some(bytes) => bytes,
        None => usize::MAX,
    };
    let segment_bytes: usize = match segments.len().checked_mul(SEGMENT_BYTES) {
        Some(bytes) => bytes,
        None => usize::MAX,
    };
    if total <= DENSE_LIMIT || dense_bytes <= segment_bytes {
        let mut dense: Vec<u64> = Vec::with_capacity(total);
        let mut next: usize = 0;
        while next < total
            invariant
                next <= total,
                total == total_retries,
                dense.len() == next,
                forall|i: int| 0 <= i < next ==> #[trigger] dense@[i] == 0,
            decreases total - next,
        {
            dense.push(0);
            next = next + 1;
        }
        let mut k: usize = 0;
        while k < segments.len()
            invariant
                k <= segments.len(),
                total == total_retries,
                dense.len() == total,
                are_runs(segments@, total_retries, ranges@, total as int),
                forall|j: int, i: int|
                    0 <= j < k && (#[trigger] segments@[j]).start_inclusive <= i
                        < segments@[j].end_exclusive ==> #[trigger] dense@[i]
                        == segments@[j].duration_millis,
                forall|i: int|
                    0 <= i < total && (#[trigger] dense@[i]) != 0 ==> dense@[i] == attempt_delay(
                        total_retries,
                        ranges@,
                        i,
                    ),
            decreases segments.len() - k,
        {
            let segment = segments[k];
            let end: usize = segment.end_exclusive as usize;
            let mut i: usize = segment.start_inclusive as usize;
            while i < end
                invariant
                    k < segments.len(),
                    total == total_retries,
                    dense.len() == total,
                    are_runs(segments@, total_retries, ranges@, total as int),
                    segment == segments@[k as int],
                    end == segment.end_exclusive,
                    segment.start_inclusive <= i <= end <= total,
                    forall|j: int, i: int|
                        0 <= j < k && (#[trigger] segments@[j]).start_inclusive <= i
                            < segments@[j].end_exclusive ==> #[trigger] dense@[i]
                            == segments@[j].duration_millis,
                    forall|m: int|
                        segment.start_inclusive <= m < i ==> #[trigger] dense@[m]
                            == segment.duration_millis,
                    forall|i: int|
                        0 <= i < total && (#[trigger] dense@[i]) != 0 ==> dense@[i]
                            == attempt_delay(total_retries, ranges@, i),
                decreases end - i,
            {
                assert(attempt_delay(total_retries, ranges@, i as int)
                    == segments@[k as int].duration_millis);
                dense.set(i, segment.duration_millis);
                i = i + 1;
            }
            k = k + 1;
        }
        assert forall|i: int| 0 <= i < total implies #[trigger] dense@[i] == range_delay(
            ranges@,
            i,
        ) by {
            if attempt_delay(total_retries, ranges@, i) != 0 {
                let j = choose|j: int|
                    0 <= j < segments.len() && (#[trigger] segments@[j]).start_inclusive <= i
                        < segments@[j].end_exclusive;
                assert(dense@[i] == segments@[j].duration_millis);
            }
        }
        return RangeIntervals::Dense(dense);
    }
    RangeIntervals::Segments(segments)
}

/// A task that makes at most `total_retries` attempts. The first one does not wait; each
/// later one waits as long as its index before it says.
pub struct RangeIntervalTask<W> {
    pub id: TaskId,
    pub work: W,
    pub total_retries: u32,
    pub intervals: RangeIntervals,
    pub tag: Option<String>,
    pub listener: Option<Arc<dyn WorkListener>>,
    /// Whether the task was interrupted.
    pub interrupted: bool,
}

impl<W> RangeIntervalTask<W> {
    /// The delays can be looked up.
    pub open spec fn wf(&self) -> bool {
        self.intervals.ordered()
    }

    /// The wait after the attempt with this index failed, in milliseconds; none for an
    /// index that is not one.
    pub fn interval_millis(&self, attempt_index: usize) -> (millis: Option<u64>)
        requires
            self.wf(),
        ensures
            millis == if attempt_index >= self.total_retries {
                None
            } else {
                Some(self.intervals.delay(attempt_index as int))
            },
    {
        if attempt_index >= self.total_retries as usize {
            return None;
        }
        Some(self.intervals.delay_at(attempt_index))
    }
}

/// Builds a task whose waits are given by ranges.
pub struct RangeIntervalBuilder<W> {
    pub work: Option<W>,
    pub total_retries: u32,
    pub ranges: Vec<RangeIntervalRange>,
    pub tag: Option<String>,
    pub listener: Option<Arc<dyn WorkListener>>,
}

impl<W> RangeIntervalBuilder<W> {
    /// At most `total_retries` attempts, counting the first one, without waits.
    pub fn new(work: W, total_retries: u32) -> (builder: Self)
        ensures
            builder.work == Some(work),
            builder.total_retries == total_retries,
            builder.ranges@ == Seq::<RangeIntervalRange>::empty(),
            builder.tag is None,
            builder.listener is None,
    {
        RangeIntervalBuilder {
            work: Some(work),
            total_retries,
            ranges: Vec::new(),
            tag: None,
            listener: None,
        }
    }

    /// Sets the wait after failures of the attempts from `start_inclusive` to
    /// `end_inclusive`, in whole milliseconds. A later range overrules an earlier one.
    pub fn add_range(
        self,
        start_inclusive: u32,
        end_inclusive: u32,
        duration: Duration,
    ) -> (builder: Self)
        ensures
            builder == (RangeIntervalBuilder { ranges: builder.ranges, ..self }),
            builder.ranges@ == self.ranges@.push(
                RangeIntervalRange {
                    start_inclusive,
                    end_inclusive,
                    duration_millis: if duration@ / 1_000_000 > u64::MAX {
                        u64::MAX
                    } else {
                        (duration@ / 1_000_000) as u64
                    },
                },
            ),
    {
        let millis: u128 = duration.as_millis();
        let duration_millis: u64 = if millis > u64::MAX as u128 {
            u64::MAX
        } else {
            millis as u64
        };
        let mut builder = self;
        builder.ranges.push(RangeIntervalRange { start_inclusive, end_inclusive, duration_millis });
        builder
    }

    /// Sets the tag.
    pub fn tag(self, tag: String) -> (builder: Self)
        ensures
            builder == (RangeIntervalBuilder { tag: Some(tag), ..self }),
    {
        RangeIntervalBuilder { tag: Some(tag), ..self }
    }

    /// Sets who is told about the end.
    pub fn listener(self, listener: Arc<dyn WorkListener>) -> (builder: Self)
        ensures
            builder.listener is Some,
            builder.listener->0 == listener,
            builder == (RangeIntervalBuilder { listener: builder.listener, ..self }),
    {
        let listener = Some(listener);
        RangeIntervalBuilder { listener, ..self }
    }

    /// The task; work is required, and no more ranges than attempts are permitted.
    pub fn build(self) -> (result: BeaverResult<Arc<Task<W>>>)
        ensures
            match self.work {
                None => result matches Err(BeaverError::BuilderMissingField(field)) && field@
                    == "work"@,
                Some(work) => if self.ranges.len() > self.total_retries {
                    result == Err::<Arc<Task<W>>, BeaverError>(
                        BeaverError::RangeIntervalRangesExceedTotal {
                            total: self.total_retries,
                            ranges_count: self.ranges.len(),
                        },
                    )
                } else {
                    &&& result matches Ok(task)
                    &&& *task matches Task::RangeInterval(built)
                    &&& task.wf()
                    &&& is_random_uuid(built.id.0)
                    &&& built == (RangeIntervalTask {
                        id: built.id,
                        work,
                        total_retries: self.total_retries,
                        intervals: built.intervals,
                        tag: self.tag,
                        listener: self.listener,
                        interrupted: false,
                    })
                    &&& built.intervals.compiles(self.total_retries, self.ranges@)
                    &&& forall|i: int|
                        0 <= i ==> #[trigger] built.intervals.delay(i) == attempt_delay(
                            self.total_retries,
                            self.ranges@,
                            i,
                        )
                },
            },
    {
        match self.work {
            None => Err(BeaverError::BuilderMissingField("work")),
            Some(work) => {
                if self.ranges.len() > self.total_retries as usize {
                    return Err(
                        BeaverError::RangeIntervalRangesExceedTotal {
                            total: self.total_retries,
                            ranges_count: self.ranges.len(),
                        },
                    );
                }
                let intervals = compile_intervals(self.total_retries, &self.ranges);
                proof {
                    lemma_compiled_delay(intervals, self.total_retries, self.ranges@, 0);
                    assert forall|i: int| 0 <= i implies #[trigger] intervals.delay(i)
                        == attempt_delay(self.total_retries, self.ranges@, i) by {
                        lemma_compiled_delay(intervals, self.total_retries, self.ranges@, i);
                    }
                }
                Ok(
                    Arc::new(
                        Task::RangeInterval(
                            RangeIntervalTask {
                                id: TaskId::new(),
                                work,
                                total_retries: self.total_retries,
                                intervals,
                                tag: self.tag,
                                listener: self.listener,
                                interrupted: false,
                            },
                        ),
                    ),
                )
            },
        }
    }
}

/// The wait after a failed attempt is that of the range added last among those from whose
/// start to whose end, both included, the attempt lies; without such a range there is none,
/// and none beyond the last attempt. How the delays are kept makes no difference.
pub proof fn lemma_last_range_gives_the_delay(
    intervals: RangeIntervals,
    total: u32,
    ranges: Seq<RangeIntervalRange>,
    index: int,
    p: int,
)
    requires
        intervals.compiles(total, ranges),
        0 <= index,
        0 <= p < ranges.len(),
    ensures
        index < total && ranges[p].start_inclusive <= index <= ranges[p].end_inclusive && (forall|
            q: int,
        |
            p < q < ranges.len() ==> !((#[trigger] ranges[q]).start_inclusive <= index
                <= ranges[q].end_inclusive)) ==> intervals.delay(index)
            == ranges[p].duration_millis,
        (forall|q: int|
            0 <= q < ranges.len() ==> !((#[trigger] ranges[q]).start_inclusive <= index
                <= ranges[q].end_inclusive)) ==> intervals.delay(index) == 0,
        index >= total ==> intervals.delay(index) == 0,
{
    lemma_compiled_delay(intervals, total, ranges, index);
    if index < total {
        if ranges[p].start_inclusive <= index <= ranges[p].end_inclusive && (forall|q: int|
            p < q < ranges.len() ==> !((#[trigger] ranges[q]).start_inclusive <= index
                <= ranges[q].end_inclusive)) {
            lemma_range_delay_winner(ranges, index, p);
        }
        if forall|q: int|
            0 <= q < ranges.len() ==> !((#[trigger] ranges[q]).start_inclusive <= index
                <= ranges[q].end_inclusive) {
            lemma_range_delay_none(ranges, index);
        }
    }
}

/// A later range overrules an earlier one where both lie, and leaves the rest as it was.
pub proof fn lemma_later_range_overrules(
    total: u32,
    ranges: Seq<RangeIntervalRange>,
    later: RangeIntervalRange,
    index: int,
)
    requires
        0 <= index < total,
    ensures
        later.start_inclusive <= index <= later.end_inclusive ==> attempt_delay(
            total,
            ranges.push(later),
            index,
        ) == later.duration_millis,
        !(later.start_inclusive <= index <= later.end_inclusive) ==> attempt_delay(
            total,
            ranges.push(later),
            index,
        ) == attempt_delay(total, ranges, index),
{
    assert(ranges.push(later).drop_last() =~= ranges);
}

/// Delays that are kept as a table are found at their place, and those kept as runs in the run
/// that the attempt lies in; runs are counted where a delay other than none begins anew.
pub proof fn lemma_where_delays_are_found(
    intervals: RangeIntervals,
    index: int,
    k: int,
    total: u32,
    ranges: Seq<RangeIntervalRange>,
    end: nat,
)
    requires
        intervals.ordered(),
        0 <= index,
    ensures
        intervals matches RangeIntervals::Dense(table) ==> {
            &&& index < table.len() ==> intervals.delay(index) == table@[index]
            &&& index >= table.len() ==> intervals.delay(index) == 0
        },
        intervals matches RangeIntervals::Segments(segments) ==> (0 <= k < segments.len()
            && segments@[k].start_inclusive <= index < segments@[k].end_exclusive
            ==> intervals.delay(index) == segments@[k].duration_millis),
        run_count(total, ranges, end + 1) == run_count(total, ranges, end) + if attempt_delay(
            total,
            ranges,
            end as int,
        ) != 0 && attempt_delay(total, ranges, end - 1) != attempt_delay(
            total,
            ranges,
            end as int,
        ) {
            1nat
        } else {
            0
        },
        run_count(total, ranges, 0) == 0,
{
    if let RangeIntervals::Segments(segments) = intervals {
        if 0 <= k < segments.len() && segments@[k].start_inclusive <= index
            < segments@[k].end_exclusive {
            let found = choose|j: int|
                0 <= j < segments.len() && (#[trigger] segments@[j]).start_inclusive <= index
                    < segments@[j].end_exclusive;
            assert(segments@[found].start_inclusive <= index < segments@[found].end_exclusive);
            if found < k {
                assert(segments@[found].end_exclusive <= segments@[k].start_inclusive);
            } else if k < found {
                assert(segments@[k].end_exclusive <= segments@[found].start_inclusive);
            }
        }
    }
}

/// Runs are as long as they can be: each has a delay other than none, and two that touch have
/// different ones.
pub proof fn lemma_runs_are_maximal(
    segments: Seq<RangeDelaySegment>,
    total: u32,
    ranges: Seq<RangeIntervalRange>,
    end: int,
    k: int,
)
    requires
        are_runs(segments, total, ranges, end),
        0 <= k < segments.len(),
    ensures
        segments[k].start_inclusive < segments[k].end_exclusive <= end,
        segments[k].duration_millis > 0,
        k + 1 < segments.len() ==> segments[k].end_exclusive <= segments[k + 1].start_inclusive,
        k + 1 < segments.len() && segments[k].end_exclusive == segments[k + 1].start_inclusive
            ==> segments[k].duration_millis != segments[k + 1].duration_millis,
        attempt_delay(total, ranges, segments[k].start_inclusive as int)
            == segments[k].duration_millis,
{
}

} // verus!
