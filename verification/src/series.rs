use vstd::prelude::*;
use crate::error::AnalysisError;
use crate::time::{TimePoint, NANOS_PER_SEC};

verus! {

/// A run of consecutive samples, named by their positions: `start` is the
/// first one, `end` the one after the last.
#[derive(Clone, Copy, Debug, PartialEq, Eq, Structural)]
pub struct SampleRange {
    pub start: usize,
    pub end: usize,
}

impl SampleRange {
    /// Whether position `i` lies in the range.
    pub open spec fn contains(self, i: int) -> bool {
        self.start <= i < self.end
    }

    /// How many positions the range holds; none when `end` is before `start`.
    pub open spec fn count(self) -> nat {
        if self.start <= self.end {
            (self.end - self.start) as nat
        } else {
            0
        }
    }

    /// How many samples the range holds.
    pub fn len(&self) -> (n: usize)
        ensures
            n == self.count(),
    {
        if self.start <= self.end {
            self.end - self.start
        } else {
            0
        }
    }

    /// Whether the range holds no sample.
    pub fn is_empty(&self) -> (b: bool)
        ensures
            b == (self.count() == 0),
    {
        self.start >= self.end
    }
}

/// Whether the instants never go back in time. Equal neighbours are in
/// order.
pub open spec fn sorted(stamps: Seq<TimePoint>) -> bool {
    forall|i: int, j: int| 0 <= i <= j < stamps.len() ==> stamps[i]@ <= stamps[j]@
}

/// Whether position `k` parts the instants that lie before `bound` from those
/// at or after it: the first `k` lie before it, the others do not.
pub open spec fn splits_at(stamps: Seq<TimePoint>, bound: int, k: int) -> bool {
    &&& 0 <= k <= stamps.len()
    &&& forall|i: int| 0 <= i < k ==> (#[trigger] stamps[i])@ < bound
    &&& forall|i: int| k <= i < stamps.len() ==> (#[trigger] stamps[i])@ >= bound
}

/// Whether `range` holds the samples taken from `start` to `end`, both
/// included. Where `end` is before `start` it holds none, and stands where
/// the samples at or after `start` begin.
pub open spec fn is_range(stamps: Seq<TimePoint>, start: int, end: int, range: SampleRange) -> bool {
    &&& splits_at(stamps, start, range.start as int)
    &&& if start <= end {
        splits_at(stamps, end + 1, range.end as int)
    } else {
        range.end == range.start
    }
}

/// Whether no sample was taken from `start` to `end`.
pub open spec fn none_within(stamps: Seq<TimePoint>, start: int, end: int) -> bool {
    forall|i: int| 0 <= i < stamps.len() ==> !(start <= (#[trigger] stamps[i])@ <= end)
}

/// Where the analysed time span begins: `offset_secs` seconds after the first
/// sample.
pub open spec fn start_bound(stamps: Seq<TimePoint>, offset_secs: u64) -> int {
    stamps[0]@ + offset_secs * NANOS_PER_SEC
}

/// Where the analysed time span ends: `duration_secs` seconds after its
/// beginning, or with the last sample where no duration is given.
pub open spec fn end_bound(
    stamps: Seq<TimePoint>,
    offset_secs: u64,
    duration_secs: Option<u64>,
) -> int {
    match duration_secs {
        Some(duration) => start_bound(stamps, offset_secs) + duration * NANOS_PER_SEC,
        None => stamps.last()@,
    }
}

/// The instants at which the samples of one source were taken, in the order
/// of the samples and never going back in time.
#[derive(Debug)]
pub struct SampleSeries {
    stamps: Vec<TimePoint>,
}

impl View for SampleSeries {
    type V = Seq<TimePoint>;

    closed spec fn view(&self) -> Seq<TimePoint> {
        self.stamps@
    }
}

impl SampleSeries {
    #[verifier::type_invariant]
    spec fn in_order(self) -> bool {
        sorted(self.stamps@)
    }

    /// The series of these instants, or `None` where one of them lies before
    /// its predecessor.
    pub fn new(stamps: Vec<TimePoint>) -> (r: Option<SampleSeries>)
        ensures
            r is Some <==> sorted(stamps@),
            r matches Some(series) ==> series@ == stamps@,
    {
        let n = stamps.len();
        let mut i: usize = 1;
        while i < n
            invariant
                n == stamps.len(),
                1 <= i,
                forall|a: int, b: int| 0 <= a <= b < i && b < n ==> stamps[a]@ <= stamps[b]@,
            decreases n - i,
        {
            if stamps[i - 1].nanos > stamps[i].nanos {
                assert(!(stamps@[i - 1]@ <= stamps@[i as int]@));
                return None;
            }
            assert forall|a: int, b: int| 0 <= a <= b < i + 1 && b < n implies stamps[a]@
                <= stamps[b]@ by {
                if b == i && a < i {
                    assert(stamps[a]@ <= stamps[i - 1]@);
                }
            }
            i = i + 1;
        }
        Some(SampleSeries { stamps })
    }

    /// The number of samples.
    pub fn len(&self) -> (n: usize)
        ensures
            n == self@.len(),
    {
        self.stamps.len()
    }

    /// Whether the series holds no sample.
    pub fn is_empty(&self) -> (b: bool)
        ensures
            b == (self@.len() == 0),
    {
        self.stamps.len() == 0
    }

    /// The instant of sample `i`, or `None` where there is no such sample.
    pub fn get(&self, i: usize) -> (r: Option<TimePoint>)
        ensures
            r == if i < self@.len() {
                Some(self@[i as int])
            } else {
                None::<TimePoint>
            },
    {
        if i < self.stamps.len() {
            Some(self.stamps[i])
        } else {
            None
        }
    }

    /// The number of samples taken before `bound`, an instant in nanoseconds
    /// since the epoch. They are the first samples of the series.
    pub fn partition_before(&self, bound: u128) -> (k: usize)
        ensures
            splits_at(self@, bound as int, k as int),
    {
        proof {
            use_type_invariant(self);
        }
        let mut low: usize = 0;
        let mut high: usize = self.stamps.len();
        while low < high
            invariant
                low <= high <= self.stamps.len(),
                sorted(self.stamps@),
                forall|i: int| 0 <= i < low ==> (#[trigger] self.stamps[i])@ < bound,
                forall|i: int| high <= i < self.stamps.len() ==> (#[trigger] self.stamps[i])@ >= bound,
            decreases high - low,
        {
            let mid = low + (high - low) / 2;
            if (self.stamps[mid].nanos as u128) < bound {
                assert forall|i: int| 0 <= i < mid + 1 implies (#[trigger] self.stamps[i])@
                    < bound by {
                    assert(self.stamps[i]@ <= self.stamps[mid as int]@);
                }
                low = mid + 1;
            } else {
                assert forall|i: int| mid <= i < self.stamps.len() implies (
                #[trigger] self.stamps[i])@ >= bound by {
                    assert(self.stamps[mid as int]@ <= self.stamps[i]@);
                }
                high = mid;
            }
        }
        low
    }

    /// The samples taken from `start` to `end`, both in nanoseconds since the
    /// epoch and both included.
    fn range_between(&self, start: u128, end: u128) -> (r: SampleRange)
        requires
            end < u128::MAX,
        ensures
            is_range(self@, start as int, end as int, r),
    {
        let first = self.partition_before(start);
        if start <= end {
            SampleRange { start: first, end: self.partition_before(end + 1) }
        } else {
            SampleRange { start: first, end: first }
        }
    }
}

/// The samples of `series` taken from `start` to `end`, both included.
pub fn range(series: &SampleSeries, start: TimePoint, end: TimePoint) -> (r: SampleRange)
    ensures
        is_range(series@, start@, end@, r),
{
    series.range_between(start.nanos as u128, end.nanos as u128)
}

/// The samples of the time span that begins `offset_secs` seconds after the
/// first sample and lasts `duration_secs` seconds, or up to the last sample
/// where no duration is given. A series without samples has no such span.
pub fn select_range(series: &SampleSeries, offset_secs: u64, duration_secs: Option<u64>) -> (r:
    Result<SampleRange, AnalysisError>)
    ensures
        match r {
            Ok(range) => series@.len() > 0 && is_range(
                series@,
                start_bound(series@, offset_secs),
                end_bound(series@, offset_secs, duration_secs),
                range,
            ),
            Err(e) => series@.len() == 0 && e == AnalysisError::EmptyInput,
        },
{
    let n = series.stamps.len();
    if n == 0 {
        return Err(AnalysisError::EmptyInput);
    }
    let first: u128 = series.stamps[0].nanos as u128;
    let start: u128 = first + (offset_secs as u128) * (NANOS_PER_SEC as u128);
    let end: u128 = match duration_secs {
        Some(duration) => start + (duration as u128) * (NANOS_PER_SEC as u128),
        None => series.stamps[n - 1].nanos as u128,
    };
    Ok(series.range_between(start, end))
}

/// Only one position parts the instants before a bound from the others.
pub proof fn lemma_split_unique(stamps: Seq<TimePoint>, bound: int, a: int, b: int)
    requires
        splits_at(stamps, bound, a),
        splits_at(stamps, bound, b),
    ensures
        a == b,
{
    if a < b {
        assert(stamps[a]@ < bound);
        assert(stamps[a]@ >= bound);
    }
    if b < a {
        assert(stamps[b]@ < bound);
        assert(stamps[b]@ >= bound);
    }
}

/// A time span selects one range of samples only.
pub proof fn lemma_range_unique(
    stamps: Seq<TimePoint>,
    start: int,
    end: int,
    a: SampleRange,
    b: SampleRange,
)
    requires
        is_range(stamps, start, end, a),
        is_range(stamps, start, end, b),
    ensures
        a == b,
{
    lemma_split_unique(stamps, start, a.start as int, b.start as int);
    if start <= end {
        lemma_split_unique(stamps, end + 1, a.end as int, b.end as int);
    }
}

/// The range of a time span lies within the series, and a sample is in it
/// exactly if it was taken within the span.
pub proof fn lemma_range_members(
    stamps: Seq<TimePoint>,
    start: int,
    end: int,
    range: SampleRange,
    i: int,
)
    requires
        is_range(stamps, start, end, range),
        0 <= i < stamps.len(),
    ensures
        range.start <= range.end <= stamps.len(),
        range.contains(i) <==> start <= stamps[i]@ <= end,
{
    if start <= end && range.end < range.start {
        assert(stamps[range.end as int]@ < start);
        assert(stamps[range.end as int]@ >= end + 1);
    }
    if range.start <= i {
        assert(stamps[i]@ >= start);
    } else {
        assert(stamps[i]@ < start);
    }
    if start <= end {
        if i < range.end {
            assert(stamps[i]@ < end + 1);
        } else {
            assert(stamps[i]@ >= end + 1);
        }
    }
}

/// The range of a time span is empty exactly if no sample was taken within
/// the span.
pub proof fn lemma_range_empty(stamps: Seq<TimePoint>, start: int, end: int, range: SampleRange)
    requires
        is_range(stamps, start, end, range),
    ensures
        range.count() == 0 <==> none_within(stamps, start, end),
{
    if range.count() == 0 {
        assert forall|i: int| 0 <= i < stamps.len() implies !(start <= (#[trigger] stamps[i])@
            <= end) by {
            lemma_range_members(stamps, start, end, range, i);
        }
    } else {
        lemma_range_members(stamps, start, end, range, range.start as int);
        assert(start <= stamps[range.start as int]@ <= end);
    }
}

} // verus!
