use vstd::prelude::*;
use crate::cluster::{layout_of, windows_non_overlapping, WindowLayout};
use crate::error::AnalysisError;

verus! {

/// The length of one averaging step in milliseconds: the averaging period
/// with index `p` lasts `p` steps.
pub const BASE_STEP_MILLIS: i64 = 100;

/// The number of averaging steps in one second.
pub const STEPS_PER_SEC: u64 = 10;

/// A sampling rate as a fraction: `num` samples arrive in `den` seconds.
pub struct RateView {
    pub num: nat,
    pub den: nat,
}

/// A sampling rate in samples per second, held exactly as a fraction with a
/// denominator that is not zero.
#[derive(Clone, Copy, Debug)]
pub struct SampleRate {
    num: u64,
    den: u64,
}

impl View for SampleRate {
    type V = RateView;

    closed spec fn view(&self) -> RateView {
        RateView { num: self.num as nat, den: self.den as nat }
    }
}

/// The samples in one window of the averaging period with index `period`:
/// as many as arrive in `period` steps, rounded down. Ten steps make a
/// second. Periods that are not positive have no sample.
pub open spec fn cluster_size_of(rate: RateView, period: int) -> nat {
    if period <= 0 {
        0
    } else {
        ((period * rate.num) / (10 * rate.den as int)) as nat
    }
}

impl SampleRate {
    #[verifier::type_invariant]
    spec fn nonzero_denominator(self) -> bool {
        self.den > 0
    }

    /// The rate of `num` samples in `den` seconds, or `None` for `den == 0`.
    pub fn new(num: u64, den: u64) -> (r: Option<SampleRate>)
        ensures
            r is Some <==> den > 0,
            r matches Some(rate) ==> rate@ == (RateView { num: num as nat, den: den as nat }),
    {
        if den == 0 {
            None
        } else {
            Some(SampleRate { num, den })
        }
    }

    /// The rate of `hertz` samples in each second.
    pub fn from_hertz(hertz: u64) -> (rate: SampleRate)
        ensures
            rate@ == (RateView { num: hertz as nat, den: 1 }),
    {
        SampleRate { num: hertz, den: 1 }
    }

    /// The number of samples that arrive in `denominator()` seconds.
    pub fn numerator(&self) -> (num: u64)
        ensures
            num == self@.num,
    {
        self.num
    }

    /// The number of seconds in which `numerator()` samples arrive. It is
    /// never zero.
    pub fn denominator(&self) -> (den: u64)
        ensures
            den == self@.den,
            den > 0,
    {
        proof {
            use_type_invariant(self);
        }
        self.den
    }

    /// The samples in one window of the averaging period with index
    /// `period`. A size too large for `usize` comes back as `usize::MAX`.
    pub fn cluster_size(&self, period: i32) -> (c: usize)
        ensures
            c == if cluster_size_of(self@, period as int) <= usize::MAX {
                cluster_size_of(self@, period as int)
            } else {
                usize::MAX as nat
            },
    {
        proof {
            use_type_invariant(self);
        }
        if period <= 0 {
            return 0;
        }
        let steps: u128 = period as u128;
        let num: u128 = self.num as u128;
        assert(steps * num <= 0x7fff_ffff * 0xffff_ffff_ffff_ffff) by (nonlinear_arith)
            requires
                0 <= steps <= 0x7fff_ffff,
                0 <= num <= 0xffff_ffff_ffff_ffff,
        ;
        let samples: u128 = steps * num;
        let den: u128 = self.den as u128;
        assert(STEPS_PER_SEC * den <= 10 * 0xffff_ffff_ffff_ffff) by (nonlinear_arith)
            requires
                STEPS_PER_SEC == 10,
                0 <= den <= 0xffff_ffff_ffff_ffff,
        ;
        let per_second: u128 = (STEPS_PER_SEC as u128) * den;
        let size: u128 = samples / per_second;
        if size > usize::MAX as u128 {
            usize::MAX
        } else {
            size as usize
        }
    }
}

/// The size of a window is the number of samples that arrive during the
/// averaging period, rounded down: it is `size` exactly if the period, at ten
/// steps to the second, is long enough for `size` samples and too short for
/// `size + 1`.
pub proof fn lemma_cluster_size_floor(rate: RateView, period: int, size: nat)
    requires
        period > 0,
        rate.den > 0,
    ensures
        cluster_size_of(rate, period) == size <==> size * (10 * rate.den) <= period * rate.num < (
        size + 1) * (10 * rate.den),
{
    let samples = period * rate.num;
    let per_window = 10 * rate.den as int;
    assert(samples >= 0) by (nonlinear_arith)
        requires
            samples == period * rate.num,
            period > 0,
    ;
    vstd::arithmetic::div_mod::lemma_fundamental_div_mod(samples, per_window);
    vstd::arithmetic::div_mod::lemma_mod_bound(samples, per_window);
    vstd::arithmetic::div_mod::lemma_div_pos_is_pos(samples, per_window);
    let q = samples / per_window;
    assert(q * per_window == per_window * q) by (nonlinear_arith);
    if size * per_window <= samples < (size + 1) * per_window {
        assert(q == size) by (nonlinear_arith)
            requires
                per_window > 0,
                q * per_window <= samples < q * per_window + per_window,
                size * per_window <= samples < (size + 1) * per_window,
        ;
    }
    if q == size {
        assert((size + 1) * per_window == size * per_window + per_window) by (nonlinear_arith);
    }
}

/// One averaging period that can be analysed: its index and the windows that
/// the samples are cut into for it.
#[derive(Clone, Copy, Debug, PartialEq, Eq, Structural)]
pub struct PeriodPlan {
    pub period: i32,
    pub windows: WindowLayout,
}

/// The averaging time of the period with index `period`, in milliseconds.
pub open spec fn tau_millis_of(period: int) -> int {
    period * BASE_STEP_MILLIS
}

impl PeriodPlan {
    /// The averaging time of this period in milliseconds.
    pub fn tau_millis(&self) -> (tau: i64)
        ensures
            tau == tau_millis_of(self.period as int),
    {
        (self.period as i64) * BASE_STEP_MILLIS
    }
}

/// What one averaging period yields on `len` samples: the windows of the size
/// that the rate gives for it, or the error for which it is left out.
pub open spec fn plan_of(len: usize, rate: RateView, period: int) -> Result<
    PeriodPlan,
    AnalysisError,
> {
    match layout_of(len, cluster_size_of(rate, period)) {
        Ok(windows) => Ok(PeriodPlan { period: period as i32, windows }),
        Err(e) => Err(e),
    }
}

/// Plans one averaging period on `len` samples.
pub fn plan_period(len: usize, rate: &SampleRate, period: i32) -> (r: Result<
    PeriodPlan,
    AnalysisError,
>)
    ensures
        r == plan_of(len, rate@, period as int),
{
    let cluster_size = rate.cluster_size(period);
    proof {
        let exact = cluster_size_of(rate@, period as int);
        if exact > usize::MAX {
            vstd::arithmetic::div_mod::lemma_basic_div(len as int, exact as int);
            if len < usize::MAX {
                vstd::arithmetic::div_mod::lemma_basic_div(len as int, usize::MAX as int);
            } else {
                vstd::arithmetic::div_mod::lemma_div_by_self(usize::MAX as int);
            }
        }
    }
    match windows_non_overlapping(len, cluster_size) {
        Ok(windows) => Ok(PeriodPlan { period, windows }),
        Err(e) => Err(e),
    }
}

/// Whether `curve` is what a sweep over the periods from `min_period` up to,
/// but not including, `max_period` reports on `len` samples: the plans of
/// exactly those periods that have one, in ascending order of the period.
pub open spec fn is_schedule(
    curve: Seq<PeriodPlan>,
    len: usize,
    rate: RateView,
    min_period: int,
    max_period: int,
) -> bool {
    &&& forall|i: int, j: int|
        0 <= i < j < curve.len() ==> (#[trigger] curve[i]).period < (#[trigger] curve[j]).period
    &&& forall|i: int|
        0 <= i < curve.len() ==> {
            &&& min_period <= (#[trigger] curve[i]).period < max_period
            &&& plan_of(len, rate, curve[i].period as int) == Ok::<PeriodPlan, AnalysisError>(
                curve[i],
            )
        }
    &&& forall|p: int|
        min_period <= p < max_period && (#[trigger] plan_of(len, rate, p)) is Ok ==> exists|
            i: int,
        |
            0 <= i < curve.len() && (#[trigger] curve[i]).period == p
}

/// Sweeps the averaging periods from `min_period` up to, but not including,
/// `max_period` over `len` samples. A period that cannot be analysed is left
/// out; the sweep as a whole fails only when there is no sample at all.
pub fn sweep(len: usize, rate: &SampleRate, min_period: i32, max_period: i32) -> (r: Result<
    Vec<PeriodPlan>,
    AnalysisError,
>)
    ensures
        match r {
            Ok(curve) => len > 0 && is_schedule(
                curve@,
                len,
                rate@,
                min_period as int,
                max_period as int,
            ),
            Err(e) => len == 0 && e == AnalysisError::EmptyInput,
        },
{
    if len == 0 {
        return Err(AnalysisError::EmptyInput);
    }
    let mut curve: Vec<PeriodPlan> = Vec::new();
    if min_period >= max_period {
        return Ok(curve);
    }
    let mut period: i32 = min_period;
    while period < max_period
        invariant
            min_period <= period <= max_period,
            is_schedule(curve@, len, rate@, min_period as int, period as int),
        decreases max_period - period,
    {
        let ghost before = curve@;
        match plan_period(len, rate, period) {
            Ok(plan) => {
                curve.push(plan);
                proof {
                    lemma_schedule_extend(
                        before,
                        len,
                        rate@,
                        min_period as int,
                        period as int,
                    );
                }
            },
            Err(_) => {},
        }
        period = period + 1;
    }
    Ok(curve)
}

/// A schedule up to `period`, with the plan of `period` behind it, is the
/// schedule up to `period + 1`.
proof fn lemma_schedule_extend(
    curve: Seq<PeriodPlan>,
    len: usize,
    rate: RateView,
    min_period: int,
    period: int,
)
    requires
        is_schedule(curve, len, rate, min_period, period),
        plan_of(len, rate, period) is Ok,
        min_period <= period <= i32::MAX,
    ensures
        is_schedule(
            curve.push(plan_of(len, rate, period)->Ok_0),
            len,
            rate,
            min_period,
            period + 1,
        ),
{
    let plan = plan_of(len, rate, period)->Ok_0;
    let longer = curve.push(plan);
    assert(plan.period == period);
    assert forall|p: int|
        min_period <= p < period + 1 && (#[trigger] plan_of(len, rate, p)) is Ok implies exists|
        i: int,
    |
        0 <= i < longer.len() && (#[trigger] longer[i]).period == p by {
        if p == period {
            assert(longer[curve.len() as int].period == p);
        } else {
            let i = choose|i: int| 0 <= i < curve.len() && (#[trigger] curve[i]).period == p;
            assert(longer[i].period == p);
        }
    }
}

/// A sweep has one outcome: two schedules of the same sweep over the same
/// samples are the same sequence, whichever way they were put together.
pub proof fn lemma_schedule_unique(
    a: Seq<PeriodPlan>,
    b: Seq<PeriodPlan>,
    len: usize,
    rate: RateView,
    min_period: int,
    max_period: int,
)
    requires
        is_schedule(a, len, rate, min_period, max_period),
        is_schedule(b, len, rate, min_period, max_period),
    ensures
        a == b,
    decreases max_period - min_period,
{
    if max_period <= min_period {
        if a.len() > 0 {
            assert(min_period <= a[0].period < max_period);
        }
        if b.len() > 0 {
            assert(min_period <= b[0].period < max_period);
        }
        assert(a =~= b);
    } else {
        let last = max_period - 1;
        if plan_of(len, rate, last) is Ok {
            lemma_schedule_last(a, len, rate, min_period, max_period);
            lemma_schedule_last(b, len, rate, min_period, max_period);
            lemma_schedule_unique(a.drop_last(), b.drop_last(), len, rate, min_period, last);
            assert(a =~= a.drop_last().push(a.last()));
            assert(b =~= b.drop_last().push(b.last()));
        } else {
            lemma_schedule_unique(a, b, len, rate, min_period, last);
        }
    }
}

/// Where the last period of a sweep has a plan, that plan ends the schedule,
/// and what stands before it is the schedule of the periods before.
proof fn lemma_schedule_last(
    curve: Seq<PeriodPlan>,
    len: usize,
    rate: RateView,
    min_period: int,
    max_period: int,
)
    requires
        is_schedule(curve, len, rate, min_period, max_period),
        min_period < max_period,
        plan_of(len, rate, max_period - 1) is Ok,
    ensures
        curve.len() > 0,
        curve.last() == plan_of(len, rate, max_period - 1)->Ok_0,
        is_schedule(curve.drop_last(), len, rate, min_period, max_period - 1),
{
    let last = max_period - 1;
    let at = choose|i: int| 0 <= i < curve.len() && (#[trigger] curve[i]).period == last;
    if at < curve.len() - 1 {
        assert(curve[at].period < curve[curve.len() - 1].period);
    }
    let front = curve.drop_last();
    assert forall|i: int| 0 <= i < front.len() implies {
        &&& min_period <= (#[trigger] front[i]).period < last
        &&& plan_of(len, rate, front[i].period as int) == Ok::<PeriodPlan, AnalysisError>(
            front[i],
        )
    } by {
        assert(curve[i].period < curve[curve.len() - 1].period);
    }
    assert forall|p: int|
        min_period <= p < last && (#[trigger] plan_of(len, rate, p)) is Ok implies exists|i: int|
        0 <= i < front.len() && (#[trigger] front[i]).period == p by {
        let i = choose|i: int| 0 <= i < curve.len() && (#[trigger] curve[i]).period == p;
        assert(front[i].period == p);
    }
}

/// A schedule is reported in strictly ascending order of the averaging time.
pub proof fn lemma_schedule_ascending(
    curve: Seq<PeriodPlan>,
    len: usize,
    rate: RateView,
    min_period: int,
    max_period: int,
    i: int,
    j: int,
)
    requires
        is_schedule(curve, len, rate, min_period, max_period),
        0 <= i < j < curve.len(),
    ensures
        tau_millis_of(curve[i].period as int) < tau_millis_of(curve[j].period as int),
{
    assert(curve[i].period < curve[j].period);
}

/// Every entry of a schedule can be analysed: its period is positive, its
/// windows hold at least one sample each, there are at least two of them, and
/// all of them lie within the samples.
pub proof fn lemma_schedule_entry(
    curve: Seq<PeriodPlan>,
    len: usize,
    rate: RateView,
    min_period: int,
    max_period: int,
    i: int,
)
    requires
        is_schedule(curve, len, rate, min_period, max_period),
        0 <= i < curve.len(),
    ensures
        curve[i].period >= 1,
        curve[i].windows.cluster_size == cluster_size_of(rate, curve[i].period as int),
        curve[i].windows.cluster_size >= 1,
        curve[i].windows.count == len as nat / (curve[i].windows.cluster_size as nat),
        curve[i].windows.count >= 2,
        curve[i].windows.samples_used() <= len,
{
    let entry = curve[i];
    assert(plan_of(len, rate, entry.period as int) == Ok::<PeriodPlan, AnalysisError>(entry));
    let size = cluster_size_of(rate, entry.period as int);
    assert(layout_of(len, size) is Ok);
    vstd::arithmetic::div_mod::lemma_fundamental_div_mod(len as int, size as int);
    vstd::arithmetic::div_mod::lemma_mod_bound(len as int, size as int);
    assert(1 <= size <= len) by (nonlinear_arith)
        requires
            size > 0,
            len as int / size as int >= 2,
            len == size * (len as int / size as int) + len as int % size as int,
            0 <= len as int % size as int,
    ;
    let count = len as int / size as int;
    assert(count * size == size * count) by (nonlinear_arith);
}

/// A period whose windows would hold no sample is refused as
/// `ClusterTooSmall` and stands nowhere in the schedule.
pub proof fn lemma_zero_cluster_dropped(
    curve: Seq<PeriodPlan>,
    len: usize,
    rate: RateView,
    min_period: int,
    max_period: int,
    period: int,
    i: int,
)
    requires
        is_schedule(curve, len, rate, min_period, max_period),
        cluster_size_of(rate, period) == 0,
        0 <= i < curve.len(),
    ensures
        plan_of(len, rate, period) == Err::<PeriodPlan, AnalysisError>(
            AnalysisError::ClusterTooSmall,
        ),
        curve[i].period != period,
{
    assert(plan_of(len, rate, curve[i].period as int) is Ok);
}

/// A period for which the samples fill fewer than two windows is refused as
/// `InsufficientClusters` and stands nowhere in the schedule.
pub proof fn lemma_single_window_dropped(
    curve: Seq<PeriodPlan>,
    len: usize,
    rate: RateView,
    min_period: int,
    max_period: int,
    period: int,
    i: int,
)
    requires
        is_schedule(curve, len, rate, min_period, max_period),
        cluster_size_of(rate, period) > 0,
        len as nat / cluster_size_of(rate, period) < 2,
        0 <= i < curve.len(),
    ensures
        plan_of(len, rate, period) == Err::<PeriodPlan, AnalysisError>(
            AnalysisError::InsufficientClusters,
        ),
        curve[i].period != period,
{
    assert(plan_of(len, rate, curve[i].period as int) is Ok);
}

} // verus!
