use vstd::prelude::*;
use crate::error::AnalysisError;
use crate::series::{
    end_bound, is_range, lemma_range_empty, lemma_range_unique, none_within, select_range,
    start_bound, SampleRange, SampleSeries,
};
use crate::sweep::{is_schedule, lemma_schedule_unique, sweep, PeriodPlan, RateView, SampleRate};
use crate::time::TimePoint;

verus! {

/// The first averaging period of the reference sweep.
pub const REFERENCE_MIN_PERIOD: i32 = 1;

/// The end of the reference sweep: the first averaging period behind it.
pub const REFERENCE_MAX_PERIOD: i32 = 10_000;

/// What a calculator is set up with.
pub struct Settings {
    /// The sampling rate of the source.
    pub rate: RateView,
    /// The length of the analysed time span in seconds, where it is limited.
    pub duration: Option<u64>,
    /// The seconds between the first sample and the analysed time span.
    pub offset: u64,
}

/// The analysis of one source: where in the recording it takes place, and at
/// which rate the source was sampled.
#[derive(Clone, Copy, Debug)]
pub struct VarianceCalculator {
    measure_rate: SampleRate,
    sequence_duration: Option<u64>,
    sequence_offset: u64,
}

impl View for VarianceCalculator {
    type V = Settings;

    closed spec fn view(&self) -> Settings {
        Settings {
            rate: self.measure_rate@,
            duration: self.sequence_duration,
            offset: self.sequence_offset,
        }
    }
}

/// The outcome of an analysis: the samples that were analysed and, in
/// ascending order, the averaging periods that they support.
#[derive(Clone, Debug, PartialEq, Eq)]
pub struct SweepPlan {
    pub range: SampleRange,
    pub periods: Vec<PeriodPlan>,
}

/// A `SweepPlan` with its periods as a sequence.
pub struct SweepPlanView {
    pub range: SampleRange,
    pub periods: Seq<PeriodPlan>,
}

impl View for SweepPlan {
    type V = SweepPlanView;

    open spec fn view(&self) -> SweepPlanView {
        SweepPlanView { range: self.range, periods: self.periods@ }
    }
}

/// Whether `outcome` is what the analysis set up as `settings` gives on the
/// samples taken at `stamps`, for the periods from `min_period` up to, but
/// not including, `max_period`. Where no sample was taken within the analysed
/// time span the analysis fails; else it names the samples of the span and
/// the schedule of the sweep over them.
pub open spec fn is_run_outcome(
    stamps: Seq<TimePoint>,
    settings: Settings,
    min_period: int,
    max_period: int,
    outcome: Result<SweepPlanView, AnalysisError>,
) -> bool {
    let start = start_bound(stamps, settings.offset);
    let end = end_bound(stamps, settings.offset, settings.duration);
    match outcome {
        Ok(plan) => {
            &&& !none_within(stamps, start, end)
            &&& is_range(stamps, start, end, plan.range)
            &&& is_schedule(
                plan.periods,
                plan.range.count() as usize,
                settings.rate,
                min_period,
                max_period,
            )
        },
        Err(e) => e == AnalysisError::EmptyInput && none_within(stamps, start, end),
    }
}

/// The outcome of `run` as a value of specifications.
pub open spec fn outcome_view(r: Result<SweepPlan, AnalysisError>) -> Result<
    SweepPlanView,
    AnalysisError,
> {
    match r {
        Ok(plan) => Ok(plan@),
        Err(e) => Err(e),
    }
}

impl VarianceCalculator {
    /// Sets up the analysis of a source sampled at `measure_rate`, over the
    /// time span that begins `sequence_offset` seconds after the first sample
    /// and lasts `sequence_duration` seconds, or to the end of the recording
    /// where that is `None`.
    pub fn new(
        measure_rate: SampleRate,
        sequence_duration: Option<u64>,
        sequence_offset: u64,
    ) -> (calculator: VarianceCalculator)
        ensures
            calculator@ == (Settings {
                rate: measure_rate@,
                duration: sequence_duration,
                offset: sequence_offset,
            }),
    {
        VarianceCalculator { measure_rate, sequence_duration, sequence_offset }
    }

    /// Selects the samples of the analysed time span and sweeps the averaging
    /// periods from `min_period` up to, but not including, `max_period` over
    /// them.
    pub fn run(&self, series: &SampleSeries, min_period: i32, max_period: i32) -> (r: Result<
        SweepPlan,
        AnalysisError,
    >)
        ensures
            is_run_outcome(series@, self@, min_period as int, max_period as int, outcome_view(r)),
    {
        let range = match select_range(series, self.sequence_offset, self.sequence_duration) {
            Ok(range) => range,
            Err(e) => {
                return Err(e);
            },
        };
        proof {
            lemma_range_empty(
                series@,
                start_bound(series@, self.sequence_offset),
                end_bound(series@, self.sequence_offset, self.sequence_duration),
                range,
            );
        }
        match sweep(range.len(), &self.measure_rate, min_period, max_period) {
            Ok(periods) => Ok(SweepPlan { range, periods }),
            Err(e) => Err(e),
        }
    }

    /// Runs the reference sweep: the averaging periods from a tenth of a
    /// second up to, but not including, a thousand seconds.
    pub fn run_reference(&self, series: &SampleSeries) -> (r: Result<SweepPlan, AnalysisError>)
        ensures
            is_run_outcome(
                series@,
                self@,
                REFERENCE_MIN_PERIOD as int,
                REFERENCE_MAX_PERIOD as int,
                outcome_view(r),
            ),
    {
        self.run(series, REFERENCE_MIN_PERIOD, REFERENCE_MAX_PERIOD)
    }
}

/// Running an analysis again changes nothing: on the same samples and with
/// the same settings and periods there is one outcome only.
pub proof fn lemma_run_repeatable(
    stamps: Seq<TimePoint>,
    settings: Settings,
    min_period: int,
    max_period: int,
    a: Result<SweepPlanView, AnalysisError>,
    b: Result<SweepPlanView, AnalysisError>,
)
    requires
        is_run_outcome(stamps, settings, min_period, max_period, a),
        is_run_outcome(stamps, settings, min_period, max_period, b),
    ensures
        a == b,
{
    let start = start_bound(stamps, settings.offset);
    let end = end_bound(stamps, settings.offset, settings.duration);
    match (a, b) {
        (Ok(x), Ok(y)) => {
            lemma_range_unique(stamps, start, end, x.range, y.range);
            lemma_schedule_unique(
                x.periods,
                y.periods,
                x.range.count() as usize,
                settings.rate,
                min_period,
                max_period,
            );
        },
        _ => {},
    }
}

} // verus!
