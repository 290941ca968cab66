//! Schedules the Allan-variance analysis of an inertial sensor recording.
//!
//! The analysis estimates, for a sweep of averaging periods, how much the
//! averages of consecutive blocks of samples differ. This crate holds the
//! part of it that decides: which samples of a recording fall into the
//! analysed time span, how that span is cut into blocks for a given averaging
//! period, which periods have enough blocks to be analysed at all, and the
//! order in which the results are reported. All of it is integer work on
//! timestamps and sample indices, and every function carries a contract.
//!
//! The sensor readings themselves never enter the crate. A caller keeps them
//! next to the timestamps, asks for the schedule, and averages the readings of
//! each window that the schedule names.

pub mod calc;
pub mod cluster;
pub mod error;
pub mod series;
pub mod sweep;
pub mod time;

pub use calc::{SweepPlan, VarianceCalculator};
pub use cluster::{windows_non_overlapping, WindowLayout};
pub use error::AnalysisError;
pub use series::{range, select_range, SampleRange, SampleSeries};
pub use sweep::{plan_period, sweep, PeriodPlan, SampleRate};
pub use time::{TimePoint, Timestamp, NANOS_PER_SEC};
