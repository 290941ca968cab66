use allan_variance::{range, select_range, AnalysisError, SampleRange, SampleSeries, TimePoint};

fn series_of(nanos: &[u64]) -> SampleSeries {
    let stamps: Vec<TimePoint> = nanos.iter().map(|&n| TimePoint { nanos: n }).collect();
    SampleSeries::new(stamps).unwrap()
}

/// `count` samples, one every tenth of a second, the first at `first`.
fn ten_hertz(first: u64, count: u64) -> SampleSeries {
    let stamps: Vec<TimePoint> =
        (0..count).map(|i| TimePoint { nanos: first + i * 100_000_000 }).collect();
    SampleSeries::new(stamps).unwrap()
}

#[test]
fn sample_range_counts_its_samples() {
    assert_eq!(SampleRange { start: 3, end: 8 }.len(), 5);
    assert!(!SampleRange { start: 3, end: 8 }.is_empty());
    assert_eq!(SampleRange { start: 4, end: 4 }.len(), 0);
    assert!(SampleRange { start: 4, end: 4 }.is_empty());
}

#[test]
fn sample_range_written_backwards_is_empty() {
    assert_eq!(SampleRange { start: 9, end: 2 }.len(), 0);
    assert!(SampleRange { start: 9, end: 2 }.is_empty());
}

#[test]
fn series_keeps_the_instants_in_order() {
    let series = series_of(&[5, 7, 7, 12]);
    assert_eq!(series.len(), 4);
    assert!(!series.is_empty());
    assert_eq!(series.get(0), Some(TimePoint { nanos: 5 }));
    assert_eq!(series.get(2), Some(TimePoint { nanos: 7 }));
    assert_eq!(series.get(3), Some(TimePoint { nanos: 12 }));
    assert_eq!(series.get(4), None);
}

#[test]
fn series_refuses_instants_that_go_back() {
    let stamps = vec![TimePoint { nanos: 5 }, TimePoint { nanos: 4 }];
    assert!(SampleSeries::new(stamps).is_none());
    let stamps = vec![TimePoint { nanos: 1 }, TimePoint { nanos: 2 }, TimePoint { nanos: 1 }];
    assert!(SampleSeries::new(stamps).is_none());
}

#[test]
fn series_accepts_equal_neighbours_and_short_input() {
    assert!(SampleSeries::new(vec![]).is_some());
    assert!(SampleSeries::new(vec![TimePoint { nanos: 9 }]).is_some());
    assert!(SampleSeries::new(vec![TimePoint { nanos: 9 }, TimePoint { nanos: 9 }]).is_some());
}

#[test]
fn empty_series_is_empty() {
    let series = series_of(&[]);
    assert_eq!(series.len(), 0);
    assert!(series.is_empty());
    assert_eq!(series.get(0), None);
}

#[test]
fn partition_counts_the_samples_before_a_bound() {
    let series = series_of(&[10, 20, 20, 30, 40]);
    assert_eq!(series.partition_before(0), 0);
    assert_eq!(series.partition_before(10), 0);
    assert_eq!(series.partition_before(11), 1);
    assert_eq!(series.partition_before(20), 1);
    assert_eq!(series.partition_before(21), 3);
    assert_eq!(series.partition_before(40), 4);
    assert_eq!(series.partition_before(41), 5);
    assert_eq!(series.partition_before(u128::MAX), 5);
}

#[test]
fn partition_of_an_empty_series_is_zero() {
    assert_eq!(series_of(&[]).partition_before(17), 0);
}

#[test]
fn partition_handles_the_largest_instant() {
    let series = series_of(&[u64::MAX - 1, u64::MAX]);
    assert_eq!(series.partition_before(u64::MAX as u128), 1);
    assert_eq!(series.partition_before(u64::MAX as u128 + 1), 2);
}

#[test]
fn range_includes_both_bounds() {
    let series = series_of(&[10, 20, 30, 40, 50]);
    let r = range(&series, TimePoint { nanos: 20 }, TimePoint { nanos: 40 });
    assert_eq!(r, SampleRange { start: 1, end: 4 });
}

#[test]
fn range_between_samples_takes_those_inside() {
    let series = series_of(&[10, 20, 30, 40, 50]);
    let r = range(&series, TimePoint { nanos: 15 }, TimePoint { nanos: 45 });
    assert_eq!(r, SampleRange { start: 1, end: 4 });
}

#[test]
fn range_takes_every_sample_at_a_repeated_instant() {
    let series = series_of(&[10, 20, 20, 20, 30]);
    let r = range(&series, TimePoint { nanos: 20 }, TimePoint { nanos: 20 });
    assert_eq!(r, SampleRange { start: 1, end: 4 });
}

#[test]
fn range_over_everything_is_the_whole_series() {
    let series = series_of(&[10, 20, 30]);
    let r = range(&series, TimePoint { nanos: 0 }, TimePoint { nanos: u64::MAX });
    assert_eq!(r, SampleRange { start: 0, end: 3 });
}

#[test]
fn range_with_end_before_start_is_empty_at_the_start() {
    let series = series_of(&[10, 20, 30, 40, 50]);
    let r = range(&series, TimePoint { nanos: 35 }, TimePoint { nanos: 15 });
    assert_eq!(r, SampleRange { start: 3, end: 3 });
    assert!(r.is_empty());
}

#[test]
fn range_outside_the_recording_is_empty() {
    let series = series_of(&[10, 20, 30]);
    let before = range(&series, TimePoint { nanos: 1 }, TimePoint { nanos: 9 });
    assert_eq!(before, SampleRange { start: 0, end: 0 });
    let after = range(&series, TimePoint { nanos: 31 }, TimePoint { nanos: 99 });
    assert_eq!(after, SampleRange { start: 3, end: 3 });
}

#[test]
fn select_range_of_an_empty_series_is_empty_input() {
    let series = series_of(&[]);
    assert_eq!(select_range(&series, 0, None), Err(AnalysisError::EmptyInput));
    assert_eq!(select_range(&series, 3, Some(5)), Err(AnalysisError::EmptyInput));
}

#[test]
fn select_range_without_offset_or_duration_is_everything() {
    let series = ten_hertz(1_000_000_000, 20);
    assert_eq!(select_range(&series, 0, None), Ok(SampleRange { start: 0, end: 20 }));
}

#[test]
fn select_range_starts_at_the_offset() {
    let series = ten_hertz(5_000_000_000, 30);
    // One second in: the sample taken exactly then is the first one selected.
    assert_eq!(select_range(&series, 1, None), Ok(SampleRange { start: 10, end: 30 }));
    assert_eq!(select_range(&series, 2, None), Ok(SampleRange { start: 20, end: 30 }));
}

#[test]
fn select_range_ends_with_the_duration() {
    let series = ten_hertz(5_000_000_000, 30);
    // From 1 s to 2 s after the first sample, both instants included.
    assert_eq!(select_range(&series, 1, Some(1)), Ok(SampleRange { start: 10, end: 21 }));
    assert_eq!(select_range(&series, 0, Some(0)), Ok(SampleRange { start: 0, end: 1 }));
}

#[test]
fn select_range_with_a_duration_beyond_the_end_stops_at_the_end() {
    let series = ten_hertz(0, 30);
    assert_eq!(select_range(&series, 2, Some(1000)), Ok(SampleRange { start: 20, end: 30 }));
}

#[test]
fn select_range_with_an_offset_beyond_the_end_is_empty() {
    let series = ten_hertz(0, 30);
    assert_eq!(select_range(&series, 3, None), Ok(SampleRange { start: 30, end: 30 }));
    assert_eq!(select_range(&series, 3, Some(4)), Ok(SampleRange { start: 30, end: 30 }));
}

#[test]
fn select_range_takes_the_largest_offset_and_duration() {
    let series = series_of(&[u64::MAX - 5, u64::MAX]);
    assert_eq!(
        select_range(&series, u64::MAX, Some(u64::MAX)),
        Ok(SampleRange { start: 2, end: 2 })
    );
    assert_eq!(select_range(&series, 0, Some(u64::MAX)), Ok(SampleRange { start: 0, end: 2 }));
}
