use allan_variance::{windows_non_overlapping, AnalysisError, SampleRange, WindowLayout};

#[test]
fn cluster_size_zero_is_too_small() {
    assert_eq!(windows_non_overlapping(100, 0), Err(AnalysisError::ClusterTooSmall));
    assert_eq!(windows_non_overlapping(0, 0), Err(AnalysisError::ClusterTooSmall));
    assert_eq!(windows_non_overlapping(usize::MAX, 0), Err(AnalysisError::ClusterTooSmall));
}

#[test]
fn exactly_one_window_is_insufficient() {
    assert_eq!(windows_non_overlapping(10, 10), Err(AnalysisError::InsufficientClusters));
    assert_eq!(windows_non_overlapping(19, 10), Err(AnalysisError::InsufficientClusters));
}

#[test]
fn five_samples_with_cluster_size_ten_are_insufficient() {
    assert_eq!(windows_non_overlapping(5, 10), Err(AnalysisError::InsufficientClusters));
}

#[test]
fn no_samples_are_insufficient() {
    assert_eq!(windows_non_overlapping(0, 1), Err(AnalysisError::InsufficientClusters));
}

#[test]
fn two_windows_are_enough() {
    assert_eq!(
        windows_non_overlapping(20, 10),
        Ok(WindowLayout { cluster_size: 10, count: 2 })
    );
    assert_eq!(windows_non_overlapping(2, 1), Ok(WindowLayout { cluster_size: 1, count: 2 }));
}

#[test]
fn twenty_samples_in_windows_of_one() {
    assert_eq!(windows_non_overlapping(20, 1), Ok(WindowLayout { cluster_size: 1, count: 20 }));
}

#[test]
fn trailing_partial_window_is_left_out() {
    let layout = windows_non_overlapping(7, 3).unwrap();
    assert_eq!(layout, WindowLayout { cluster_size: 3, count: 2 });
    assert_eq!(layout.window(0), Some(SampleRange { start: 0, end: 3 }));
    assert_eq!(layout.window(1), Some(SampleRange { start: 3, end: 6 }));
    assert_eq!(layout.window(2), None);
}

#[test]
fn windows_follow_each_other_without_overlap() {
    let layout = windows_non_overlapping(103, 10).unwrap();
    assert_eq!(layout.count, 10);
    let mut expected_start = 0;
    for k in 0..layout.count {
        let window = layout.window(k).unwrap();
        assert_eq!(window.start, expected_start);
        assert_eq!(window.len(), 10);
        assert!(window.end <= 103);
        expected_start = window.end;
    }
    assert_eq!(expected_start, 100);
}

#[test]
fn window_positions_that_cannot_be_written_are_none() {
    let layout = WindowLayout { cluster_size: usize::MAX, count: 3 };
    assert_eq!(layout.window(0), Some(SampleRange { start: 0, end: usize::MAX }));
    assert_eq!(layout.window(1), None);
    assert_eq!(layout.window(2), None);
}

#[test]
fn window_in_shifts_by_the_start_of_the_range() {
    let range = SampleRange { start: 40, end: 47 };
    let layout = windows_non_overlapping(range.len(), 3).unwrap();
    assert_eq!(layout.window_in(&range, 0), Some(SampleRange { start: 40, end: 43 }));
    assert_eq!(layout.window_in(&range, 1), Some(SampleRange { start: 43, end: 46 }));
    assert_eq!(layout.window_in(&range, 2), None);
}

#[test]
fn window_in_refuses_windows_outside_the_range() {
    let layout = WindowLayout { cluster_size: 4, count: 5 };
    let range = SampleRange { start: 10, end: 20 };
    assert_eq!(layout.window_in(&range, 0), Some(SampleRange { start: 10, end: 14 }));
    assert_eq!(layout.window_in(&range, 1), Some(SampleRange { start: 14, end: 18 }));
    assert_eq!(layout.window_in(&range, 2), None);
    let backwards = SampleRange { start: 20, end: 10 };
    assert_eq!(layout.window_in(&backwards, 0), None);
    let high = SampleRange { start: usize::MAX - 2, end: usize::MAX };
    assert_eq!(layout.window_in(&high, 0), None);
}
