use smartscan::periodic::estimator::most_common_phase;
use smartscan::periodic::{next_window, next_window_fits, ExplorationReserve, PeriodicTracker, PeriodicityEstimator, PredictedWindow};

#[test]
fn estimator_recovers_regular_period_and_phase() {
    let fit = PeriodicityEstimator::default()
        .fit(&[2, 12, 22, 32, 42])
        .expect("regular arrivals should yield an estimate");
    assert_eq!(fit.period, 10);
    assert_eq!(fit.phase, 2);
    assert_eq!(fit.samples, 5);
    assert_eq!(fit.sorted_intervals, vec![10, 10, 10, 10]);
}

#[test]
fn tracker_only_uses_recorded_detections() {
    let mut tracker = PeriodicTracker::new(2, PeriodicityEstimator::default());
    for time in [1, 11, 21] {
        tracker.record_detection(1, time);
    }
    assert!(tracker.fit_band(0).is_none());
    assert_eq!(tracker.fit_band(1).expect("estimate should exist").period, 10);
}

#[test]
fn tracker_ignores_a_repeated_detection_and_unknown_bands() {
    let mut tracker = PeriodicTracker::new(1, PeriodicityEstimator::new(2));
    tracker.record_detection(0, 5);
    tracker.record_detection(0, 5);
    assert!(tracker.fit_band(0).is_none());
    tracker.record_detection(0, 9);
    assert_eq!(tracker.fit_band(0).expect("two arrivals suffice").period, 4);
    assert!(tracker.fit_band(3).is_none());
}

#[test]
fn estimator_rejects_short_or_unordered_arrivals() {
    let estimator = PeriodicityEstimator::default();
    assert!(estimator.fit(&[1, 2]).is_none());
    assert!(estimator.fit(&[1, 5, 5, 9]).is_none());
    assert!(estimator.fit(&[9, 5, 1]).is_none());
}

#[test]
fn estimator_takes_the_median_gap() {
    let fit = PeriodicityEstimator::default().fit(&[0, 3, 13, 16, 40]).expect("estimate");
    assert_eq!(fit.sorted_intervals, vec![3, 3, 10, 24]);
    assert_eq!(fit.period, 10);
}

#[test]
fn most_common_phase_prefers_the_largest_tied_residue() {
    assert_eq!(most_common_phase(&[1, 2, 11, 12], 10), 2);
    assert_eq!(most_common_phase(&[3, 13, 4], 10), 3);
    assert_eq!(most_common_phase(&[3, 4], 0), 0);
    assert_eq!(most_common_phase(&[], 4), 3);
}

#[test]
fn predictor_returns_the_next_periodic_window() {
    assert_eq!(next_window(10, 2, 13, 1), PredictedWindow { start: 22, end_exclusive: 23 });
}

#[test]
fn predicted_window_before_the_first_phase_and_on_a_boundary() {
    assert_eq!(next_window(10, 7, 3, 2), PredictedWindow { start: 7, end_exclusive: 9 });
    assert_eq!(next_window(10, 2, 12, 1), PredictedWindow { start: 22, end_exclusive: 23 });
    assert_eq!(next_window(10, 2, 2, 1), PredictedWindow { start: 12, end_exclusive: 13 });
}

#[test]
fn exploration_reserve_preserves_regular_exploration() {
    let reserve = ExplorationReserve::from_interval(5);
    assert_eq!(reserve.select_band(0, 1, 7), 7);
    assert_eq!(reserve.select_band(1, 1, 7), 1);
    assert_eq!(reserve.select_band(5, 1, 7), 7);
}

#[test]
fn empty_exploration_reserve_never_explores() {
    let reserve = ExplorationReserve::from_interval(0);
    for decision in 0..20 {
        assert!(!reserve.uses_exploration(decision));
    }
}

#[test]
fn window_fit_check_matches_the_computable_inputs() {
    assert!(next_window_fits(10, 3, 22, 1));
    assert!(next_window_fits(0, 30, 22, 1));
    assert!(!next_window_fits(0, 3, 22, 1));
    assert!(!next_window_fits(10, 0, usize::MAX - 5, 1));
    assert!(!next_window_fits(1, 0, usize::MAX, 0));
    assert!(!next_window_fits(10, 30, 22, usize::MAX));
    assert_eq!(next_window(0, 30, 22, 2), PredictedWindow { start: 30, end_exclusive: 32 });
}
