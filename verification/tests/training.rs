use smartscan::dl::EarlyStopping;
use smartscan::ppo::environment::BandHistory;
use smartscan::ppo::{check_step, PpoError, ScanHistory};
use smartscan::scheduler::{least_scanned_band, select_scan_band};
use smartscan::periodic::ExplorationReserve;

#[test]
fn early_stopping_keeps_the_best_epoch_and_stops_after_the_patience_runs_out() {
    let mut stopping = EarlyStopping::new(3);
    assert!(!stopping.record_epoch(true));
    assert!(!stopping.record_epoch(false));
    assert!(!stopping.record_epoch(true));
    assert!(!stopping.record_epoch(false));
    assert!(!stopping.record_epoch(false));
    assert!(stopping.record_epoch(false));
    assert_eq!(stopping.epochs_run(), 6);
    assert_eq!(stopping.best_epoch(), 3);
}

#[test]
fn zero_patience_stops_at_the_first_stalled_epoch() {
    let mut stopping = EarlyStopping::new(0);
    assert!(stopping.record_epoch(false));
    assert_eq!(stopping.best_epoch(), 0);
}

#[test]
fn invalid_actions_are_rejected_without_stepping_the_simulator() {
    assert_eq!(
        check_step(32, 32, 0, 1000),
        Err(PpoError::InvalidAction { action: 32, num_bands: 32 })
    );
    assert_eq!(check_step(3, 32, 1000, 1000), Err(PpoError::EpisodeComplete));
    assert_eq!(check_step(3, 32, 999, 1000), Ok(()));
}

fn band(history: &ScanHistory, band: usize) -> (Option<usize>, Option<usize>, usize, usize, usize) {
    let BandHistory { last_scan, last_detection, observations, detections, visits } =
        history.band_history(band);
    (last_scan, last_detection, observations, detections, visits)
}

#[test]
fn valid_action_updates_receiver_observation_state() {
    let mut history = ScanHistory::new(4);
    history.record_step(0, 1, &[true, true, true, false], &[false, true, false, false]);
    assert_eq!(history.previous_action(), Some(1));
    assert_eq!(band(&history, 0), (Some(0), None, 1, 0, 0));
    assert_eq!(band(&history, 1), (Some(0), Some(0), 1, 1, 1));
    assert_eq!(band(&history, 3), (None, None, 0, 0, 0));
    history.record_step(1, 3, &[false, false, true, true], &[false, false, true, false]);
    assert_eq!(band(&history, 2), (Some(1), Some(1), 2, 1, 0));
    assert_eq!(band(&history, 3), (Some(1), None, 1, 0, 1));
    history.reset();
    assert_eq!(history.previous_action(), None);
    for b in 0..4 {
        assert_eq!(band(&history, b), (None, None, 0, 0, 0));
    }
}

#[test]
fn initial_sweep_checks_each_receiver_band_once() {
    let reserve = ExplorationReserve::from_interval(10);
    let mut scans = vec![0usize; 30];
    for decision in 0..30 {
        let band = select_scan_band(&scans, decision, 29, &reserve);
        scans[band] += 1;
    }
    assert_eq!(scans.len(), 30);
    assert!(scans.iter().all(|count| *count == 1));
}

#[test]
fn after_the_sweep_the_reserve_chooses_the_least_scanned_band() {
    let reserve = ExplorationReserve::from_interval(10);
    let scans = [3, 1, 2, 1];
    assert_eq!(least_scanned_band(&scans), 1);
    assert_eq!(select_scan_band(&scans, 20, 0, &reserve), 1);
    assert_eq!(select_scan_band(&scans, 21, 0, &reserve), 0);
}
