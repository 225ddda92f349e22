use smartscan::simulator::receiver::monitored_bands;
use smartscan::simulator::{EmitterType, GroundTruth, RfEnvironment};

#[test]
fn test_environment_creation() {
    let env = RfEnvironment::new(32, 1000);
    assert_eq!(env.num_bands, 32);
    assert_eq!(env.time_horizon, 1000);
}

#[test]
fn test_ground_truth_creation() {
    let gt = GroundTruth::new(32, 1000);
    assert_eq!(gt.num_bands, 32);
    assert_eq!(gt.time_horizon, 1000);
}

#[test]
fn test_ground_truth_transmission() {
    let mut gt = GroundTruth::new(32, 1000);
    gt.set_transmission(100, 5, true);
    assert!(gt.is_transmitting(100, 5));
    assert!(!gt.is_transmitting(100, 6));
}

#[test]
fn bit_packing_scales_to_long_horizons() {
    let gt = GroundTruth::new(30, 10_000_000);
    assert_eq!(gt.word_count(), 4_687_500);
}

#[test]
fn new_ground_truth_is_quiet_everywhere() {
    let gt = GroundTruth::new(7, 11);
    for time in 0..11 {
        for band in 0..7 {
            assert!(!gt.is_transmitting(time, band));
        }
    }
}

#[test]
fn storage_rounds_a_partial_word_up() {
    assert_eq!(GroundTruth::new(3, 21).word_count(), 1);
    assert_eq!(GroundTruth::new(3, 22).word_count(), 2);
    assert_eq!(GroundTruth::new(0, 22).word_count(), 0);
}

#[test]
fn clearing_a_cell_reads_back_quiet_and_spares_its_neighbours() {
    let mut gt = GroundTruth::new(5, 40);
    for band in 0..5 {
        gt.set_transmission(12, band, true);
    }
    gt.set_transmission(12, 2, false);
    assert!(!gt.is_transmitting(12, 2));
    assert!(gt.is_transmitting(12, 1));
    assert!(gt.is_transmitting(12, 3));
    assert!(!gt.is_transmitting(11, 4));
    assert!(!gt.is_transmitting(13, 0));
}

#[test]
fn cells_outside_the_grid_are_never_stored() {
    let mut gt = GroundTruth::new(4, 4);
    gt.set_transmission(4, 0, true);
    gt.set_transmission(0, 4, true);
    assert!(!gt.is_transmitting(4, 0));
    assert!(!gt.is_transmitting(0, 4));
    for time in 0..4 {
        for band in 0..4 {
            assert!(!gt.is_transmitting(time, band));
        }
    }
}

#[test]
fn cells_straddling_a_word_boundary_are_independent() {
    let mut gt = GroundTruth::new(10, 20);
    gt.set_transmission(6, 3, true);
    gt.set_transmission(6, 4, true);
    assert!(gt.is_transmitting(6, 3));
    assert!(gt.is_transmitting(6, 4));
    gt.set_transmission(6, 3, false);
    assert!(!gt.is_transmitting(6, 3));
    assert!(gt.is_transmitting(6, 4));
}

#[test]
fn monitored_band_count_matches_receiver_bandwidth() {
    let monitored = monitored_bands(32, 16, 8);
    assert_eq!(monitored.into_iter().filter(|monitored| *monitored).count(), 8);
}

#[test]
fn monitored_window_is_centred_on_the_selected_band() {
    let monitored = monitored_bands(32, 16, 8);
    for band in 0..32 {
        assert_eq!(monitored[band], (12..20).contains(&band));
    }
}

#[test]
fn monitored_window_is_clipped_at_both_ends_of_the_spectrum() {
    let low = monitored_bands(10, 1, 6);
    assert_eq!(low, vec![true, true, true, true, true, true, false, false, false, false]);
    let high = monitored_bands(10, 9, 6);
    assert_eq!(high, vec![false, false, false, false, false, false, true, true, true, true]);
}

#[test]
fn zero_width_window_monitors_nothing() {
    assert!(monitored_bands(4, 2, 0).iter().all(|monitored| !monitored));
}

#[test]
fn emitter_types_compare_by_kind() {
    assert_eq!(EmitterType::Periodic, EmitterType::Periodic);
    assert_ne!(EmitterType::Periodic, EmitterType::Intermittent);
}

#[test]
fn ground_truth_dimensions_are_reported() {
    let truth = GroundTruth::new(30, 70);
    assert_eq!(truth.num_bands(), 30);
    assert_eq!(truth.time_horizon(), 70);
}
