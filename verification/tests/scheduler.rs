use smartscan::scheduler::{
    check_prediction_width, first_unvisited, HybridError, RandomScheduler, RoundRobinScheduler,
};
use smartscan::ppo::PpoError;

#[test]
fn random_scheduler_stays_within_the_action_space() {
    let mut scheduler = RandomScheduler::new(4, 42);
    for _ in 0..100 {
        assert!(scheduler.select_band() < 4);
    }
}

#[test]
fn round_robin_scans_every_band_in_order() {
    let mut scheduler = RoundRobinScheduler::new(3);
    assert_eq!(scheduler.select_band(), 0);
    assert_eq!(scheduler.select_band(), 1);
    assert_eq!(scheduler.select_band(), 2);
    assert_eq!(scheduler.select_band(), 0);
    scheduler.reset();
    assert_eq!(scheduler.select_band(), 0);
}

#[test]
fn round_robin_selection_k_is_k_modulo_the_band_count() {
    let mut scheduler = RoundRobinScheduler::new(5);
    for k in 0..23 {
        assert_eq!(scheduler.select_band(), k % 5);
    }
}

#[test]
fn scheduler_names() {
    assert_eq!(RoundRobinScheduler::new(2).name(), "round-robin");
    assert_eq!(RandomScheduler::new(2, 1).name(), "random");
}

#[test]
fn random_scheduler_with_one_band_always_picks_it() {
    let mut scheduler = RandomScheduler::new(1, 9);
    for _ in 0..10 {
        assert_eq!(scheduler.select_band(), 0);
    }
}

#[test]
fn first_unvisited_band_is_the_lowest_with_no_visits() {
    assert_eq!(first_unvisited(&[3, 0, 2, 0]), Some(1));
    assert_eq!(first_unvisited(&[1, 1]), None);
    assert_eq!(first_unvisited(&[]), None);
}

#[test]
fn hybrid_scheduler_requires_one_prediction_per_action() {
    assert_eq!(check_prediction_width(32, 32), Ok(()));
    assert_eq!(
        check_prediction_width(30, 32),
        Err(HybridError::BandCountMismatch { predictions: 30, actions: 32 })
    );
    assert_eq!(
        HybridError::from_ppo(PpoError::EpisodeComplete),
        HybridError::Ppo(PpoError::EpisodeComplete)
    );
}
