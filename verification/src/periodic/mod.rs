//! Periodicity analysis: estimating the period and phase of arrivals, and
//! predicting the next transmission window.
pub mod estimator;
pub mod predictor;

pub use estimator::{PeriodFit, PeriodicTracker, PeriodicityEstimator};
pub use predictor::{next_window, next_window_fits, ExplorationReserve, PredictedWindow};
