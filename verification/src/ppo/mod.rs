//! The PPO scan scheduler: its error cases and the receiver-observable scan
//! history its observations are built from.
pub mod environment;

pub use environment::{check_step, PpoError, ScanHistory};

use vstd::prelude::*;

verus! {

/// The PPO-based band scheduler.
pub struct PpoScheduler;

impl PpoScheduler {
    pub fn new() -> (scheduler: Self)
        ensures
            scheduler == PpoScheduler,
    {
        PpoScheduler
    }
}

impl Default for PpoScheduler {
    fn default() -> (scheduler: Self)
        ensures
            scheduler == PpoScheduler,
    {
        Self::new()
    }
}

} // verus!
