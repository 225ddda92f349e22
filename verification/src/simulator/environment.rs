//! The dimensions of the simulated RF environment: a time x frequency grid.
use vstd::prelude::*;

verus! {

/// The RF environment as a grid of `time_horizon` steps by `num_bands` bands.
pub struct RfEnvironment {
    pub num_bands: usize,
    pub time_horizon: usize,
}

impl RfEnvironment {
    pub fn new(num_bands: usize, time_horizon: usize) -> (environment: Self)
        ensures
            environment.num_bands == num_bands,
            environment.time_horizon == time_horizon,
    {
        RfEnvironment { num_bands, time_horizon }
    }
}

} // verus!
