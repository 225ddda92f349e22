//! Settings of a baseline benchmark run.
use vstd::prelude::*;
use std::path::PathBuf;

verus! {

/// Which scenario to benchmark, how long, from which seed, and where the
/// artifacts go.
#[derive(Debug)]
pub struct BenchmarkConfig {
    pub scenario: String,
    pub episodes: usize,
    pub max_steps: usize,
    pub seed: u64,
    pub output_dir: PathBuf,
}

impl BenchmarkConfig {
    /// A benchmark needs at least one episode of at least one step.
    pub fn is_runnable(&self) -> (runnable: bool)
        ensures
            runnable == (self.episodes > 0 && self.max_steps > 0),
    {
        self.episodes != 0 && self.max_steps != 0
    }
}

} // verus!
