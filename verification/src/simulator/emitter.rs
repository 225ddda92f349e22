//! The kinds of emitter the simulator models.
use vstd::prelude::*;

verus! {

/// How an emitter's activity and frequency behave over time.
#[derive(Debug, Clone, Copy, PartialEq, Eq, Structural)]
pub enum EmitterType {
    FixedFrequency,
    Periodic,
    Intermittent,
    FrequencyAgile,
    FrequencyHopping,
}

} // verus!
