//! The hybrid scheduler in which a GRU predicts activity and PPO selects the band.
use vstd::prelude::*;

use crate::ppo::PpoError;

verus! {

/// Why a hybrid decision could not be made.
#[derive(Debug, Clone, PartialEq, Eq, Structural)]
pub enum HybridError {
    BandCountMismatch { predictions: usize, actions: usize },
    Ppo(PpoError),
}

/// The GRU must predict one activity value per PPO action.
pub fn check_prediction_width(predictions: usize, actions: usize) -> (checked: Result<
    (),
    HybridError,
>)
    ensures
        predictions == actions ==> checked == Ok::<(), HybridError>(()),
        predictions != actions ==> checked == Err::<(), HybridError>(
            HybridError::BandCountMismatch { predictions, actions },
        ),
{
    if predictions != actions {
        Err(HybridError::BandCountMismatch { predictions, actions })
    } else {
        Ok(())
    }
}

impl HybridError {
    /// The hybrid error that carries a refusal of the PPO environment.
    pub fn from_ppo(error: PpoError) -> (hybrid: Self)
        ensures
            hybrid == HybridError::Ppo(error),
    {
        HybridError::Ppo(error)
    }
}

} // verus!
