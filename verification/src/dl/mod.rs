//! Deep-learning activity prediction: the control logic of training.
pub mod train;

pub use train::EarlyStopping;

use vstd::prelude::*;

verus! {

/// The temporal activity-prediction model.
pub struct DlModel;

impl DlModel {
    pub fn new() -> (model: Self)
        ensures
            model == DlModel,
    {
        DlModel
    }
}

impl Default for DlModel {
    fn default() -> (model: Self)
        ensures
            model == DlModel,
    {
        Self::new()
    }
}

} // verus!
