//! Data processing: header handling, dataset inspection, temporal windows,
//! compact pulse-file framing and TSRD layout checks.
pub mod activity;
pub mod hdf5_loader;
pub mod streaming;
pub mod text;
pub mod windows;

use vstd::prelude::*;

verus! {

/// The entry point of dataset loading.
pub struct DataLoader;

impl DataLoader {
    pub fn new() -> (loader: Self)
        ensures
            loader == DataLoader,
    {
        DataLoader
    }
}

impl Default for DataLoader {
    fn default() -> (loader: Self)
        ensures
            loader == DataLoader,
    {
        Self::new()
    }
}

} // verus!
