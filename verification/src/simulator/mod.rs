//! The RF simulator: ground truth, environment dimensions, emitter kinds and
//! the receiver's monitored window.
pub mod emitter;
pub mod environment;
pub mod ground_truth;
pub mod receiver;

pub use emitter::EmitterType;
pub use environment::RfEnvironment;
pub use ground_truth::GroundTruth;
pub use receiver::monitored_bands;
