//! The parts of signal analysis that do not compute on measured values:
//! trigger severities, metric names, and how IMU channels are recognised.

pub mod engine;
pub mod imu;
pub mod model;

pub use model::TriggerSeverity;
