//! The parts of the radio-link protocols that the runtime's packet routing
//! relies on.

pub mod crtp;
pub mod self_describing;
