//! Logic of the desktop front end: the values it shows, the simulated
//! session, and the logic-analyzer capture through `sigrok-cli`.

pub mod fake_session;
pub mod logic_analyzer;
pub mod model;
pub mod state;
