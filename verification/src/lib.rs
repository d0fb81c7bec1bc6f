//! Host-side protocol library for serial telemetry devices: the BMI088
//! binary telemetry protocol, its handshake session, text line parsers and
//! the configuration logic around them.

pub mod ai_adapter;
pub mod ai_contract;
pub mod analysis;
pub mod app;
pub mod args;
pub mod bmi088;
pub mod bmi088_diag;
pub mod cli;
pub mod bytes;
pub mod decimal;
pub mod desktop;
pub mod error;
pub mod fields;
pub mod key_value_parser;
pub mod keyed;
pub mod mcp_runtime;
pub mod mcp_server;
pub mod measurement_parser;
pub mod message;
pub mod parser;
pub mod protocols;
pub mod serial;
pub mod text;
