//! CRTP packets: the port and channel a packet travels on, and its payload.

use vstd::prelude::*;

verus! {

/// The CRTP ports.
#[derive(Clone, Copy, Debug, PartialEq, Eq, Structural)]
pub enum CrtpPort {
    Console,
    Param,
    Commander,
    Memory,
    Log,
    Localization,
    GenericSetpoint,
    Platform,
    Debug,
    LinkLayer,
}

/// One decoded CRTP packet.
#[derive(Clone, Debug)]
pub struct CrtpPacket {
    pub port: CrtpPort,
    pub channel: u8,
    pub payload: Vec<u8>,
}

} // verus!
