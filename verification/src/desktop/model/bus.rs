//! Radio-link packets as the user interface shows them.

use vstd::prelude::*;
use crate::fields::FieldMap;

verus! {

/// A MAVLink packet as the user interface shows it.
#[derive(Clone, Debug)]
pub struct UiMavlinkPacket {
    pub sequence: u8,
    pub system_id: u8,
    pub component_id: u8,
    pub message_id: u32,
    pub payload_len: usize,
    pub fields: FieldMap,
}

/// A CRTP packet as the user interface shows it.
#[derive(Clone, Debug)]
pub struct UiCrtpPacket {
    pub port: String,
    pub channel: u8,
    pub payload_len: usize,
    pub fields: FieldMap,
}

} // verus!
