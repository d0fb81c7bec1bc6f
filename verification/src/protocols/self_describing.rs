//! Where the self-describing device protocol travels inside CRTP.

use vstd::prelude::*;
use super::crtp::{CrtpPacket, CrtpPort};

verus! {

/// The CRTP channel of the debug port that carries self-describing frames.
pub const SELF_DESCRIBING_CRTP_CHANNEL: u8 = 1;

/// Whether a CRTP packet carries a self-describing frame.
pub open spec fn self_describing_route(port: CrtpPort, channel: u8) -> bool {
    port == CrtpPort::Debug && channel == SELF_DESCRIBING_CRTP_CHANNEL
}

/// Whether a CRTP packet carries a self-describing frame: it travels on
/// the self-describing channel of the debug port.
pub fn is_self_describing_packet(packet: &CrtpPacket) -> (r: bool)
    ensures
        r == self_describing_route(packet.port, packet.channel),
{
    packet.port == CrtpPort::Debug && packet.channel == SELF_DESCRIBING_CRTP_CHANNEL
}

} // verus!
