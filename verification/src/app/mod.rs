//! Decisions of the runtime that reads a device: when the BMI088 handshake
//! runs, which radio packets are duplicates, the CRTP checksum, and how a
//! received chunk becomes a text line.

pub mod bmi088_publish;
pub mod command;
pub mod helpers;
pub mod runtime;

use vstd::prelude::*;
use crate::cli::ParserKind;
use crate::message::LinePayload;
use crate::protocols::crtp::CrtpPacket;
use crate::protocols::self_describing::{is_self_describing_packet, self_describing_route};
use crate::serial::{FrameStatus, FramedLine};
use crate::text::lossy_text;

pub use command::{ReconnectController, RuntimeCommand, RuntimeCommandHandle, StopSignal};

verus! {

/// The longest pause, in milliseconds, between two checks of the stop
/// signal while waiting to reconnect.
pub const RETRY_SLEEP_SLICE_MS: u64 = 100;

/// Whether the runtime sends the BMI088 handshake on connecting: only when
/// the BMI088 parser was chosen explicitly.
pub fn bmi088_startup_enabled(parser: ParserKind) -> (r: bool)
    ensures
        r == (parser == ParserKind::Bmi088),
{
    parser == ParserKind::Bmi088
}

/// Whether automatic detection drops a CRTP packet: a self-describing
/// packet is a duplicate once the same chunk held a raw self-describing
/// frame.
pub fn should_skip_crtp_packet(raw_self_describing_seen: bool, packet: &CrtpPacket) -> (r: bool)
    ensures
        r == (raw_self_describing_seen && self_describing_route(packet.port, packet.channel)),
{
    raw_self_describing_seen && is_self_describing_packet(packet)
}

/// One step of the CRC-8 register: shift left, folding in the polynomial
/// 0x1D when the top bit falls out.
pub open spec fn crc8_shift(c: u8) -> u8 {
    if c & 0x80 != 0 {
        (c << 1u8) ^ 0x1D
    } else {
        c << 1u8
    }
}

/// `n` steps of the CRC-8 register.
pub open spec fn crc8_steps(c: u8, n: nat) -> u8
    decreases n,
{
    if n == 0 {
        c
    } else {
        crc8_steps(crc8_shift(c), (n - 1) as nat)
    }
}

/// The register after one more byte.
pub open spec fn crc8_byte(crc: u8, b: u8) -> u8 {
    crc8_steps(crc ^ b, 8)
}

/// The CRC-8 register with polynomial 0x1D (no reflection, no final xor)
/// after `data`, continuing from the register value `crc`. Seeded with 0, as
/// CRTP uses it, this is CRC-8/GSM-A; CRC-8/SAE-J1850 would seed 0xFF and
/// xor the result with 0xFF.
pub open spec fn crc8(crc: u8, data: Seq<u8>) -> u8
    decreases data.len(),
{
    if data.len() == 0 {
        crc
    } else {
        crc8_byte(crc8(crc, data.drop_last()), data.last())
    }
}

/// Continues a CRC over more data: the CRC of two pieces is the CRC of the
/// second continued from the CRC of the first.
pub proof fn lemma_crc8_concat(crc: u8, a: Seq<u8>, b: Seq<u8>)
    ensures
        crc8(crc, a + b) == crc8(crc8(crc, a), b),
    decreases b.len(),
{
    if b.len() == 0 {
        assert(a + b =~= a);
    } else {
        assert((a + b).drop_last() =~= a + b.drop_last());
        lemma_crc8_concat(crc, a, b.drop_last());
    }
}

/// Updates a CRC-8 register (polynomial 0x1D, no reflection) with `data`.
pub fn crc8_update(crc: u8, data: &[u8]) -> (out: u8)
    ensures
        out == crc8(crc, data@),
{
    let mut c = crc;
    let mut i: usize = 0;
    while i < data.len()
        invariant
            i <= data.len(),
            c == crc8(crc, data@.take(i as int)),
        decreases data.len() - i,
    {
        let ghost start = c ^ data[i as int];
        c = c ^ data[i];
        let mut k: u8 = 0;
        while k < 8
            invariant
                k <= 8,
                crc8_steps(start, 8) == crc8_steps(c, (8 - k) as nat),
            decreases 8 - k,
        {
            if c & 0x80 != 0 {
                c = (c << 1u8) ^ 0x1D;
            } else {
                c = c << 1u8;
            }
            k = k + 1;
        }
        assert(data@.take(i + 1).drop_last() =~= data@.take(i as int));
        i = i + 1;
    }
    assert(data@.take(data.len() as int) =~= data@);
    c
}

/// A received chunk as a complete text line: its lossy UTF-8 text and its
/// bytes.
pub fn chunk_line(chunk: &[u8]) -> (out: FramedLine)
    ensures
        out.payload.text@ == crate::text::utf8_lossy(chunk@),
        out.payload.raw@ == chunk@,
        out.status == FrameStatus::Complete,
{
    FramedLine {
        payload: LinePayload {
            text: lossy_text(chunk),
            raw: vstd::slice::slice_to_vec(chunk),
        },
        status: FrameStatus::Complete,
    }
}

} // verus!
