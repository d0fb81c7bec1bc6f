//! Frame layer: CRC-16/CCITT, the frame envelope and frame boundaries.
//!
//! A frame is `A5 5A | version | type | command | seq | len | payload | crc`,
//! where `crc` is the little-endian CRC-16/CCITT (initial value 0xFFFF,
//! polynomial 0x1021) of everything before it.

use super::constants::{BMI088_CRC_LEN, BMI088_HEADER_LEN, BMI088_MIN_FRAME_LEN, BMI088_VERSION};
use super::models::{malformed, malformed_error, Bmi088DecodeError, DecodeErrorModel};
use crate::bytes::{from_le16, le16, lemma_le16_roundtrip, u16_from_le, u16_to_le};
use vstd::prelude::*;

verus! {

/// One bit step of the CRC-16/CCITT shift register.
pub open spec fn crc16_bit(crc: u16) -> u16 {
    if crc & 0x8000 != 0 {
        ((crc << 1u16) ^ 0x1021u16) as u16
    } else {
        (crc << 1u16) as u16
    }
}

/// `n` bit steps of the shift register.
pub open spec fn crc16_bits(crc: u16, n: nat) -> u16
    decreases n,
{
    if n == 0 {
        crc
    } else {
        crc16_bit(crc16_bits(crc, (n - 1) as nat))
    }
}

/// The register after absorbing one byte.
pub open spec fn crc16_byte(crc: u16, byte: u8) -> u16 {
    crc16_bits(crc ^ ((byte as u16) << 8u16), 8)
}

/// CRC-16/CCITT (initial 0xFFFF, polynomial 0x1021, no reflection, no final
/// xor) of a byte sequence.
pub open spec fn crc16(bytes: Seq<u8>) -> u16
    decreases bytes.len(),
{
    if bytes.len() == 0 {
        0xFFFF
    } else {
        crc16_byte(crc16(bytes.drop_last()), bytes.last())
    }
}

/// One shift-register step is linear over xor.
proof fn lemma_crc16_bit_xor(x: u16, y: u16)
    ensures
        crc16_bit(x) ^ crc16_bit(y) == crc16_bit(x ^ y),
{
    assert(crc16_bit(x) ^ crc16_bit(y) == crc16_bit(x ^ y)) by (bit_vector);
}

/// One shift-register step loses no nonzero register.
proof fn lemma_crc16_bit_nonzero(x: u16)
    requires
        x != 0,
    ensures
        crc16_bit(x) != 0,
{
    assert(x != 0 ==> crc16_bit(x) != 0) by (bit_vector);
}

/// `n` steps are linear over xor.
proof fn lemma_crc16_bits_xor(x: u16, y: u16, n: nat)
    ensures
        crc16_bits(x, n) ^ crc16_bits(y, n) == crc16_bits(x ^ y, n),
    decreases n,
{
    if n > 0 {
        lemma_crc16_bits_xor(x, y, (n - 1) as nat);
        lemma_crc16_bit_xor(crc16_bits(x, (n - 1) as nat), crc16_bits(y, (n - 1) as nat));
    }
}

/// `n` steps lose no nonzero register.
proof fn lemma_crc16_bits_nonzero(x: u16, n: nat)
    requires
        x != 0,
    ensures
        crc16_bits(x, n) != 0,
    decreases n,
{
    if n > 0 {
        lemma_crc16_bits_nonzero(x, (n - 1) as nat);
        lemma_crc16_bit_nonzero(crc16_bits(x, (n - 1) as nat));
    }
}

/// Absorbing a byte is linear in the register and the byte together.
proof fn lemma_crc16_byte_xor(c1: u16, b1: u8, c2: u16, b2: u8)
    ensures
        crc16_byte(c1, b1) ^ crc16_byte(c2, b2) == crc16_byte(c1 ^ c2, (b1 ^ b2) as u8),
{
    let x = c1 ^ ((b1 as u16) << 8u16);
    let y = c2 ^ ((b2 as u16) << 8u16);
    assert(x ^ y == (c1 ^ c2) ^ (((b1 ^ b2) as u8 as u16) << 8u16)) by (bit_vector)
        requires
            x == c1 ^ ((b1 as u16) << 8u16),
            y == c2 ^ ((b2 as u16) << 8u16),
    ;
    lemma_crc16_bits_xor(x, y, 8);
}

/// Two byte sequences of one length that differ in exactly one byte have
/// different CRCs: the CRC catches any single changed byte.
pub proof fn lemma_crc16_detects_one_changed_byte(a: Seq<u8>, b: Seq<u8>, i: int)
    requires
        a.len() == b.len(),
        0 <= i < a.len(),
        a[i] != b[i],
        forall|j: int| 0 <= j < a.len() && j != i ==> a[j] == b[j],
    ensures
        crc16(a) != crc16(b),
    decreases a.len(),
{
    let n = a.len() - 1;
    let ca = crc16(a.drop_last());
    let cb = crc16(b.drop_last());
    let (x, y) = (a.last(), b.last());
    lemma_crc16_byte_xor(ca, x, cb, y);
    if i == n {
        assert(a.drop_last() =~= b.drop_last());
        assert((ca ^ cb) ^ (((x ^ y) as u8 as u16) << 8u16) != 0) by (bit_vector)
            requires
                ca == cb,
                x != y,
        ;
        lemma_crc16_bits_nonzero((ca ^ cb) ^ (((x ^ y) as u8 as u16) << 8u16), 8);
    } else {
        lemma_crc16_detects_one_changed_byte(a.drop_last(), b.drop_last(), i);
        assert(x == y);
        assert((ca ^ cb) ^ (((x ^ y) as u8 as u16) << 8u16) != 0) by (bit_vector)
            requires
                ca != cb,
                x == y,
        ;
        lemma_crc16_bits_nonzero((ca ^ cb) ^ (((x ^ y) as u8 as u16) << 8u16), 8);
    }
    let (ra, rb) = (crc16(a), crc16(b));
    assert(ra ^ rb != 0);
    assert(ra != rb) by (bit_vector)
        requires
            ra ^ rb != 0,
    ;
}

/// Computes the CRC-16/CCITT of a byte slice.
pub fn crc16_ccitt(bytes: &[u8]) -> (crc: u16)
    ensures
        crc == crc16(bytes@),
{
    let mut crc: u16 = 0xFFFF;
    let mut i: usize = 0;
    while i < bytes.len()
        invariant
            i <= bytes.len(),
            crc == crc16(bytes@.take(i as int)),
        decreases bytes.len() - i,
    {
        let start: u16 = crc ^ ((bytes[i] as u16) << 8u16);
        crc = start;
        let mut bit: usize = 0;
        while bit < 8
            invariant
                bit <= 8,
                crc == crc16_bits(start, bit as nat),
            decreases 8 - bit,
        {
            if crc & 0x8000 != 0 {
                crc = (crc << 1u16) ^ 0x1021;
            } else {
                crc = crc << 1u16;
            }
            bit = bit + 1;
        }
        assert(bytes@.take(i + 1).drop_last() =~= bytes@.take(i as int));
        i = i + 1;
    }
    assert(bytes@.take(bytes.len() as int) =~= bytes@);
    crc
}

/// Header and payload of a frame, everything the CRC covers.
pub open spec fn frame_body(frame_type: u8, command: u8, seq: u8, payload: Seq<u8>) -> Seq<u8> {
    seq![0xA5u8, 0x5Au8, 0x01u8, frame_type, command, seq, payload.len() as u8] + payload
}

/// The bytes of a frame.
pub open spec fn frame_bytes(frame_type: u8, command: u8, seq: u8, payload: Seq<u8>) -> Seq<u8> {
    let body = frame_body(frame_type, command, seq, payload);
    body + le16(crc16(body))
}

/// Length of a frame that carries `payload_len` payload bytes.
pub open spec fn frame_len_spec(payload_len: u8) -> int {
    9 + payload_len
}

/// Encodes one frame.
pub fn encode_frame(frame_type: u8, command: u8, seq: u8, payload: &[u8]) -> (out: Vec<u8>)
    requires
        payload@.len() <= 255,
    ensures
        out@ == frame_bytes(frame_type, command, seq, payload@),
{
    let mut frame: Vec<u8> = Vec::new();
    frame.push(0xA5);
    frame.push(0x5A);
    frame.push(BMI088_VERSION);
    frame.push(frame_type);
    frame.push(command);
    frame.push(seq);
    frame.push(payload.len() as u8);
    let mut i: usize = 0;
    while i < payload.len()
        invariant
            i <= payload.len(),
            payload@.len() <= 255,
            frame@ =~= seq![0xA5u8, 0x5Au8, 0x01u8, frame_type, command, seq, payload@.len() as u8]
                + payload@.take(i as int),
        decreases payload.len() - i,
    {
        frame.push(payload[i]);
        i = i + 1;
    }
    assert(payload@.take(payload.len() as int) =~= payload@);
    let crc = crc16_ccitt(frame.as_slice());
    let crc_bytes = u16_to_le(crc);
    frame.push(crc_bytes[0]);
    frame.push(crc_bytes[1]);
    assert(frame@ =~= frame_bytes(frame_type, command, seq, payload@));
    frame
}

/// What decoding the envelope of `frame` gives: the frame type, command,
/// sequence number and payload, or why the envelope is invalid.
pub open spec fn envelope_spec(frame: Seq<u8>) -> Result<(u8, u8, u8, Seq<u8>), DecodeErrorModel> {
    let n = frame.len();
    if n < 9 {
        Err(malformed("frame too short"@))
    } else if frame[0] != 0xA5 || frame[1] != 0x5A {
        Err(DecodeErrorModel::InvalidSof)
    } else if frame[2] != 0x01 {
        Err(DecodeErrorModel::InvalidVersion)
    } else if n != frame_len_spec(frame[6]) {
        Err(malformed("length mismatch"@))
    } else if from_le16(frame[n - 2], frame[n - 1]) != crc16(frame.take(n - 2)) {
        Err(DecodeErrorModel::InvalidCrc)
    } else {
        Ok((frame[3], frame[4], frame[5], frame.subrange(7, n - 2)))
    }
}

/// Decoding the envelope of an encoded frame gives back its type, command,
/// sequence number and payload.
pub proof fn lemma_envelope_of_frame(frame_type: u8, command: u8, seq: u8, payload: Seq<u8>)
    requires
        payload.len() <= 255,
    ensures
        envelope_spec(frame_bytes(frame_type, command, seq, payload)) == Ok::<
            (u8, u8, u8, Seq<u8>),
            DecodeErrorModel,
        >((frame_type, command, seq, payload)),
{
    let body = frame_body(frame_type, command, seq, payload);
    let f = frame_bytes(frame_type, command, seq, payload);
    let n = f.len();
    lemma_le16_roundtrip(crc16(body), 0, 0);
    assert(f.take(n - 2) =~= body);
    assert(f.subrange(7, n - 2) =~= payload);
    assert(f[n - 2] == le16(crc16(body))[0]);
    assert(f[n - 1] == le16(crc16(body))[1]);
}

/// A byte sequence whose envelope decodes is exactly the encoding of what it
/// decodes to.
pub proof fn lemma_frame_of_envelope(frame: Seq<u8>)
    requires
        envelope_spec(frame) is Ok,
    ensures
        ({
            let (t, c, s, p) = envelope_spec(frame)->Ok_0;
            &&& p.len() <= 255
            &&& frame == frame_bytes(t, c, s, p)
        }),
{
    let n = frame.len();
    let (t, c, s, p) = envelope_spec(frame)->Ok_0;
    lemma_le16_roundtrip(0, frame[n - 2], frame[n - 1]);
    assert(frame.take(n - 2) =~= frame_body(t, c, s, p));
    assert(frame =~= frame.take(n - 2) + seq![frame[n - 2], frame[n - 1]]);
}

/// Length of the frame that carries `payload_len` payload bytes.
pub fn frame_len_from_payload_len(payload_len: u8) -> (len: usize)
    ensures
        len == frame_len_spec(payload_len),
{
    BMI088_HEADER_LEN + payload_len as usize + BMI088_CRC_LEN
}

/// Length of the frame whose header starts `frame`, from its length byte.
pub fn frame_len(frame: &[u8]) -> (out: Result<usize, Bmi088DecodeError>)
    ensures
        match out {
            Ok(len) => frame@.len() >= 9 && len == frame_len_spec(frame@[6]),
            Err(e) => frame@.len() < 9 && e@ == malformed("frame too short"@),
        },
{
    if frame.len() < BMI088_MIN_FRAME_LEN {
        return Err(malformed_error("frame too short"));
    }
    Ok(frame_len_from_payload_len(frame[6]))
}

/// Validates the envelope of a frame (start marker, version, length and CRC)
/// and returns its type, command, sequence number and payload.
pub fn decode_frame_envelope(frame: &[u8]) -> (out: Result<(u8, u8, u8, &[u8]), Bmi088DecodeError>)
    ensures
        match (out, envelope_spec(frame@)) {
            (Ok((t, c, s, p)), Ok((t2, c2, s2, p2))) => t == t2 && c == c2 && s == s2 && p@ == p2,
            (Err(e), Err(e2)) => e@ == e2,
            _ => false,
        },
{
    if frame.len() < BMI088_MIN_FRAME_LEN {
        return Err(malformed_error("frame too short"));
    }
    if frame[0] != 0xA5 || frame[1] != 0x5A {
        return Err(Bmi088DecodeError::InvalidSof);
    }
    if frame[2] != BMI088_VERSION {
        return Err(Bmi088DecodeError::InvalidVersion);
    }
    let expected_len = frame_len_from_payload_len(frame[6]);
    if frame.len() != expected_len {
        return Err(malformed_error("length mismatch"));
    }
    let crc = u16_from_le(frame[expected_len - 2], frame[expected_len - 1]);
    let body = vstd::slice::slice_subrange(frame, 0, expected_len - 2);
    let calculated = crc16_ccitt(body);
    if crc != calculated {
        return Err(Bmi088DecodeError::InvalidCrc);
    }
    let payload = vstd::slice::slice_subrange(frame, BMI088_HEADER_LEN, expected_len - 2);
    Ok((frame[3], frame[4], frame[5], payload))
}

/// Whether a start marker `A5 5A` begins at position `j` of `buffer`.
pub open spec fn sof_at(buffer: Seq<u8>, j: int) -> bool {
    0 <= j && j + 1 < buffer.len() && buffer[j] == 0xA5 && buffer[j + 1] == 0x5A
}

/// Whether `i` is the position of the first start marker in `buffer`.
pub open spec fn is_first_sof(buffer: Seq<u8>, i: int) -> bool {
    &&& sof_at(buffer, i)
    &&& forall|j: int| 0 <= j < i ==> !#[trigger] sof_at(buffer, j)
}

/// Whether `buffer` holds no start marker.
pub open spec fn has_no_sof(buffer: Seq<u8>) -> bool {
    forall|j: int| !#[trigger] sof_at(buffer, j)
}

/// Finds the first start marker in a buffer.
pub fn find_sof(buffer: &[u8]) -> (out: Option<usize>)
    ensures
        match out {
            Some(i) => is_first_sof(buffer@, i as int),
            None => has_no_sof(buffer@),
        },
{
    if buffer.len() < 2 {
        return None;
    }
    let mut i: usize = 0;
    while i + 1 < buffer.len()
        invariant
            buffer.len() >= 2,
            i + 1 <= buffer.len(),
            forall|j: int| 0 <= j < i ==> !#[trigger] sof_at(buffer@, j),
        decreases buffer.len() - i,
    {
        if buffer[i] == 0xA5 && buffer[i + 1] == 0x5A {
            return Some(i);
        }
        i = i + 1;
    }
    None
}

} // verus!
