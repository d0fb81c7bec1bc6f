//! Little-endian integer encodings used on the wire.

use vstd::prelude::*;

verus! {

/// The two little-endian bytes of a 16-bit value.
pub open spec fn le16(v: u16) -> Seq<u8> {
    seq![(v % 256) as u8, (v / 256) as u8]
}

/// The four little-endian bytes of a 32-bit value.
pub open spec fn le32(v: u32) -> Seq<u8> {
    seq![(v % 256) as u8, ((v / 256) % 256) as u8, ((v / 65536) % 256) as u8, (v / 16777216) as u8]
}

/// The value of two little-endian bytes.
pub open spec fn from_le16(lo: u8, hi: u8) -> u16 {
    (lo as int + 256 * (hi as int)) as u16
}

/// The value of four little-endian bytes.
pub open spec fn from_le32(b0: u8, b1: u8, b2: u8, b3: u8) -> u32 {
    (b0 as int + 256 * (b1 as int) + 65536 * (b2 as int) + 16777216 * (b3 as int)) as u32
}

/// The signed value of two little-endian two's-complement bytes.
pub open spec fn from_le16_signed(lo: u8, hi: u8) -> i16 {
    let u = lo as int + 256 * (hi as int);
    (if u >= 32768 { u - 65536 } else { u }) as i16
}

/// The two little-endian two's-complement bytes of a signed 16-bit value.
pub open spec fn le16_signed(v: i16) -> Seq<u8> {
    let u: int = if v < 0 { v + 65536 } else { v as int };
    seq![(u % 256) as u8, (u / 256) as u8]
}

/// Encoding then decoding a 16-bit value gives it back, and decoding then
/// encoding two bytes gives them back.
pub proof fn lemma_le16_roundtrip(v: u16, lo: u8, hi: u8)
    ensures
        from_le16(le16(v)[0], le16(v)[1]) == v,
        le16(from_le16(lo, hi)) == seq![lo, hi],
        le16(v).len() == 2,
{
    assert(le16(from_le16(lo, hi)) =~= seq![lo, hi]);
}

/// Encoding then decoding a 32-bit value gives it back.
pub proof fn lemma_le32_roundtrip(v: u32)
    ensures
        from_le32(le32(v)[0], le32(v)[1], le32(v)[2], le32(v)[3]) == v,
        le32(v).len() == 4,
{
}

/// Encoding then decoding a signed 16-bit value gives it back, and decoding
/// then encoding two bytes gives them back.
pub proof fn lemma_le16_signed_roundtrip(v: i16, lo: u8, hi: u8)
    ensures
        from_le16_signed(le16_signed(v)[0], le16_signed(v)[1]) == v,
        le16_signed(from_le16_signed(lo, hi)) == seq![lo, hi],
        le16_signed(v).len() == 2,
{
    assert(le16_signed(from_le16_signed(lo, hi)) =~= seq![lo, hi]);
}

/// Encodes a 16-bit value as two little-endian bytes.
pub fn u16_to_le(v: u16) -> (out: [u8; 2])
    ensures
        out@ == le16(v),
{
    let out = [(v % 256) as u8, (v / 256) as u8];
    assert(out@ =~= le16(v));
    out
}

/// Encodes a 32-bit value as four little-endian bytes.
pub fn u32_to_le(v: u32) -> (out: [u8; 4])
    ensures
        out@ == le32(v),
{
    let out = [(v % 256) as u8, ((v / 256) % 256) as u8, ((v / 65536) % 256) as u8, (v / 16777216) as u8];
    assert(out@ =~= le32(v));
    out
}

/// Encodes a signed 16-bit value as two little-endian two's-complement bytes.
pub fn i16_to_le(v: i16) -> (out: [u8; 2])
    ensures
        out@ == le16_signed(v),
{
    let u: u32 = if v < 0 { (v as i32 + 65536) as u32 } else { v as u32 };
    let out = [(u % 256) as u8, (u / 256) as u8];
    assert(out@ =~= le16_signed(v));
    out
}

/// Decodes two little-endian bytes.
pub fn u16_from_le(lo: u8, hi: u8) -> (v: u16)
    ensures
        v == from_le16(lo, hi),
{
    (lo as u16) + 256 * (hi as u16)
}

/// Decodes four little-endian bytes.
pub fn u32_from_le(b0: u8, b1: u8, b2: u8, b3: u8) -> (v: u32)
    ensures
        v == from_le32(b0, b1, b2, b3),
{
    (b0 as u32) + 256 * (b1 as u32) + 65536 * (b2 as u32) + 16777216 * (b3 as u32)
}

/// Decodes two little-endian two's-complement bytes.
pub fn i16_from_le(lo: u8, hi: u8) -> (v: i16)
    ensures
        v == from_le16_signed(lo, hi),
{
    let u: i32 = (lo as i32) + 256 * (hi as i32);
    if u >= 32768 {
        (u - 65536) as i16
    } else {
        u as i16
    }
}

} // verus!
