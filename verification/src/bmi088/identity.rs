//! The identity payload: a list of tag-length-value records.
//!
//! Record tags: 0x00 identity format version (u8), 0x01 device name,
//! 0x02 board name, 0x03 firmware version, 0x04 protocol name, 0x05 protocol
//! version, 0x06 transport name (UTF-8 strings), 0x07 sample rate (u16 LE),
//! 0x08 schema field count (u8), 0x09 sample payload length (u8), 0x0A
//! protocol version byte (u8), 0x0B feature flags (u16 LE), 0x0C baud rate
//! (u32 LE), 0x0D protocol minor version (u8). Unknown tags are skipped; a
//! repeated tag keeps its last value.

use super::models::{
    malformed, malformed_error, Bmi088DecodeError, Bmi088IdentityFrame, DecodeErrorModel,
    IdentityModel,
};
use crate::bytes::{
    from_le16, from_le32, le16, le32, lemma_le16_roundtrip, lemma_le32_roundtrip, u16_from_le,
    u16_to_le, u32_from_le, u32_to_le,
};
use crate::text::{concat3, string_bytes, string_from_utf8};
use vstd::prelude::*;
use vstd::utf8::{decode_utf8, encode_utf8, valid_utf8};

verus! {

broadcast use {vstd::utf8::encode_utf8_valid_utf8, vstd::utf8::encode_utf8_decode_utf8};

/// One tag-length-value record.
pub open spec fn tlv(tag: u8, value: Seq<u8>) -> Seq<u8> {
    seq![tag, value.len() as u8] + value
}

/// A list of records, one after the other.
pub open spec fn tlvs(items: Seq<(u8, Seq<u8>)>) -> Seq<u8>
    decreases items.len(),
{
    if items.len() == 0 {
        Seq::empty()
    } else {
        tlv(items[0].0, items[0].1) + tlvs(items.drop_first())
    }
}

/// Appending a record to a list of records appends its bytes.
pub proof fn lemma_tlvs_push(items: Seq<(u8, Seq<u8>)>, item: (u8, Seq<u8>))
    ensures
        tlvs(items.push(item)) == tlvs(items) + tlv(item.0, item.1),
    decreases items.len(),
{
    if items.len() == 0 {
        assert(items.push(item).drop_first() =~= Seq::<(u8, Seq<u8>)>::empty());
        assert(items.push(item)[0] == item);
        assert(tlvs(items.push(item).drop_first()) =~= Seq::<u8>::empty());
        assert(tlvs(items.push(item)) =~= tlvs(items) + tlv(item.0, item.1));
    } else {
        lemma_tlvs_push(items.drop_first(), item);
        assert(items.push(item).drop_first() =~= items.drop_first().push(item));
        assert(tlvs(items.push(item)) =~= tlvs(items) + tlv(item.0, item.1));
    }
}

/// The records that encode an identity, in order.
pub open spec fn identity_items(id: IdentityModel) -> Seq<(u8, Seq<u8>)> {
    seq![
        (0x00u8, seq![id.identity_format_version]),
        (0x01u8, encode_utf8(id.device_name)),
        (0x02u8, encode_utf8(id.board_name)),
        (0x03u8, encode_utf8(id.firmware_version)),
        (0x04u8, encode_utf8(id.protocol_name)),
        (0x05u8, encode_utf8(id.protocol_version)),
        (0x06u8, encode_utf8(id.transport_name)),
        (0x07u8, le16(id.sample_rate_hz)),
        (0x08u8, seq![id.schema_field_count]),
        (0x09u8, seq![id.sample_payload_len]),
        (0x0Au8, seq![id.protocol_version_byte]),
        (0x0Bu8, le16(id.feature_flags)),
        (0x0Cu8, le32(id.baud_rate)),
        (0x0Du8, seq![id.protocol_minor_version]),
    ]
}

/// The identity payload of an identity.
pub open spec fn identity_payload(id: IdentityModel) -> Seq<u8> {
    tlvs(identity_items(id))
}

/// Whether every string of an identity fits in one record (255 bytes).
pub open spec fn identity_encodable(id: IdentityModel) -> bool {
    &&& encode_utf8(id.device_name).len() <= 255
    &&& encode_utf8(id.board_name).len() <= 255
    &&& encode_utf8(id.firmware_version).len() <= 255
    &&& encode_utf8(id.protocol_name).len() <= 255
    &&& encode_utf8(id.protocol_version).len() <= 255
    &&& encode_utf8(id.transport_name).len() <= 255
}

/// The fields read so far while decoding an identity payload.
pub struct IdentityAcc {
    pub identity_format_version: Option<u8>,
    pub device_name: Option<Seq<char>>,
    pub board_name: Option<Seq<char>>,
    pub firmware_version: Option<Seq<char>>,
    pub protocol_name: Option<Seq<char>>,
    pub protocol_version: Option<Seq<char>>,
    pub transport_name: Option<Seq<char>>,
    pub sample_rate_hz: Option<u16>,
    pub schema_field_count: Option<u8>,
    pub sample_payload_len: Option<u8>,
    pub protocol_version_byte: Option<u8>,
    pub feature_flags: Option<u16>,
    pub baud_rate: Option<u32>,
    pub protocol_minor_version: Option<u8>,
}

/// No field read yet.
pub open spec fn empty_acc() -> IdentityAcc {
    IdentityAcc {
        identity_format_version: None,
        device_name: None,
        board_name: None,
        firmware_version: None,
        protocol_name: None,
        protocol_version: None,
        transport_name: None,
        sample_rate_hz: None,
        schema_field_count: None,
        sample_payload_len: None,
        protocol_version_byte: None,
        feature_flags: None,
        baud_rate: None,
        protocol_minor_version: None,
    }
}

/// A one-byte record value.
pub open spec fn tlv_u8(value: Seq<u8>, name: Seq<char>) -> Result<u8, DecodeErrorModel> {
    if value.len() != 1 {
        Err(malformed("invalid "@ + name + " size"@))
    } else {
        Ok(value[0])
    }
}

/// A two-byte little-endian record value.
pub open spec fn tlv_u16(value: Seq<u8>, name: Seq<char>) -> Result<u16, DecodeErrorModel> {
    if value.len() != 2 {
        Err(malformed("invalid "@ + name + " size"@))
    } else {
        Ok(from_le16(value[0], value[1]))
    }
}

/// A four-byte little-endian record value.
pub open spec fn tlv_u32(value: Seq<u8>, name: Seq<char>) -> Result<u32, DecodeErrorModel> {
    if value.len() != 4 {
        Err(malformed("invalid "@ + name + " size"@))
    } else {
        Ok(from_le32(value[0], value[1], value[2], value[3]))
    }
}

/// A UTF-8 string record value.
pub open spec fn tlv_string(value: Seq<u8>, name: Seq<char>) -> Result<Seq<char>, DecodeErrorModel> {
    if valid_utf8(value) {
        Ok(decode_utf8(value))
    } else {
        Err(malformed("invalid "@ + name + " utf8"@))
    }
}

/// The fields after reading one record.
pub open spec fn apply_tlv(acc: IdentityAcc, tag: u8, value: Seq<u8>) -> Result<IdentityAcc, DecodeErrorModel> {
    if tag == 0x00 {
        match tlv_u8(value, "identity format version"@) {
            Ok(v) => Ok(IdentityAcc { identity_format_version: Some(v), ..acc }),
            Err(e) => Err(e),
        }
    } else if tag == 0x01 {
        match tlv_string(value, "device name"@) {
            Ok(v) => Ok(IdentityAcc { device_name: Some(v), ..acc }),
            Err(e) => Err(e),
        }
    } else if tag == 0x02 {
        match tlv_string(value, "board name"@) {
            Ok(v) => Ok(IdentityAcc { board_name: Some(v), ..acc }),
            Err(e) => Err(e),
        }
    } else if tag == 0x03 {
        match tlv_string(value, "firmware version"@) {
            Ok(v) => Ok(IdentityAcc { firmware_version: Some(v), ..acc }),
            Err(e) => Err(e),
        }
    } else if tag == 0x04 {
        match tlv_string(value, "protocol name"@) {
            Ok(v) => Ok(IdentityAcc { protocol_name: Some(v), ..acc }),
            Err(e) => Err(e),
        }
    } else if tag == 0x05 {
        match tlv_string(value, "protocol version"@) {
            Ok(v) => Ok(IdentityAcc { protocol_version: Some(v), ..acc }),
            Err(e) => Err(e),
        }
    } else if tag == 0x06 {
        match tlv_string(value, "transport name"@) {
            Ok(v) => Ok(IdentityAcc { transport_name: Some(v), ..acc }),
            Err(e) => Err(e),
        }
    } else if tag == 0x07 {
        match tlv_u16(value, "sample rate"@) {
            Ok(v) => Ok(IdentityAcc { sample_rate_hz: Some(v), ..acc }),
            Err(e) => Err(e),
        }
    } else if tag == 0x08 {
        match tlv_u8(value, "schema field count"@) {
            Ok(v) => Ok(IdentityAcc { schema_field_count: Some(v), ..acc }),
            Err(e) => Err(e),
        }
    } else if tag == 0x09 {
        match tlv_u8(value, "sample payload length"@) {
            Ok(v) => Ok(IdentityAcc { sample_payload_len: Some(v), ..acc }),
            Err(e) => Err(e),
        }
    } else if tag == 0x0A {
        match tlv_u8(value, "protocol version byte"@) {
            Ok(v) => Ok(IdentityAcc { protocol_version_byte: Some(v), ..acc }),
            Err(e) => Err(e),
        }
    } else if tag == 0x0B {
        match tlv_u16(value, "feature flags"@) {
            Ok(v) => Ok(IdentityAcc { feature_flags: Some(v), ..acc }),
            Err(e) => Err(e),
        }
    } else if tag == 0x0C {
        match tlv_u32(value, "baud rate"@) {
            Ok(v) => Ok(IdentityAcc { baud_rate: Some(v), ..acc }),
            Err(e) => Err(e),
        }
    } else if tag == 0x0D {
        match tlv_u8(value, "protocol minor version"@) {
            Ok(v) => Ok(IdentityAcc { protocol_minor_version: Some(v), ..acc }),
            Err(e) => Err(e),
        }
    } else {
        Ok(acc)
    }
}

/// Reads the records of `rest`, starting from the fields `acc`.
pub open spec fn identity_scan(rest: Seq<u8>, acc: IdentityAcc) -> Result<IdentityAcc, DecodeErrorModel>
    decreases rest.len(),
{
    if rest.len() == 0 {
        Ok(acc)
    } else if rest.len() < 2 {
        Err(malformed("identity TLV header too short"@))
    } else if rest.len() < 2 + rest[1] {
        Err(malformed("identity TLV value truncated"@))
    } else {
        let value = rest.subrange(2, 2 + rest[1]);
        match apply_tlv(acc, rest[0], value) {
            Ok(next) => identity_scan(rest.skip(2 + rest[1]), next),
            Err(e) => Err(e),
        }
    }
}

/// The identity once every record was read, or the first missing field.
pub open spec fn identity_finish(seq: u8, acc: IdentityAcc) -> Result<IdentityModel, DecodeErrorModel> {
    if acc.identity_format_version is None {
        Err(malformed("missing identity field: identity format version"@))
    } else if acc.device_name is None {
        Err(malformed("missing identity field: device name"@))
    } else if acc.board_name is None {
        Err(malformed("missing identity field: board name"@))
    } else if acc.firmware_version is None {
        Err(malformed("missing identity field: firmware version"@))
    } else if acc.protocol_name is None {
        Err(malformed("missing identity field: protocol name"@))
    } else if acc.protocol_version is None {
        Err(malformed("missing identity field: protocol version"@))
    } else if acc.transport_name is None {
        Err(malformed("missing identity field: transport name"@))
    } else if acc.sample_rate_hz is None {
        Err(malformed("missing identity field: sample rate"@))
    } else if acc.schema_field_count is None {
        Err(malformed("missing identity field: schema field count"@))
    } else if acc.sample_payload_len is None {
        Err(malformed("missing identity field: sample payload length"@))
    } else if acc.protocol_version_byte is None {
        Err(malformed("missing identity field: protocol version byte"@))
    } else if acc.feature_flags is None {
        Err(malformed("missing identity field: feature flags"@))
    } else if acc.baud_rate is None {
        Err(malformed("missing identity field: baud rate"@))
    } else if acc.protocol_minor_version is None {
        Err(malformed("missing identity field: protocol minor version"@))
    } else {
        Ok(
            IdentityModel {
                seq,
                identity_format_version: acc.identity_format_version->0,
                device_name: acc.device_name->0,
                board_name: acc.board_name->0,
                firmware_version: acc.firmware_version->0,
                protocol_name: acc.protocol_name->0,
                protocol_version: acc.protocol_version->0,
                transport_name: acc.transport_name->0,
                sample_rate_hz: acc.sample_rate_hz->0,
                schema_field_count: acc.schema_field_count->0,
                sample_payload_len: acc.sample_payload_len->0,
                protocol_version_byte: acc.protocol_version_byte->0,
                feature_flags: acc.feature_flags->0,
                baud_rate: acc.baud_rate->0,
                protocol_minor_version: acc.protocol_minor_version->0,
            },
        )
    }
}

/// What decoding an identity payload gives.
pub open spec fn decode_identity_spec(seq: u8, payload: Seq<u8>) -> Result<IdentityModel, DecodeErrorModel> {
    match identity_scan(payload, empty_acc()) {
        Ok(acc) => identity_finish(seq, acc),
        Err(e) => Err(e),
    }
}

/// Reads a list of records one after the other.
pub open spec fn apply_all(items: Seq<(u8, Seq<u8>)>, acc: IdentityAcc) -> Result<IdentityAcc, DecodeErrorModel>
    decreases items.len(),
{
    if items.len() == 0 {
        Ok(acc)
    } else {
        match apply_tlv(acc, items[0].0, items[0].1) {
            Ok(next) => apply_all(items.drop_first(), next),
            Err(e) => Err(e),
        }
    }
}

/// Scanning the bytes of a list of records reads those records.
pub proof fn lemma_scan_tlvs(items: Seq<(u8, Seq<u8>)>, acc: IdentityAcc)
    requires
        forall|i: int| 0 <= i < items.len() ==> (#[trigger] items[i]).1.len() <= 255,
    ensures
        identity_scan(tlvs(items), acc) == apply_all(items, acc),
    decreases items.len(),
{
    if items.len() > 0 {
        let (t, v) = items[0];
        let rest = tlvs(items);
        let tail = tlvs(items.drop_first());
        assert(v.len() <= 255);
        assert(rest == tlv(t, v) + tail);
        assert(rest[0] == t);
        assert(rest[1] == v.len() as u8);
        assert(rest.subrange(2, 2 + rest[1]) =~= v);
        assert(rest.skip(2 + rest[1]) =~= tail);
        match apply_tlv(acc, t, v) {
            Ok(next) => {
                assert forall|i: int| 0 <= i < items.drop_first().len() implies (
                #[trigger] items.drop_first()[i]).1.len() <= 255 by {
                    assert(items.drop_first()[i] == items[i + 1]);
                }
                lemma_scan_tlvs(items.drop_first(), next);
            },
            Err(e) => {},
        }
    }
}

/// Decoding the payload of an identity gives that identity back, with the
/// sequence number of the frame it came in.
pub proof fn lemma_identity_roundtrip(seq: u8, id: IdentityModel)
    requires
        identity_encodable(id),
    ensures
        decode_identity_spec(seq, identity_payload(id)) == Ok::<IdentityModel, DecodeErrorModel>(
            IdentityModel { seq, ..id },
        ),
{
    let items = identity_items(id);
    lemma_le16_roundtrip(id.sample_rate_hz, 0, 0);
    lemma_le16_roundtrip(id.feature_flags, 0, 0);
    lemma_le32_roundtrip(id.baud_rate);
    assert forall|i: int| 0 <= i < items.len() implies (#[trigger] items[i]).1.len() <= 255 by {}
    lemma_scan_tlvs(items, empty_acc());
    reveal_with_fuel(apply_all, 15);
    assert(items.drop_first().drop_first().drop_first().drop_first().drop_first().drop_first()
        .drop_first().drop_first().drop_first().drop_first().drop_first().drop_first().drop_first()
        .drop_first().len() == 0);
}

/// Scanning one record followed by more bytes reads the record, then the rest.
proof fn lemma_scan_tlv_then(tag: u8, value: Seq<u8>, rest: Seq<u8>, acc: IdentityAcc)
    requires
        value.len() <= 255,
    ensures
        identity_scan(tlv(tag, value) + rest, acc) == (match apply_tlv(acc, tag, value) {
            Ok(next) => identity_scan(rest, next),
            Err(e) => Err(e),
        }),
{
    let bytes = tlv(tag, value) + rest;
    assert(bytes[0] == tag);
    assert(bytes[1] == value.len() as u8);
    assert(bytes.subrange(2, 2 + bytes[1]) =~= value);
    assert(bytes.skip(2 + bytes[1]) =~= rest);
}

/// Scanning a list of records followed by more bytes reads the records, then
/// the rest; an error among the records is the result.
proof fn lemma_scan_tlvs_then(items: Seq<(u8, Seq<u8>)>, rest: Seq<u8>, acc: IdentityAcc)
    requires
        forall|i: int| 0 <= i < items.len() ==> (#[trigger] items[i]).1.len() <= 255,
    ensures
        identity_scan(tlvs(items) + rest, acc) == (match apply_all(items, acc) {
            Ok(next) => identity_scan(rest, next),
            Err(e) => Err(e),
        }),
    decreases items.len(),
{
    if items.len() == 0 {
        assert(tlvs(items) + rest =~= rest);
    } else {
        let (t, v) = items[0];
        let tail = items.drop_first();
        assert(v.len() <= 255);
        assert(tlvs(items) + rest =~= tlv(t, v) + (tlvs(tail) + rest));
        lemma_scan_tlv_then(t, v, tlvs(tail) + rest, acc);
        match apply_tlv(acc, t, v) {
            Ok(next) => {
                assert forall|i: int| 0 <= i < tail.len() implies (#[trigger] tail[i]).1.len()
                    <= 255 by {
                    assert(tail[i] == items[i + 1]);
                }
                lemma_scan_tlvs_then(tail, rest, next);
            },
            Err(e) => {},
        }
    }
}

/// The two field sets agree on every field but the one that `tag` sets.
spec fn same_but(a: IdentityAcc, b: IdentityAcc, tag: u8) -> bool {
    &&& (tag != 0x00 ==> a.identity_format_version == b.identity_format_version)
    &&& (tag != 0x01 ==> a.device_name == b.device_name)
    &&& (tag != 0x02 ==> a.board_name == b.board_name)
    &&& (tag != 0x03 ==> a.firmware_version == b.firmware_version)
    &&& (tag != 0x04 ==> a.protocol_name == b.protocol_name)
    &&& (tag != 0x05 ==> a.protocol_version == b.protocol_version)
    &&& (tag != 0x06 ==> a.transport_name == b.transport_name)
    &&& (tag != 0x07 ==> a.sample_rate_hz == b.sample_rate_hz)
    &&& (tag != 0x08 ==> a.schema_field_count == b.schema_field_count)
    &&& (tag != 0x09 ==> a.sample_payload_len == b.sample_payload_len)
    &&& (tag != 0x0A ==> a.protocol_version_byte == b.protocol_version_byte)
    &&& (tag != 0x0B ==> a.feature_flags == b.feature_flags)
    &&& (tag != 0x0C ==> a.baud_rate == b.baud_rate)
    &&& (tag != 0x0D ==> a.protocol_minor_version == b.protocol_minor_version)
}

/// Reading a record of another tag keeps two field sets agreeing but on
/// `tag`; whether it fails, and how, depends on the record alone.
proof fn lemma_apply_other_tag(a: IdentityAcc, b: IdentityAcc, tag: u8, other: u8, value: Seq<u8>)
    requires
        same_but(a, b, tag),
        other != tag,
    ensures
        apply_tlv(a, other, value) is Ok <==> apply_tlv(b, other, value) is Ok,
        apply_tlv(a, other, value) is Err ==> apply_tlv(a, other, value) == apply_tlv(b, other, value),
        apply_tlv(a, other, value) is Ok ==> same_but(
            apply_tlv(a, other, value)->Ok_0,
            apply_tlv(b, other, value)->Ok_0,
            tag,
        ),
{
}

/// Reading records of other tags keeps two field sets agreeing but on `tag`.
proof fn lemma_apply_all_other_tags(items: Seq<(u8, Seq<u8>)>, a: IdentityAcc, b: IdentityAcc, tag: u8)
    requires
        same_but(a, b, tag),
        forall|i: int| 0 <= i < items.len() ==> (#[trigger] items[i]).0 != tag,
    ensures
        apply_all(items, a) is Ok <==> apply_all(items, b) is Ok,
        apply_all(items, a) is Err ==> apply_all(items, a) == apply_all(items, b),
        apply_all(items, a) is Ok ==> same_but(apply_all(items, a)->Ok_0, apply_all(items, b)->Ok_0, tag),
    decreases items.len(),
{
    if items.len() > 0 {
        let (t, v) = items[0];
        assert(t != tag);
        lemma_apply_other_tag(a, b, tag, t, v);
        if apply_tlv(a, t, v) is Ok {
            let tail = items.drop_first();
            assert forall|i: int| 0 <= i < tail.len() implies (#[trigger] tail[i]).0 != tag by {
                assert(tail[i] == items[i + 1]);
            }
            lemma_apply_all_other_tags(tail, apply_tlv(a, t, v)->Ok_0, apply_tlv(b, t, v)->Ok_0, tag);
        }
    }
}

/// A record that decodes on its own: its tag is unknown, or its value has the
/// size and encoding that its tag asks for.
pub open spec fn record_well_formed(tag: u8, value: Seq<u8>) -> bool {
    apply_tlv(empty_acc(), tag, value) is Ok
}

/// A record whose tag the identity does not know is skipped: wherever it
/// stands among whole records, the payload decodes as it would without it.
pub proof fn lemma_identity_unknown_record_skipped(
    seq: u8,
    before: Seq<(u8, Seq<u8>)>,
    tag: u8,
    value: Seq<u8>,
    after: Seq<u8>,
)
    requires
        forall|i: int| 0 <= i < before.len() ==> (#[trigger] before[i]).1.len() <= 255,
        tag > 0x0D,
        value.len() <= 255,
    ensures
        decode_identity_spec(seq, tlvs(before) + tlv(tag, value) + after) == decode_identity_spec(
            seq,
            tlvs(before) + after,
        ),
{
    assert(tlvs(before) + tlv(tag, value) + after =~= tlvs(before) + (tlv(tag, value) + after));
    lemma_scan_tlvs_then(before, tlv(tag, value) + after, empty_acc());
    lemma_scan_tlvs_then(before, after, empty_acc());
    if apply_all(before, empty_acc()) is Ok {
        lemma_scan_tlv_then(tag, value, after, apply_all(before, empty_acc())->Ok_0);
    }
}

/// When a known tag occurs twice, the later record wins: the earlier one,
/// if well formed, changes nothing, whatever records of other tags stand
/// between the two.
pub proof fn lemma_identity_last_record_wins(
    seq: u8,
    before: Seq<(u8, Seq<u8>)>,
    tag: u8,
    first: Seq<u8>,
    between: Seq<(u8, Seq<u8>)>,
    second: Seq<u8>,
    after: Seq<u8>,
)
    requires
        forall|i: int| 0 <= i < before.len() ==> (#[trigger] before[i]).1.len() <= 255,
        forall|i: int| 0 <= i < between.len() ==> (#[trigger] between[i]).1.len() <= 255,
        forall|i: int| 0 <= i < between.len() ==> (#[trigger] between[i]).0 != tag,
        tag <= 0x0D,
        first.len() <= 255,
        second.len() <= 255,
        record_well_formed(tag, first),
    ensures
        decode_identity_spec(
            seq,
            tlvs(before) + tlv(tag, first) + tlvs(between) + tlv(tag, second) + after,
        ) == decode_identity_spec(seq, tlvs(before) + tlvs(between) + tlv(tag, second) + after),
{
    let tail = tlv(tag, second) + after;
    let mid = tlvs(between) + tail;
    assert(tlvs(before) + tlv(tag, first) + tlvs(between) + tlv(tag, second) + after
        =~= tlvs(before) + (tlv(tag, first) + mid));
    assert(tlvs(before) + tlvs(between) + tlv(tag, second) + after =~= tlvs(before) + mid);
    lemma_scan_tlvs_then(before, tlv(tag, first) + mid, empty_acc());
    lemma_scan_tlvs_then(before, mid, empty_acc());
    if apply_all(before, empty_acc()) is Ok {
        let a0 = apply_all(before, empty_acc())->Ok_0;
        lemma_scan_tlv_then(tag, first, mid, a0);
        assert(apply_tlv(a0, tag, first) is Ok);
        let a1 = apply_tlv(a0, tag, first)->Ok_0;
        assert(same_but(a1, a0, tag));
        lemma_scan_tlvs_then(between, tail, a1);
        lemma_scan_tlvs_then(between, tail, a0);
        lemma_apply_all_other_tags(between, a1, a0, tag);
        if apply_all(between, a1) is Ok {
            let b1 = apply_all(between, a1)->Ok_0;
            let b0 = apply_all(between, a0)->Ok_0;
            lemma_scan_tlv_then(tag, second, after, b1);
            lemma_scan_tlv_then(tag, second, after, b0);
            assert(apply_tlv(b1, tag, second) == apply_tlv(b0, tag, second));
        }
    }
}

/// Writing record `k` of a list after records `0..k` gives records `0..k+1`.
proof fn lemma_tlvs_take_step(items: Seq<(u8, Seq<u8>)>, k: int)
    requires
        0 <= k < items.len(),
    ensures
        tlvs(items.take(k + 1)) == tlvs(items.take(k)) + tlv(items[k].0, items[k].1),
{
    lemma_tlvs_push(items.take(k), items[k]);
    assert(items.take(k + 1) =~= items.take(k).push(items[k]));
}

/// Appends one record.
fn encode_tlv_bytes(payload: &mut Vec<u8>, tag: u8, value: &[u8])
    requires
        value@.len() <= 255,
    ensures
        final(payload)@ == old(payload)@ + tlv(tag, value@),
{
    payload.push(tag);
    payload.push(value.len() as u8);
    let mut i: usize = 0;
    while i < value.len()
        invariant
            i <= value.len(),
            value@.len() <= 255,
            payload@ =~= old(payload)@ + seq![tag, value@.len() as u8] + value@.take(i as int),
        decreases value.len() - i,
    {
        payload.push(value[i]);
        i = i + 1;
    }
    assert(value@.take(value.len() as int) =~= value@);
    assert(payload@ =~= old(payload)@ + tlv(tag, value@));
}

/// Appends a one-byte record.
fn encode_tlv_u8(payload: &mut Vec<u8>, tag: u8, value: u8)
    ensures
        final(payload)@ == old(payload)@ + tlv(tag, seq![value]),
{
    let bytes = [value];
    assert(bytes@ =~= seq![value]);
    encode_tlv_bytes(payload, tag, &bytes);
}

/// Appends a two-byte little-endian record.
fn encode_tlv_u16(payload: &mut Vec<u8>, tag: u8, value: u16)
    ensures
        final(payload)@ == old(payload)@ + tlv(tag, le16(value)),
{
    let bytes = u16_to_le(value);
    encode_tlv_bytes(payload, tag, &bytes);
}

/// Appends a four-byte little-endian record.
fn encode_tlv_u32(payload: &mut Vec<u8>, tag: u8, value: u32)
    ensures
        final(payload)@ == old(payload)@ + tlv(tag, le32(value)),
{
    let bytes = u32_to_le(value);
    encode_tlv_bytes(payload, tag, &bytes);
}

/// Appends a UTF-8 string record.
fn encode_tlv_string(payload: &mut Vec<u8>, tag: u8, value: &String)
    requires
        encode_utf8(value@).len() <= 255,
    ensures
        final(payload)@ == old(payload)@ + tlv(tag, encode_utf8(value@)),
{
    let bytes = string_bytes(value);
    encode_tlv_bytes(payload, tag, bytes.as_slice());
}

impl Bmi088IdentityFrame {
    /// Encodes the identity as a list of records.
    pub fn encode_payload(&self) -> (out: Vec<u8>)
        requires
            identity_encodable(self@),
        ensures
            out@ == identity_payload(self@),
    {
        let ghost items = identity_items(self@);
        let mut payload: Vec<u8> = Vec::new();
        assert(tlvs(items.take(0)) =~= payload@);
        encode_tlv_u8(&mut payload, 0x00, self.identity_format_version);
        proof { lemma_tlvs_take_step(items, 0); }
        encode_tlv_string(&mut payload, 0x01, &self.device_name);
        proof { lemma_tlvs_take_step(items, 1); }
        encode_tlv_string(&mut payload, 0x02, &self.board_name);
        proof { lemma_tlvs_take_step(items, 2); }
        encode_tlv_string(&mut payload, 0x03, &self.firmware_version);
        proof { lemma_tlvs_take_step(items, 3); }
        encode_tlv_string(&mut payload, 0x04, &self.protocol_name);
        proof { lemma_tlvs_take_step(items, 4); }
        encode_tlv_string(&mut payload, 0x05, &self.protocol_version);
        proof { lemma_tlvs_take_step(items, 5); }
        encode_tlv_string(&mut payload, 0x06, &self.transport_name);
        proof { lemma_tlvs_take_step(items, 6); }
        encode_tlv_u16(&mut payload, 0x07, self.sample_rate_hz);
        proof { lemma_tlvs_take_step(items, 7); }
        encode_tlv_u8(&mut payload, 0x08, self.schema_field_count);
        proof { lemma_tlvs_take_step(items, 8); }
        encode_tlv_u8(&mut payload, 0x09, self.sample_payload_len);
        proof { lemma_tlvs_take_step(items, 9); }
        encode_tlv_u8(&mut payload, 0x0A, self.protocol_version_byte);
        proof { lemma_tlvs_take_step(items, 10); }
        encode_tlv_u16(&mut payload, 0x0B, self.feature_flags);
        proof { lemma_tlvs_take_step(items, 11); }
        encode_tlv_u32(&mut payload, 0x0C, self.baud_rate);
        proof { lemma_tlvs_take_step(items, 12); }
        encode_tlv_u8(&mut payload, 0x0D, self.protocol_minor_version);
        proof {
            lemma_tlvs_take_step(items, 13);
            assert(items.take(14) =~= items);
        }
        payload
    }
}

/// The fields read so far while decoding.
struct IdentityFields {
    identity_format_version: Option<u8>,
    device_name: Option<String>,
    board_name: Option<String>,
    firmware_version: Option<String>,
    protocol_name: Option<String>,
    protocol_version: Option<String>,
    transport_name: Option<String>,
    sample_rate_hz: Option<u16>,
    schema_field_count: Option<u8>,
    sample_payload_len: Option<u8>,
    protocol_version_byte: Option<u8>,
    feature_flags: Option<u16>,
    baud_rate: Option<u32>,
    protocol_minor_version: Option<u8>,
}

/// Abstract value of an optional string.
pub open spec fn opt_str(s: Option<String>) -> Option<Seq<char>> {
    match s {
        Some(v) => Some(v@),
        None => None,
    }
}

impl View for IdentityFields {
    type V = IdentityAcc;

    closed spec fn view(&self) -> IdentityAcc {
        IdentityAcc {
            identity_format_version: self.identity_format_version,
            device_name: opt_str(self.device_name),
            board_name: opt_str(self.board_name),
            firmware_version: opt_str(self.firmware_version),
            protocol_name: opt_str(self.protocol_name),
            protocol_version: opt_str(self.protocol_version),
            transport_name: opt_str(self.transport_name),
            sample_rate_hz: self.sample_rate_hz,
            schema_field_count: self.schema_field_count,
            sample_payload_len: self.sample_payload_len,
            protocol_version_byte: self.protocol_version_byte,
            feature_flags: self.feature_flags,
            baud_rate: self.baud_rate,
            protocol_minor_version: self.protocol_minor_version,
        }
    }
}

/// The malformed-frame error `invalid <name> <what>`.
fn invalid_error(name: &str, what: &str) -> (out: Bmi088DecodeError)
    ensures
        out@ == malformed("invalid "@ + name@ + what@),
{
    Bmi088DecodeError::MalformedFrame(concat3("invalid ", name, what))
}

/// Decodes a one-byte record value.
fn decode_tlv_u8(value: &[u8], name: &str) -> (out: Result<u8, Bmi088DecodeError>)
    ensures
        match (out, tlv_u8(value@, name@)) {
            (Ok(a), Ok(b)) => a == b,
            (Err(a), Err(b)) => a@ == b,
            _ => false,
        },
{
    if value.len() != 1 {
        return Err(invalid_error(name, " size"));
    }
    Ok(value[0])
}

/// Decodes a two-byte little-endian record value.
fn decode_tlv_u16(value: &[u8], name: &str) -> (out: Result<u16, Bmi088DecodeError>)
    ensures
        match (out, tlv_u16(value@, name@)) {
            (Ok(a), Ok(b)) => a == b,
            (Err(a), Err(b)) => a@ == b,
            _ => false,
        },
{
    if value.len() != 2 {
        return Err(invalid_error(name, " size"));
    }
    Ok(u16_from_le(value[0], value[1]))
}

/// Decodes a four-byte little-endian record value.
fn decode_tlv_u32(value: &[u8], name: &str) -> (out: Result<u32, Bmi088DecodeError>)
    ensures
        match (out, tlv_u32(value@, name@)) {
            (Ok(a), Ok(b)) => a == b,
            (Err(a), Err(b)) => a@ == b,
            _ => false,
        },
{
    if value.len() != 4 {
        return Err(invalid_error(name, " size"));
    }
    Ok(u32_from_le(value[0], value[1], value[2], value[3]))
}

/// Decodes a UTF-8 string record value.
fn decode_tlv_string(value: &[u8], name: &str) -> (out: Result<String, Bmi088DecodeError>)
    ensures
        match (out, tlv_string(value@, name@)) {
            (Ok(a), Ok(b)) => a@ == b,
            (Err(a), Err(b)) => a@ == b,
            _ => false,
        },
{
    match string_from_utf8(value) {
        Some(s) => Ok(s),
        None => Err(invalid_error(name, " utf8")),
    }
}

/// Reads one record into the fields.
fn apply_tlv_exec(acc: &mut IdentityFields, tag: u8, value: &[u8]) -> (out: Result<(), Bmi088DecodeError>)
    ensures
        match (out, apply_tlv(old(acc)@, tag, value@)) {
            (Ok(_), Ok(next)) => final(acc)@ == next,
            (Err(a), Err(b)) => a@ == b,
            _ => false,
        },
{
    if tag == 0x00 {
        acc.identity_format_version = Some(decode_tlv_u8(value, "identity format version")?);
    } else if tag == 0x01 {
        acc.device_name = Some(decode_tlv_string(value, "device name")?);
    } else if tag == 0x02 {
        acc.board_name = Some(decode_tlv_string(value, "board name")?);
    } else if tag == 0x03 {
        acc.firmware_version = Some(decode_tlv_string(value, "firmware version")?);
    } else if tag == 0x04 {
        acc.protocol_name = Some(decode_tlv_string(value, "protocol name")?);
    } else if tag == 0x05 {
        acc.protocol_version = Some(decode_tlv_string(value, "protocol version")?);
    } else if tag == 0x06 {
        acc.transport_name = Some(decode_tlv_string(value, "transport name")?);
    } else if tag == 0x07 {
        acc.sample_rate_hz = Some(decode_tlv_u16(value, "sample rate")?);
    } else if tag == 0x08 {
        acc.schema_field_count = Some(decode_tlv_u8(value, "schema field count")?);
    } else if tag == 0x09 {
        acc.sample_payload_len = Some(decode_tlv_u8(value, "sample payload length")?);
    } else if tag == 0x0A {
        acc.protocol_version_byte = Some(decode_tlv_u8(value, "protocol version byte")?);
    } else if tag == 0x0B {
        acc.feature_flags = Some(decode_tlv_u16(value, "feature flags")?);
    } else if tag == 0x0C {
        acc.baud_rate = Some(decode_tlv_u32(value, "baud rate")?);
    } else if tag == 0x0D {
        acc.protocol_minor_version = Some(decode_tlv_u8(value, "protocol minor version")?);
    }
    Ok(())
}

/// Decodes an identity payload with sequence number 0.
pub fn decode_identity_payload(payload: &[u8]) -> (out: Result<Bmi088IdentityFrame, Bmi088DecodeError>)
    ensures
        match (out, decode_identity_spec(0, payload@)) {
            (Ok(a), Ok(b)) => a@ == b,
            (Err(a), Err(b)) => a@ == b,
            _ => false,
        },
{
    decode_identity_payload_with_seq(0, payload)
}

/// Decodes an identity payload.
pub fn decode_identity_payload_with_seq(seq: u8, payload: &[u8]) -> (out: Result<
    Bmi088IdentityFrame,
    Bmi088DecodeError,
>)
    ensures
        match (out, decode_identity_spec(seq, payload@)) {
            (Ok(a), Ok(b)) => a@ == b,
            (Err(a), Err(b)) => a@ == b,
            _ => false,
        },
{
    let mut acc = IdentityFields {
        identity_format_version: None,
        device_name: None,
        board_name: None,
        firmware_version: None,
        protocol_name: None,
        protocol_version: None,
        transport_name: None,
        sample_rate_hz: None,
        schema_field_count: None,
        sample_payload_len: None,
        protocol_version_byte: None,
        feature_flags: None,
        baud_rate: None,
        protocol_minor_version: None,
    };
    let mut offset: usize = 0;
    assert(payload@.skip(0) =~= payload@);
    assert(acc@ == empty_acc());
    while offset < payload.len()
        invariant
            offset <= payload.len(),
            identity_scan(payload@, empty_acc()) == identity_scan(payload@.skip(offset as int), acc@),
        decreases payload.len() - offset,
    {
        let ghost rest = payload@.skip(offset as int);
        if payload.len() - offset < 2 {
            return Err(malformed_error("identity TLV header too short"));
        }
        let tag = payload[offset];
        let value_len = payload[offset + 1] as usize;
        assert(rest[0] == tag && rest[1] == value_len);
        if payload.len() - offset - 2 < value_len {
            return Err(malformed_error("identity TLV value truncated"));
        }
        let value = vstd::slice::slice_subrange(payload, offset + 2, offset + 2 + value_len);
        assert(value@ =~= rest.subrange(2, 2 + rest[1]));
        apply_tlv_exec(&mut acc, tag, value)?;
        assert(rest.skip(2 + rest[1]) =~= payload@.skip(offset + 2 + value_len));
        offset = offset + 2 + value_len;
    }
    assert(payload@.skip(offset as int).len() == 0);
    let ghost done = acc@;
    let identity_format_version = match acc.identity_format_version {
        Some(v) => v,
        None => return Err(malformed_error("missing identity field: identity format version")),
    };
    let device_name = match acc.device_name {
        Some(v) => v,
        None => return Err(malformed_error("missing identity field: device name")),
    };
    let board_name = match acc.board_name {
        Some(v) => v,
        None => return Err(malformed_error("missing identity field: board name")),
    };
    let firmware_version = match acc.firmware_version {
        Some(v) => v,
        None => return Err(malformed_error("missing identity field: firmware version")),
    };
    let protocol_name = match acc.protocol_name {
        Some(v) => v,
        None => return Err(malformed_error("missing identity field: protocol name")),
    };
    let protocol_version = match acc.protocol_version {
        Some(v) => v,
        None => return Err(malformed_error("missing identity field: protocol version")),
    };
    let transport_name = match acc.transport_name {
        Some(v) => v,
        None => return Err(malformed_error("missing identity field: transport name")),
    };
    let sample_rate_hz = match acc.sample_rate_hz {
        Some(v) => v,
        None => return Err(malformed_error("missing identity field: sample rate")),
    };
    let schema_field_count = match acc.schema_field_count {
        Some(v) => v,
        None => return Err(malformed_error("missing identity field: schema field count")),
    };
    let sample_payload_len = match acc.sample_payload_len {
        Some(v) => v,
        None => return Err(malformed_error("missing identity field: sample payload length")),
    };
    let protocol_version_byte = match acc.protocol_version_byte {
        Some(v) => v,
        None => return Err(malformed_error("missing identity field: protocol version byte")),
    };
    let feature_flags = match acc.feature_flags {
        Some(v) => v,
        None => return Err(malformed_error("missing identity field: feature flags")),
    };
    let baud_rate = match acc.baud_rate {
        Some(v) => v,
        None => return Err(malformed_error("missing identity field: baud rate")),
    };
    let protocol_minor_version = match acc.protocol_minor_version {
        Some(v) => v,
        None => return Err(malformed_error("missing identity field: protocol minor version")),
    };
    Ok(
        Bmi088IdentityFrame {
            seq,
            identity_format_version,
            device_name,
            board_name,
            firmware_version,
            protocol_name,
            protocol_version,
            transport_name,
            sample_rate_hz,
            schema_field_count,
            sample_payload_len,
            protocol_version_byte,
            feature_flags,
            baud_rate,
            protocol_minor_version,
        },
    )
}

} // verus!
