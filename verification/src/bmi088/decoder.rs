//! Whole-frame decoding: envelope validation, then dispatch on frame type
//! and command.

use super::encoder::{identity_frame, sample_frame, schema_frame};
use super::frame::{
    decode_frame_envelope, envelope_spec, lemma_crc16_detects_one_changed_byte, lemma_envelope_of_frame,
};
use crate::bytes::from_le16;
use super::identity::{
    decode_identity_payload_with_seq, decode_identity_spec, identity_encodable, identity_payload,
    lemma_identity_roundtrip,
};
use super::models::{
    malformed, malformed_error, Bmi088DecodeError, Bmi088Frame, Bmi088SchemaFrame,
    DecodeErrorModel, FrameModel, IdentityModel, SampleModel, SchemaModel,
};
use super::sample::{
    decode_sample_payload_with_schema_and_seq, decode_sample_spec, lemma_sample_payload_len,
    lemma_sample_roundtrip, sample_fields, sample_raws,
};
use super::schema::{
    all_compact, decode_schema_payload_with_seq, decode_schema_spec, lemma_schema_roundtrip_compact,
    schema_payload,
};
use super::tables::{compact_unit_code_spec, default_schema, default_schema_spec};
use crate::message::{LinePayload, LinePayloadModel};
use crate::text::{lossy_text, utf8_lossy};
use vstd::prelude::*;

verus! {

/// Maps a decode result into a frame.
pub open spec fn as_frame<T>(r: Result<T, DecodeErrorModel>, f: spec_fn(T) -> FrameModel) -> Result<FrameModel, DecodeErrorModel> {
    match r {
        Ok(v) => Ok(f(v)),
        Err(e) => Err(e),
    }
}

/// What decoding a sample payload gives under the active schema: the
/// cached schema if any, falling back to the default schema when the
/// cached one does not match.
pub open spec fn decode_sample_frame_spec(payload: Seq<u8>, schema: Option<SchemaModel>, seq: u8) -> Result<
    SampleModel,
    DecodeErrorModel,
> {
    let active = match schema {
        Some(s) => s,
        None => default_schema_spec(),
    };
    match decode_sample_spec(payload, active, seq) {
        Ok(s) => Ok(s),
        Err(DecodeErrorModel::SchemaMismatch(m)) => if schema is Some {
            decode_sample_spec(payload, default_schema_spec(), seq)
        } else {
            Err(DecodeErrorModel::SchemaMismatch(m))
        },
        Err(e) => Err(e),
    }
}

/// What decoding a frame gives, with an optional cached schema for samples.
pub open spec fn decode_frame_spec(frame: Seq<u8>, schema: Option<SchemaModel>) -> Result<
    FrameModel,
    DecodeErrorModel,
> {
    match envelope_spec(frame) {
        Err(e) => Err(e),
        Ok((frame_type, command, seq, payload)) => {
            let event_or_response = frame_type == 0x03 || frame_type == 0x02;
            if event_or_response && command == 0x82 {
                as_frame(decode_identity_spec(seq, payload), |i: IdentityModel| FrameModel::Identity(i))
            } else if event_or_response && command == 0x80 {
                as_frame(decode_schema_spec(seq, payload), |s: SchemaModel| FrameModel::Schema(s))
            } else if frame_type == 0x03 && command == 0x83 {
                Ok(FrameModel::ShellOutput(LinePayloadModel { text: utf8_lossy(payload), raw: payload }))
            } else if event_or_response && command == 0x81 {
                as_frame(decode_sample_frame_spec(payload, schema, seq), |s: SampleModel| FrameModel::Sample(s))
            } else {
                Err(malformed("unsupported command"@))
            }
        },
    }
}

/// Decodes a frame without a cached schema.
pub fn decode_binary_frame(frame: &[u8]) -> (out: Result<Bmi088Frame, Bmi088DecodeError>)
    ensures
        match (out, decode_frame_spec(frame@, None)) {
            (Ok(a), Ok(b)) => a@ == b,
            (Err(a), Err(b)) => a@ == b,
            _ => false,
        },
{
    decode_binary_frame_with_schema(frame, None)
}

/// Decodes a frame; samples are read with the cached schema if one is given.
pub fn decode_binary_frame_with_schema(frame: &[u8], schema: Option<&Bmi088SchemaFrame>) -> (out: Result<
    Bmi088Frame,
    Bmi088DecodeError,
>)
    ensures
        match (out, decode_frame_spec(frame@, match schema { Some(s) => Some(s@), None => None })) {
            (Ok(a), Ok(b)) => a@ == b,
            (Err(a), Err(b)) => a@ == b,
            _ => false,
        },
{
    let (frame_type, command, seq, payload) = decode_frame_envelope(frame)?;
    let event_or_response = frame_type == 0x03 || frame_type == 0x02;
    if event_or_response && command == 0x82 {
        let identity = decode_identity_payload_with_seq(seq, payload)?;
        Ok(Bmi088Frame::Identity(identity))
    } else if event_or_response && command == 0x80 {
        let decoded = decode_schema_payload_with_seq(seq, payload)?;
        Ok(Bmi088Frame::Schema(decoded))
    } else if frame_type == 0x03 && command == 0x83 {
        let text = lossy_text(payload);
        let raw = vstd::slice::slice_to_vec(payload);
        Ok(Bmi088Frame::ShellOutput(LinePayload { text, raw }))
    } else if event_or_response && command == 0x81 {
        let fallback = default_schema();
        let first = match schema {
            Some(s) => decode_sample_payload_with_schema_and_seq(payload, s, seq),
            None => decode_sample_payload_with_schema_and_seq(payload, &fallback, seq),
        };
        match first {
            Ok(sample) => Ok(Bmi088Frame::Sample(sample)),
            Err(Bmi088DecodeError::SchemaMismatch(m)) => {
                if schema.is_some() {
                    let sample = decode_sample_payload_with_schema_and_seq(payload, &fallback, seq)?;
                    Ok(Bmi088Frame::Sample(sample))
                } else {
                    Err(Bmi088DecodeError::SchemaMismatch(m))
                }
            },
            Err(e) => Err(e),
        }
    } else {
        Err(malformed_error("unsupported command"))
    }
}

/// Decoding an encoded identity frame gives the identity back.
pub proof fn lemma_identity_frame_roundtrip(id: IdentityModel, seq: u8, schema: Option<SchemaModel>)
    requires
        identity_encodable(id),
        identity_payload(id).len() <= 255,
    ensures
        decode_frame_spec(identity_frame(id, seq), schema) == Ok::<FrameModel, DecodeErrorModel>(
            FrameModel::Identity(IdentityModel { seq, ..id }),
        ),
{
    lemma_envelope_of_frame(0x03, 0x82, seq, identity_payload(id));
    lemma_identity_roundtrip(seq, id);
}

/// Decoding an encoded schema frame gives the schema back, when its fields
/// all have compact codes.
pub proof fn lemma_schema_frame_roundtrip(s: SchemaModel, seq: u8, schema: Option<SchemaModel>)
    requires
        s.schema_version == 0x01,
        s.rate_hz <= 255,
        s.fields.len() <= 50,
        s.sample_len == 2 * s.fields.len(),
        all_compact(s.fields),
        forall|i: int| 0 <= i < s.fields.len() ==> {
            &&& compact_unit_code_spec((#[trigger] s.fields[i]).unit) is Some
            &&& s.fields[i].field_type == 0x01
        },
    ensures
        decode_frame_spec(schema_frame(s, seq), schema) == Ok::<FrameModel, DecodeErrorModel>(
            FrameModel::Schema(SchemaModel { seq, ..s }),
        ),
{
    super::schema::lemma_compact_payload_len(s);
    lemma_envelope_of_frame(0x03, 0x80, seq, schema_payload(s));
    lemma_schema_roundtrip_compact(seq, s);
}

/// Decoding an encoded sample frame under the schema it was written for
/// gives the sample values back.
pub proof fn lemma_sample_frame_roundtrip(sample: SampleModel, seq: u8, schema: SchemaModel)
    requires
        sample.fields.len() == schema.fields.len(),
        schema.sample_len == 2 * sample.fields.len(),
        sample.fields.len() <= 127,
    ensures
        decode_frame_spec(sample_frame(sample, seq), Some(schema)) == Ok::<FrameModel, DecodeErrorModel>(
            FrameModel::Sample(SampleModel { seq, fields: sample_fields(schema.fields, sample_raws(sample)) }),
        ),
{
    let raws = sample_raws(sample);
    lemma_sample_payload_len(raws);
    super::sample::lemma_sample_payload_len(raws);
    lemma_envelope_of_frame(0x03, 0x81, seq, super::sample::sample_payload(raws));
    lemma_sample_roundtrip(raws, schema, seq);
}

/// Decoding an encoded schema frame gives the schema back when its fields
/// are written inline (some field lacks a compact code) and its payload
/// fits a frame.
pub proof fn lemma_schema_frame_roundtrip_inline(s: SchemaModel, seq: u8, schema: Option<SchemaModel>)
    requires
        s.schema_version == 0x01,
        s.rate_hz <= 255,
        s.fields.len() <= 127,
        s.sample_len == 2 * s.fields.len(),
        !all_compact(s.fields),
        exists|i: int|
            0 <= i < s.fields.len() && vstd::utf8::encode_utf8((#[trigger] s.fields[i]).name).len()
                + vstd::utf8::encode_utf8(s.fields[i].unit).len() > 0,
        forall|i: int| 0 <= i < s.fields.len() ==> {
            &&& vstd::utf8::encode_utf8((#[trigger] s.fields[i]).name).len() <= 255
            &&& vstd::utf8::encode_utf8(s.fields[i].unit).len() <= 255
            &&& s.fields[i].field_type == 0x01
            &&& s.fields[i].field_id == i
        },
        schema_payload(s).len() <= 255,
    ensures
        decode_frame_spec(schema_frame(s, seq), schema) == Ok::<FrameModel, DecodeErrorModel>(
            FrameModel::Schema(SchemaModel { seq, ..s }),
        ),
{
    lemma_envelope_of_frame(0x03, 0x80, seq, schema_payload(s));
    super::schema::lemma_schema_roundtrip_inline(seq, s);
}

/// Decoding an encoded shell-output frame gives its bytes back, with their
/// lossy UTF-8 text.
pub proof fn lemma_shell_frame_roundtrip(raw: Seq<u8>, seq: u8, schema: Option<SchemaModel>)
    requires
        raw.len() <= 255,
    ensures
        decode_frame_spec(super::frame::frame_bytes(0x03, 0x83, seq, raw), schema) == Ok::<FrameModel, DecodeErrorModel>(
            FrameModel::ShellOutput(LinePayloadModel { text: utf8_lossy(raw), raw }),
        ),
{
    lemma_envelope_of_frame(0x03, 0x83, seq, raw);
}

/// A sample whose length does not match the cached schema is read with the
/// default schema, as if no schema were cached.
pub proof fn lemma_mismatched_schema_falls_back(frame: Seq<u8>, schema: SchemaModel)
    requires
        envelope_spec(frame) is Ok,
        envelope_spec(frame)->Ok_0.3.len() != schema.sample_len,
    ensures
        decode_frame_spec(frame, Some(schema)) == decode_frame_spec(frame, None),
{
}

/// Changing any one byte of a valid frame after its version byte, the
/// length byte aside, is caught by the CRC check, whatever schema is cached.
pub proof fn lemma_corrupted_byte_fails_crc(frame: Seq<u8>, i: int, flip: u8, schema: Option<SchemaModel>)
    requires
        envelope_spec(frame) is Ok,
        3 <= i < frame.len(),
        i != 6,
        flip != 0,
    ensures
        decode_frame_spec(frame.update(i, (frame[i] ^ flip) as u8), schema) == Err::<
            FrameModel,
            DecodeErrorModel,
        >(DecodeErrorModel::InvalidCrc),
{
    let n = frame.len();
    let old_byte = frame[i];
    let new_byte = (old_byte ^ flip) as u8;
    assert(new_byte != old_byte) by (bit_vector)
        requires
            new_byte == (old_byte ^ flip) as u8,
            flip != 0,
    ;
    let g = frame.update(i, new_byte);
    assert(g[0] == frame[0] && g[1] == frame[1] && g[2] == frame[2] && g[6] == frame[6]);
    if i < n - 2 {
        lemma_crc16_detects_one_changed_byte(frame.take(n - 2), g.take(n - 2), i);
        assert(g[n - 2] == frame[n - 2] && g[n - 1] == frame[n - 1]);
    } else {
        assert(g.take(n - 2) =~= frame.take(n - 2));
        assert(from_le16(g[n - 2], g[n - 1]) != from_le16(frame[n - 2], frame[n - 1]));
    }
}

/// The name of a decode error as the decoder's log writes it.
pub open spec fn decode_error_text(e: Bmi088DecodeError) -> Seq<char> {
    match e {
        Bmi088DecodeError::InvalidSof => "InvalidSof"@,
        Bmi088DecodeError::InvalidVersion => "InvalidVersion"@,
        Bmi088DecodeError::InvalidCrc => "InvalidCrc"@,
        Bmi088DecodeError::MalformedFrame(r) => "MalformedFrame("@ + r@ + ")"@,
        Bmi088DecodeError::SchemaMismatch(r) => "SchemaMismatch("@ + r@ + ")"@,
    }
}

/// Names a decode error for the log.
pub fn decode_error_label(error: &Bmi088DecodeError) -> (out: String)
    ensures
        out@ == decode_error_text(*error),
{
    match error {
        Bmi088DecodeError::InvalidSof => crate::text::owned("InvalidSof"),
        Bmi088DecodeError::InvalidVersion => crate::text::owned("InvalidVersion"),
        Bmi088DecodeError::InvalidCrc => crate::text::owned("InvalidCrc"),
        Bmi088DecodeError::MalformedFrame(reason) => {
            let mut s = crate::text::owned("MalformedFrame(");
            s.append(reason.as_str());
            s.append(")");
            s
        },
        Bmi088DecodeError::SchemaMismatch(reason) => {
            let mut s = crate::text::owned("SchemaMismatch(");
            s.append(reason.as_str());
            s.append(")");
            s
        },
    }
}

/// The first `max_len` characters of a text, and `...` when some were
/// left out.
pub open spec fn text_preview_text(text: Seq<char>, max_len: int) -> Seq<char> {
    if text.len() > max_len {
        text.take(max_len) + "..."@
    } else {
        text
    }
}

/// Shortens a text for the log.
pub fn text_preview(text: &str, max_len: usize) -> (out: String)
    ensures
        out@ == text_preview_text(text@, max_len as int),
{
    let chars = crate::text::chars_of(text);
    if chars.len() > max_len {
        let head = vstd::slice::slice_subrange(chars.as_slice(), 0, max_len);
        let mut s = crate::text::string_from_chars(head);
        assert(head@ =~= text@.take(max_len as int));
        s.append("...");
        s
    } else {
        crate::text::owned(text)
    }
}

} // verus!
