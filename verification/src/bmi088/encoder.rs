//! Whole-frame encoders for identity, schema, sample and shell-output frames.

use super::constants::{
    BMI088_CMD_IDENTITY, BMI088_CMD_SAMPLE, BMI088_CMD_SCHEMA, BMI088_CMD_SHELL_OUTPUT,
    BMI088_FRAME_TYPE_EVENT,
};
use super::frame::{encode_frame, frame_bytes};
use super::identity::{identity_encodable, identity_payload};
use super::models::{Bmi088IdentityFrame, Bmi088SampleFrame, Bmi088SchemaFrame, IdentityModel, SampleModel, SchemaModel};
use super::sample::{encode_sample_payload, lemma_sample_payload_len, sample_payload, sample_raws};
use super::schema::schema_payload;
use crate::message::LinePayload;
use vstd::prelude::*;

verus! {

/// The bytes of an identity event frame.
pub open spec fn identity_frame(id: IdentityModel, seq: u8) -> Seq<u8> {
    frame_bytes(0x03, 0x82, seq, identity_payload(id))
}

/// The bytes of a schema event frame.
pub open spec fn schema_frame(s: SchemaModel, seq: u8) -> Seq<u8> {
    frame_bytes(0x03, 0x80, seq, schema_payload(s))
}

/// The bytes of a sample event frame.
pub open spec fn sample_frame(s: SampleModel, seq: u8) -> Seq<u8> {
    frame_bytes(0x03, 0x81, seq, sample_payload(sample_raws(s)))
}

/// Encodes an identity event frame with the identity's own sequence number.
pub fn encode_identity_frame(identity: &Bmi088IdentityFrame) -> (out: Vec<u8>)
    requires
        identity_encodable(identity@),
        identity_payload(identity@).len() <= 255,
    ensures
        out@ == identity_frame(identity@, identity.seq),
{
    encode_identity_frame_with_seq(identity, identity.seq)
}

/// Encodes an identity event frame.
pub fn encode_identity_frame_with_seq(identity: &Bmi088IdentityFrame, seq: u8) -> (out: Vec<u8>)
    requires
        identity_encodable(identity@),
        identity_payload(identity@).len() <= 255,
    ensures
        out@ == identity_frame(identity@, seq),
{
    let payload = identity.encode_payload();
    encode_frame(BMI088_FRAME_TYPE_EVENT, BMI088_CMD_IDENTITY, seq, payload.as_slice())
}

/// Encodes a schema event frame with the schema's own sequence number.
pub fn encode_schema_frame(schema: &Bmi088SchemaFrame) -> (out: Vec<u8>)
    requires
        schema_payload(schema@).len() <= 255,
    ensures
        out@ == schema_frame(schema@, schema.seq),
{
    encode_schema_frame_with_seq(schema, schema.seq)
}

/// Encodes a schema event frame.
pub fn encode_schema_frame_with_seq(schema: &Bmi088SchemaFrame, seq: u8) -> (out: Vec<u8>)
    requires
        schema_payload(schema@).len() <= 255,
    ensures
        out@ == schema_frame(schema@, seq),
{
    let payload = schema.encode_payload();
    encode_frame(BMI088_FRAME_TYPE_EVENT, BMI088_CMD_SCHEMA, seq, payload.as_slice())
}

/// Encodes a sample event frame with the sample's own sequence number.
pub fn encode_sample_frame(sample: &Bmi088SampleFrame) -> (out: Vec<u8>)
    requires
        sample@.fields.len() <= 127,
    ensures
        out@ == sample_frame(sample@, sample.seq),
{
    encode_sample_frame_with_seq(sample, sample.seq)
}

/// Encodes a sample event frame.
pub fn encode_sample_frame_with_seq(sample: &Bmi088SampleFrame, seq: u8) -> (out: Vec<u8>)
    requires
        sample@.fields.len() <= 127,
    ensures
        out@ == sample_frame(sample@, seq),
{
    let payload = encode_sample_payload(sample);
    proof {
        lemma_sample_payload_len(sample_raws(sample@));
    }
    encode_frame(BMI088_FRAME_TYPE_EVENT, BMI088_CMD_SAMPLE, seq, payload.as_slice())
}

/// Encodes a shell-output event frame carrying the raw bytes of a line.
pub fn encode_shell_output_frame(output: &LinePayload, seq: u8) -> (out: Vec<u8>)
    requires
        output.raw@.len() <= 255,
    ensures
        out@ == frame_bytes(0x03, 0x83, seq, output.raw@),
{
    encode_frame(BMI088_FRAME_TYPE_EVENT, BMI088_CMD_SHELL_OUTPUT, seq, output.raw.as_slice())
}

} // verus!
