//! The sample payload: one little-endian `i16` per schema field.

use super::models::{
    malformed, malformed_error, mismatch, mismatch_error, Bmi088DecodeError, Bmi088SampleField,
    Bmi088SampleFrame, Bmi088SchemaFrame, DecodeErrorModel, FieldModel, SampleFieldModel,
    SampleModel, SchemaModel,
};
use super::tables::{default_schema, default_schema_spec};
use crate::bytes::{from_le16_signed, i16_from_le, i16_to_le, le16_signed, lemma_le16_signed_roundtrip};
use vstd::prelude::*;

verus! {

/// The sample fields for raw values under a schema's fields.
pub open spec fn sample_fields(fields: Seq<FieldModel>, raw: Seq<i16>) -> Seq<SampleFieldModel> {
    Seq::new(
        raw.len(),
        |i: int|
            SampleFieldModel {
                name: fields[i].name,
                raw: raw[i],
                unit: Some(fields[i].unit),
                scale_q: fields[i].scale_q,
                index: i as usize,
            },
    )
}

/// What pairing raw values with a schema gives.
pub open spec fn from_raw_spec(schema: SchemaModel, raw: Seq<i16>) -> Result<SampleModel, DecodeErrorModel> {
    if raw.len() != schema.fields.len() {
        Err(mismatch("sample field count does not match schema"@))
    } else {
        Ok(SampleModel { seq: 0, fields: sample_fields(schema.fields, raw) })
    }
}

/// The raw values of a sample payload of even length.
pub open spec fn raw_values_spec(payload: Seq<u8>) -> Seq<i16> {
    Seq::new(payload.len() / 2, |i: int| from_le16_signed(payload[2 * i], payload[2 * i + 1]))
}

/// What decoding a sample payload under a schema gives.
pub open spec fn decode_sample_spec(payload: Seq<u8>, schema: SchemaModel, seq: u8) -> Result<SampleModel, DecodeErrorModel> {
    if payload.len() != schema.sample_len {
        Err(mismatch("sample length does not match expected schema"@))
    } else if payload.len() % 2 != 0 {
        Err(malformed("sample payload must contain i16 values"@))
    } else {
        match from_raw_spec(schema, raw_values_spec(payload)) {
            Ok(s) => Ok(SampleModel { seq, ..s }),
            Err(e) => Err(e),
        }
    }
}

/// The sample payload that carries raw values.
pub open spec fn sample_payload(raw: Seq<i16>) -> Seq<u8>
    decreases raw.len(),
{
    if raw.len() == 0 {
        Seq::empty()
    } else {
        sample_payload(raw.drop_last()) + le16_signed(raw.last())
    }
}

/// The raw values of the fields of a sample.
pub open spec fn sample_raws(sample: SampleModel) -> Seq<i16> {
    sample.fields.map_values(|f: SampleFieldModel| f.raw)
}

impl Bmi088SampleFrame {
    /// Pairs raw values with the fields of a schema, with sequence number 0.
    pub fn from_raw_values(schema: &Bmi088SchemaFrame, raw_values: &[i16]) -> (out: Result<Self, Bmi088DecodeError>)
        ensures
            match (out, from_raw_spec(schema@, raw_values@)) {
                (Ok(a), Ok(b)) => a@ == b,
                (Err(a), Err(b)) => a@ == b,
                _ => false,
            },
    {
        if raw_values.len() != schema.fields.len() {
            return Err(mismatch_error("sample field count does not match schema"));
        }
        let mut fields: Vec<Bmi088SampleField> = Vec::new();
        let mut i: usize = 0;
        while i < raw_values.len()
            invariant
                i <= raw_values@.len(),
                raw_values@.len() == schema.fields@.len(),
                fields@.map_values(|f: Bmi088SampleField| f@) =~= sample_fields(
                    schema@.fields,
                    raw_values@,
                ).take(i as int),
            decreases raw_values.len() - i,
        {
            let descriptor = &schema.fields[i];
            let field = Bmi088SampleField {
                name: descriptor.name.clone(),
                raw: raw_values[i],
                unit: Some(descriptor.unit.clone()),
                scale_q: descriptor.scale_q,
                index: i,
            };
            let ghost before = fields@;
            fields.push(field);
            assert(fields@.map_values(|f: Bmi088SampleField| f@) =~= before.map_values(
                |f: Bmi088SampleField| f@,
            ).push(field@));
            i = i + 1;
        }
        assert(sample_fields(schema@.fields, raw_values@).take(raw_values@.len() as int)
            =~= sample_fields(schema@.fields, raw_values@));
        Ok(Bmi088SampleFrame { seq: 0, fields })
    }
}

/// Decodes the raw values of a sample payload.
pub fn decode_sample_raw_values(payload: &[u8]) -> (out: Result<Vec<i16>, Bmi088DecodeError>)
    ensures
        match out {
            Ok(v) => payload@.len() % 2 == 0 && v@ == raw_values_spec(payload@),
            Err(e) => payload@.len() % 2 != 0 && e@ == malformed(
                "sample payload must contain i16 values"@,
            ),
        },
{
    if payload.len() % 2 != 0 {
        return Err(malformed_error("sample payload must contain i16 values"));
    }
    let mut values: Vec<i16> = Vec::new();
    let mut i: usize = 0;
    while i < payload.len() / 2
        invariant
            payload@.len() % 2 == 0,
            i <= payload@.len() / 2,
            values@ =~= raw_values_spec(payload@).take(i as int),
        decreases payload.len() / 2 - i,
    {
        values.push(i16_from_le(payload[2 * i], payload[2 * i + 1]));
        i = i + 1;
    }
    assert(raw_values_spec(payload@).take((payload@.len() / 2) as int) =~= raw_values_spec(payload@));
    Ok(values)
}

/// Decodes a sample payload under the default schema with sequence number 0.
pub fn decode_sample_payload(payload: &[u8]) -> (out: Result<Bmi088SampleFrame, Bmi088DecodeError>)
    ensures
        match (out, decode_sample_spec(payload@, default_schema_spec(), 0)) {
            (Ok(a), Ok(b)) => a@ == b,
            (Err(a), Err(b)) => a@ == b,
            _ => false,
        },
{
    let schema = default_schema();
    decode_sample_payload_with_schema_and_seq(payload, &schema, 0)
}

/// Decodes a sample payload under a schema with sequence number 0.
pub fn decode_sample_payload_with_schema(payload: &[u8], schema: &Bmi088SchemaFrame) -> (out: Result<
    Bmi088SampleFrame,
    Bmi088DecodeError,
>)
    ensures
        match (out, decode_sample_spec(payload@, schema@, 0)) {
            (Ok(a), Ok(b)) => a@ == b,
            (Err(a), Err(b)) => a@ == b,
            _ => false,
        },
{
    decode_sample_payload_with_schema_and_seq(payload, schema, 0)
}

/// Decodes a sample payload under a schema.
pub fn decode_sample_payload_with_schema_and_seq(payload: &[u8], schema: &Bmi088SchemaFrame, seq: u8) -> (out:
    Result<Bmi088SampleFrame, Bmi088DecodeError>)
    ensures
        match (out, decode_sample_spec(payload@, schema@, seq)) {
            (Ok(a), Ok(b)) => a@ == b,
            (Err(a), Err(b)) => a@ == b,
            _ => false,
        },
{
    if payload.len() != schema.sample_len {
        return Err(mismatch_error("sample length does not match expected schema"));
    }
    let raw_values = decode_sample_raw_values(payload)?;
    let mut sample = Bmi088SampleFrame::from_raw_values(schema, raw_values.as_slice())?;
    sample.seq = seq;
    Ok(sample)
}

/// A sample payload is two bytes per value.
pub proof fn lemma_sample_payload_len(raw: Seq<i16>)
    ensures
        sample_payload(raw).len() == 2 * raw.len(),
    decreases raw.len(),
{
    if raw.len() > 0 {
        lemma_sample_payload_len(raw.drop_last());
    }
}

/// Decoding the raw values of a sample payload gives the values back.
pub proof fn lemma_raw_values_roundtrip(raw: Seq<i16>)
    ensures
        raw_values_spec(sample_payload(raw)) == raw,
    decreases raw.len(),
{
    lemma_sample_payload_len(raw);
    if raw.len() > 0 {
        lemma_raw_values_roundtrip(raw.drop_last());
        lemma_sample_payload_len(raw.drop_last());
        let p = sample_payload(raw);
        let q = sample_payload(raw.drop_last());
        let n = raw.len() - 1;
        lemma_le16_signed_roundtrip(raw.last(), 0, 0);
        assert forall|i: int| 0 <= i < raw.len() implies #[trigger] raw_values_spec(p)[i] == raw[i] by {
            if i < n {
                assert(p[2 * i] == q[2 * i]);
                assert(p[2 * i + 1] == q[2 * i + 1]);
                assert(raw_values_spec(q)[i] == raw.drop_last()[i]);
            } else {
                assert(p[2 * i] == le16_signed(raw.last())[0]);
                assert(p[2 * i + 1] == le16_signed(raw.last())[1]);
            }
        }
        assert(raw_values_spec(p) =~= raw);
    }
}

/// Decoding the payload that carries a schema's worth of raw values gives a
/// sample with those values, in schema order.
pub proof fn lemma_sample_roundtrip(raw: Seq<i16>, schema: SchemaModel, seq: u8)
    requires
        raw.len() == schema.fields.len(),
        schema.sample_len == 2 * raw.len(),
    ensures
        decode_sample_spec(sample_payload(raw), schema, seq) == Ok::<SampleModel, DecodeErrorModel>(
            SampleModel { seq, fields: sample_fields(schema.fields, raw) },
        ),
{
    lemma_sample_payload_len(raw);
    lemma_raw_values_roundtrip(raw);
}

/// Encodes raw values as a sample payload.
pub fn encode_sample_payload(sample: &Bmi088SampleFrame) -> (out: Vec<u8>)
    ensures
        out@ == sample_payload(sample_raws(sample@)),
{
    let ghost raws = sample_raws(sample@);
    let mut payload: Vec<u8> = Vec::new();
    let mut i: usize = 0;
    while i < sample.fields.len()
        invariant
            i <= sample.fields@.len(),
            raws == sample_raws(sample@),
            payload@ == sample_payload(raws.take(i as int)),
        decreases sample.fields.len() - i,
    {
        let bytes = i16_to_le(sample.fields[i].raw);
        payload.push(bytes[0]);
        payload.push(bytes[1]);
        proof {
            assert(raws.take(i + 1).drop_last() =~= raws.take(i as int));
            assert(raws.take(i + 1).last() == sample.fields@[i as int].raw);
            assert(payload@ =~= sample_payload(raws.take(i + 1)));
        }
        i = i + 1;
    }
    assert(raws.take(sample.fields@.len() as int) =~= raws);
    payload
}

} // verus!
