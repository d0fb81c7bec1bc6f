//! The schema payload.
//!
//! Current firmware sends `version 0x01 | rate | field count | sample length`
//! followed by one descriptor per field, either compact
//! (`id | type | scale | name code | unit code`) or with inline names
//! (`id | type | scale | name length | unit length | name | unit`). Older
//! firmware sends no header: a list of short descriptors
//! (`scale | name length | unit length | name | unit`), or one short
//! descriptor followed by inline-name descriptors.

use super::models::{
    fields_model, malformed, malformed_error, mismatch, mismatch_error, Bmi088DecodeError,
    Bmi088FieldDescriptor, Bmi088SchemaFrame, DecodeErrorModel, FieldModel, SchemaModel,
};
use super::tables::{
    compact_code, compact_field_code, compact_field_name, compact_name, compact_unit,
    compact_unit_code, compact_unit_code_spec, compact_unit_name, lemma_compact_code_name,
};
use crate::text::{string_bytes, string_from_utf8};
use vstd::prelude::*;
use vstd::utf8::{decode_utf8, encode_utf8, valid_utf8};

verus! {

broadcast use {vstd::utf8::encode_utf8_valid_utf8, vstd::utf8::encode_utf8_decode_utf8};

/// Prefixes the fields decoded so far to the result of decoding the rest.
pub open spec fn prepend(prefix: Seq<FieldModel>, r: Result<Seq<FieldModel>, DecodeErrorModel>) -> Result<
    Seq<FieldModel>,
    DecodeErrorModel,
> {
    match r {
        Ok(fs) => Ok(prefix + fs),
        Err(e) => Err(e),
    }
}

/// Prefixing twice is prefixing once with both prefixes.
pub proof fn lemma_prepend_push(a: Seq<FieldModel>, f: FieldModel, r: Result<Seq<FieldModel>, DecodeErrorModel>)
    ensures
        prepend(a.push(f), r) == prepend(a, prepend(seq![f], r)),
{
    match r {
        Ok(fs) => {
            assert(a.push(f) + fs =~= a + (seq![f] + fs));
        },
        Err(e) => {},
    }
}

/// Reads `len` bytes of UTF-8 text at `start` of `rest`.
pub open spec fn read_text(rest: Seq<u8>, start: int, len: int, missing: Seq<char>, invalid: Seq<char>) -> Result<
    Seq<char>,
    DecodeErrorModel,
> {
    if rest.len() < start + len {
        Err(malformed(missing))
    } else if !valid_utf8(rest.subrange(start, start + len)) {
        Err(malformed(invalid))
    } else {
        Ok(decode_utf8(rest.subrange(start, start + len)))
    }
}

/// Compact descriptors: `count` five-byte descriptors at the start of `rest`.
pub open spec fn compact_scan(rest: Seq<u8>, count: nat) -> Result<Seq<FieldModel>, DecodeErrorModel>
    decreases count,
{
    if count == 0 {
        Ok(Seq::empty())
    } else if rest.len() < 5 {
        Err(malformed("field descriptor too short"@))
    } else if rest[1] != 0x01 {
        Err(malformed("unsupported field type"@))
    } else if compact_name(rest[3]) is None {
        Err(malformed("unknown compact field name"@))
    } else if compact_unit(rest[4]) is None {
        Err(malformed("unknown compact field unit"@))
    } else {
        let f = FieldModel {
            field_id: rest[0],
            field_type: rest[1],
            name: compact_name(rest[3])->0,
            unit: compact_unit(rest[4])->0,
            scale_q: rest[2] as i8,
        };
        prepend(seq![f], compact_scan(rest.skip(5), (count - 1) as nat))
    }
}

/// Inline-name descriptors of the current format: `count` descriptors at
/// the start of `rest`, numbered from `index`; also what follows them.
pub open spec fn inline_scan(rest: Seq<u8>, index: nat, count: nat) -> Result<(Seq<FieldModel>, Seq<u8>), DecodeErrorModel>
    decreases count,
{
    if count == 0 {
        Ok((Seq::empty(), rest))
    } else if rest.len() < 5 {
        Err(malformed("field descriptor too short"@))
    } else if rest[1] != 0x01 {
        Err(malformed("unsupported field type"@))
    } else {
        let nl = rest[3] as int;
        let ul = rest[4] as int;
        match read_text(rest, 5, nl, "missing field name bytes"@, "invalid field name utf8"@) {
            Err(e) => Err(e),
            Ok(name) => match read_text(rest, 5 + nl, ul, "missing unit bytes"@, "invalid unit utf8"@) {
                Err(e) => Err(e),
                Ok(unit) => {
                    let f = FieldModel {
                        field_id: index as u8,
                        field_type: rest[1],
                        name,
                        unit,
                        scale_q: rest[2] as i8,
                    };
                    match inline_scan(rest.skip(5 + nl + ul), index + 1, (count - 1) as nat) {
                        Ok((fs, tail)) => Ok((seq![f] + fs, tail)),
                        Err(e) => Err(e),
                    }
                },
            },
        }
    }
}

/// One legacy short descriptor at the start of `rest`, with the given id;
/// also how many bytes it takes.
pub open spec fn legacy_short_field(rest: Seq<u8>, id: u8) -> Result<(FieldModel, int), DecodeErrorModel> {
    if rest.len() < 3 {
        Err(malformed("legacy schema descriptor too short"@))
    } else {
        let nl = rest[1] as int;
        let ul = rest[2] as int;
        match read_text(rest, 3, nl, "missing legacy field name bytes"@, "invalid legacy field name utf8"@) {
            Err(e) => Err(e),
            Ok(name) => match read_text(rest, 3 + nl, ul, "missing legacy unit bytes"@, "invalid legacy unit utf8"@) {
                Err(e) => Err(e),
                Ok(unit) => Ok(
                    (
                        FieldModel { field_id: id, field_type: 0x01, name, unit, scale_q: rest[0] as i8 },
                        3 + nl + ul,
                    ),
                ),
            },
        }
    }
}

/// Legacy short descriptors filling all of `rest`, numbered from `index`.
pub open spec fn legacy_short_scan(rest: Seq<u8>, index: nat) -> Result<Seq<FieldModel>, DecodeErrorModel>
    decreases rest.len(),
{
    if rest.len() == 0 {
        Ok(Seq::empty())
    } else {
        match legacy_short_field(rest, index as u8) {
            Err(e) => Err(e),
            Ok((f, used)) => prepend(seq![f], legacy_short_scan(rest.skip(used), index + 1)),
        }
    }
}

/// One legacy inline-name descriptor at the start of `rest`; also how many
/// bytes it takes.
pub open spec fn legacy_mixed_field(rest: Seq<u8>) -> Result<(FieldModel, int), DecodeErrorModel> {
    if rest.len() < 5 {
        Err(malformed("legacy mixed descriptor too short"@))
    } else if rest[1] != 0x01 {
        Err(malformed("unsupported legacy mixed field type"@))
    } else {
        let nl = rest[3] as int;
        let ul = rest[4] as int;
        match read_text(rest, 5, nl, "missing legacy mixed field name bytes"@, "invalid legacy mixed field name utf8"@) {
            Err(e) => Err(e),
            Ok(name) => match read_text(rest, 5 + nl, ul, "missing legacy mixed unit bytes"@, "invalid legacy mixed unit utf8"@) {
                Err(e) => Err(e),
                Ok(unit) => Ok(
                    (
                        FieldModel {
                            field_id: rest[0],
                            field_type: rest[1],
                            name,
                            unit,
                            scale_q: rest[2] as i8,
                        },
                        5 + nl + ul,
                    ),
                ),
            },
        }
    }
}

/// Legacy inline-name descriptors filling all of `rest`.
pub open spec fn legacy_mixed_scan(rest: Seq<u8>) -> Result<Seq<FieldModel>, DecodeErrorModel>
    decreases rest.len(),
{
    if rest.len() == 0 {
        Ok(Seq::empty())
    } else {
        match legacy_mixed_field(rest) {
            Err(e) => Err(e),
            Ok((f, used)) => prepend(seq![f], legacy_mixed_scan(rest.skip(used))),
        }
    }
}

/// A legacy schema with the given fields.
pub open spec fn legacy_schema(seq: u8, fields: Seq<FieldModel>) -> SchemaModel {
    SchemaModel {
        seq,
        schema_version: 0x01,
        rate_hz: 100,
        sample_len: (fields.len() * 2) as usize,
        fields,
    }
}

/// What decoding a legacy schema with short descriptors gives: every
/// descriptor short, at least one.
pub open spec fn legacy_short_spec(seq: u8, payload: Seq<u8>) -> Result<SchemaModel, DecodeErrorModel> {
    match legacy_short_scan(payload, 0) {
        Ok(fields) => if fields.len() == 0 {
            Err(malformed("legacy schema contains no fields"@))
        } else {
            Ok(legacy_schema(seq, fields))
        },
        Err(e) => Err(e),
    }
}

/// What decoding a legacy schema with mixed descriptors gives: one short
/// descriptor followed by inline-name descriptors.
pub open spec fn legacy_mixed_spec(seq: u8, payload: Seq<u8>) -> Result<SchemaModel, DecodeErrorModel> {
    match legacy_short_field(payload, 0) {
        Err(e) => Err(e),
        Ok((first, used)) => match legacy_mixed_scan(payload.skip(used)) {
            Err(e) => Err(e),
            Ok(rest) => Ok(legacy_schema(seq, seq![first] + rest)),
        },
    }
}

/// What decoding a legacy schema gives: the short-descriptor form if that
/// works, else the mixed form.
pub open spec fn decode_legacy_spec(seq: u8, payload: Seq<u8>) -> Result<SchemaModel, DecodeErrorModel> {
    match legacy_short_spec(seq, payload) {
        Ok(s) => Ok(s),
        Err(_) => legacy_mixed_spec(seq, payload),
    }
}

/// What decoding a schema payload gives.
pub open spec fn decode_schema_spec(seq: u8, payload: Seq<u8>) -> Result<SchemaModel, DecodeErrorModel> {
    if payload.len() == 0 {
        Err(malformed("schema payload too short"@))
    } else if payload[0] != 0x01 {
        decode_legacy_spec(seq, payload)
    } else if payload.len() < 4 {
        Err(malformed("schema payload too short"@))
    } else {
        let rate_hz = payload[1] as u32;
        let count = payload[2] as nat;
        let sample_len = payload[3] as usize;
        if payload.len() == 4 + 5 * count {
            match compact_scan(payload.skip(4), count) {
                Err(e) => Err(e),
                Ok(fields) => if sample_len != fields.len() * 2 {
                    Err(mismatch("sample length does not match i16 field count"@))
                } else {
                    Ok(SchemaModel { seq, schema_version: 0x01, rate_hz, sample_len, fields })
                },
            }
        } else {
            match inline_scan(payload.skip(4), 0, count) {
                Err(e) => Err(e),
                Ok((fields, tail)) => if tail.len() != 0 {
                    Err(malformed("schema payload has trailing bytes"@))
                } else if sample_len != fields.len() * 2 {
                    Err(mismatch("sample length does not match i16 field count"@))
                } else {
                    Ok(SchemaModel { seq, schema_version: 0x01, rate_hz, sample_len, fields })
                },
            }
        }
    }
}

/// Prefixes the fields decoded so far to a decode that also yields a tail.
pub open spec fn prepend_tail(prefix: Seq<FieldModel>, r: Result<(Seq<FieldModel>, Seq<u8>), DecodeErrorModel>) -> Result<
    (Seq<FieldModel>, Seq<u8>),
    DecodeErrorModel,
> {
    match r {
        Ok((fs, tail)) => Ok((prefix + fs, tail)),
        Err(e) => Err(e),
    }
}

/// Prefixing twice is prefixing once with both prefixes.
pub proof fn lemma_prepend_tail_push(
    a: Seq<FieldModel>,
    f: FieldModel,
    r: Result<(Seq<FieldModel>, Seq<u8>), DecodeErrorModel>,
)
    ensures
        prepend_tail(a.push(f), r) == prepend_tail(a, prepend_tail(seq![f], r)),
{
    match r {
        Ok((fs, tail)) => {
            assert(a.push(f) + fs =~= a + (seq![f] + fs));
        },
        Err(e) => {},
    }
}

/// Reads `len` bytes of UTF-8 text at `start` of `rest`.
fn read_text_exec(rest: &[u8], start: usize, len: usize, missing: &str, invalid: &str) -> (out: Result<
    String,
    Bmi088DecodeError,
>)
    requires
        start <= rest@.len(),
        len <= 255,
    ensures
        match (out, read_text(rest@, start as int, len as int, missing@, invalid@)) {
            (Ok(a), Ok(b)) => a@ == b,
            (Err(a), Err(b)) => a@ == b,
            _ => false,
        },
{
    if rest.len() - start < len {
        return Err(malformed_error(missing));
    }
    let bytes = vstd::slice::slice_subrange(rest, start, start + len);
    match string_from_utf8(bytes) {
        Some(text) => Ok(text),
        None => Err(malformed_error(invalid)),
    }
}

/// Appends a field, keeping the decode invariant.
fn push_field(fields: &mut Vec<Bmi088FieldDescriptor>, f: Bmi088FieldDescriptor)
    ensures
        fields_model(final(fields)@) == fields_model(old(fields)@).push(f@),
        final(fields)@.len() == old(fields)@.len() + 1,
{
    let ghost before = fields@;
    fields.push(f);
    assert(fields_model(fields@) =~= fields_model(before).push(f@));
}

/// Decodes a schema payload with sequence number 0.
pub fn decode_schema_payload(payload: &[u8]) -> (out: Result<Bmi088SchemaFrame, Bmi088DecodeError>)
    ensures
        match (out, decode_schema_spec(0, payload@)) {
            (Ok(a), Ok(b)) => a@ == b,
            (Err(a), Err(b)) => a@ == b,
            _ => false,
        },
{
    decode_schema_payload_with_seq(0, payload)
}

/// Decodes compact descriptors.
fn decode_compact_fields(rest0: &[u8], count: usize) -> (out: Result<Vec<Bmi088FieldDescriptor>, Bmi088DecodeError>)
    requires
        rest0@.len() == 5 * count,
    ensures
        match (out, compact_scan(rest0@, count as nat)) {
            (Ok(a), Ok(b)) => fields_model(a@) == b && a@.len() == count,
            (Err(a), Err(b)) => a@ == b,
            _ => false,
        },
{
    let mut fields: Vec<Bmi088FieldDescriptor> = Vec::new();
    let mut k: usize = 0;
    let mut offset: usize = 0;
    assert(rest0@.skip(0) =~= rest0@);
    assert(fields_model(fields@) =~= Seq::<FieldModel>::empty());
    assert(Seq::<FieldModel>::empty() + Seq::<FieldModel>::empty() =~= Seq::<FieldModel>::empty());
    while k < count
        invariant
            k <= count,
            rest0@.len() == 5 * count,
            offset == 5 * k,
            fields@.len() == k,
            compact_scan(rest0@, count as nat) == prepend(
                fields_model(fields@),
                compact_scan(rest0@.skip(offset as int), (count - k) as nat),
            ),
        decreases count - k,
    {
        let rest = vstd::slice::slice_subrange(rest0, offset, rest0.len());
        assert(rest@ =~= rest0@.skip(offset as int));
        if rest.len() < 5 {
            return Err(malformed_error("field descriptor too short"));
        }
        if rest[1] != 0x01 {
            return Err(malformed_error("unsupported field type"));
        }
        let name = match compact_field_name(rest[3]) {
            Some(n) => n,
            None => return Err(malformed_error("unknown compact field name")),
        };
        let unit = match compact_unit_name(rest[4]) {
            Some(u) => u,
            None => return Err(malformed_error("unknown compact field unit")),
        };
        let f = Bmi088FieldDescriptor {
            field_id: rest[0],
            field_type: rest[1],
            name,
            unit,
            scale_q: rest[2] as i8,
        };
        proof {
            lemma_prepend_push(
                fields_model(fields@),
                f@,
                compact_scan(rest0@.skip(offset + 5), (count - k - 1) as nat),
            );
            assert(rest@.skip(5) =~= rest0@.skip(offset + 5));
        }
        push_field(&mut fields, f);
        k = k + 1;
        offset = offset + 5;
    }
    proof {
        assert(fields_model(fields@) + Seq::<FieldModel>::empty() =~= fields_model(fields@));
    }
    Ok(fields)
}

/// Decodes inline-name descriptors of the current format.
fn decode_inline_fields(rest0: &[u8], count: usize) -> (out: Result<(Vec<Bmi088FieldDescriptor>, usize), Bmi088DecodeError>)
    requires
        count <= 255,
    ensures
        match (out, inline_scan(rest0@, 0, count as nat)) {
            (Ok((a, used)), Ok((b, tail))) => fields_model(a@) == b && a@.len() == count && used <= rest0@.len()
                && tail == rest0@.skip(used as int),
            (Err(a), Err(b)) => a@ == b,
            _ => false,
        },
{
    let mut fields: Vec<Bmi088FieldDescriptor> = Vec::new();
    let mut k: usize = 0;
    let mut offset: usize = 0;
    assert(rest0@.skip(0) =~= rest0@);
    assert(fields_model(fields@) =~= Seq::<FieldModel>::empty());
    assert forall|r: Result<(Seq<FieldModel>, Seq<u8>), DecodeErrorModel>| prepend_tail(Seq::empty(), r) == r by {
        match r {
            Ok((fs, t)) => assert(Seq::<FieldModel>::empty() + fs =~= fs),
            Err(_) => {},
        }
    }
    while k < count
        invariant
            k <= count,
            count <= 255,
            offset <= rest0@.len(),
            fields@.len() == k,
            inline_scan(rest0@, 0, count as nat) == prepend_tail(
                fields_model(fields@),
                inline_scan(rest0@.skip(offset as int), k as nat, (count - k) as nat),
            ),
        decreases count - k,
    {
        let rest = vstd::slice::slice_subrange(rest0, offset, rest0.len());
        assert(rest@ =~= rest0@.skip(offset as int));
        if rest.len() < 5 {
            return Err(malformed_error("field descriptor too short"));
        }
        if rest[1] != 0x01 {
            return Err(malformed_error("unsupported field type"));
        }
        let nl = rest[3] as usize;
        let ul = rest[4] as usize;
        let name = read_text_exec(rest, 5, nl, "missing field name bytes", "invalid field name utf8")?;
        let unit = read_text_exec(rest, 5 + nl, ul, "missing unit bytes", "invalid unit utf8")?;
        let f = Bmi088FieldDescriptor {
            field_id: k as u8,
            field_type: rest[1],
            name,
            unit,
            scale_q: rest[2] as i8,
        };
        proof {
            lemma_prepend_tail_push(
                fields_model(fields@),
                f@,
                inline_scan(rest@.skip(5 + nl + ul), (k + 1) as nat, (count - k - 1) as nat),
            );
            assert(rest@.skip(5 + nl + ul) =~= rest0@.skip(offset + 5 + nl + ul));
        }
        push_field(&mut fields, f);
        offset = offset + 5 + nl + ul;
        k = k + 1;
    }
    proof {
        assert(fields_model(fields@) + Seq::<FieldModel>::empty() =~= fields_model(fields@));
    }
    Ok((fields, offset))
}

/// Decodes a schema payload.
pub fn decode_schema_payload_with_seq(seq: u8, payload: &[u8]) -> (out: Result<
    Bmi088SchemaFrame,
    Bmi088DecodeError,
>)
    ensures
        match (out, decode_schema_spec(seq, payload@)) {
            (Ok(a), Ok(b)) => a@ == b,
            (Err(a), Err(b)) => a@ == b,
            _ => false,
        },
{
    if payload.len() == 0 {
        return Err(malformed_error("schema payload too short"));
    }
    if payload[0] != 0x01 {
        return decode_legacy_schema_payload_with_seq(seq, payload);
    }
    if payload.len() < 4 {
        return Err(malformed_error("schema payload too short"));
    }
    let rate_hz = payload[1] as u32;
    let count = payload[2] as usize;
    let sample_len = payload[3] as usize;
    let rest = vstd::slice::slice_subrange(payload, 4, payload.len());
    assert(rest@ =~= payload@.skip(4));
    if payload.len() == 4 + 5 * count {
        let fields = decode_compact_fields(rest, count)?;
        if sample_len != fields.len() * 2 {
            return Err(mismatch_error("sample length does not match i16 field count"));
        }
        return Ok(Bmi088SchemaFrame { seq, schema_version: 0x01, rate_hz, sample_len, fields });
    }
    let (fields, used) = decode_inline_fields(rest, count)?;
    if used != rest.len() {
        return Err(malformed_error("schema payload has trailing bytes"));
    }
    if sample_len != fields.len() * 2 {
        return Err(mismatch_error("sample length does not match i16 field count"));
    }
    Ok(Bmi088SchemaFrame { seq, schema_version: 0x01, rate_hz, sample_len, fields })
}

/// Decodes one legacy short descriptor at the start of `rest`.
fn decode_legacy_short_descriptor(rest: &[u8], id: u8) -> (out: Result<(Bmi088FieldDescriptor, usize), Bmi088DecodeError>)
    ensures
        match (out, legacy_short_field(rest@, id)) {
            (Ok((a, used)), Ok((b, used2))) => a@ == b && used == used2 && 3 <= used <= rest@.len(),
            (Err(a), Err(b)) => a@ == b,
            _ => false,
        },
{
    if rest.len() < 3 {
        return Err(malformed_error("legacy schema descriptor too short"));
    }
    let nl = rest[1] as usize;
    let ul = rest[2] as usize;
    let name = read_text_exec(rest, 3, nl, "missing legacy field name bytes", "invalid legacy field name utf8")?;
    let unit = read_text_exec(rest, 3 + nl, ul, "missing legacy unit bytes", "invalid legacy unit utf8")?;
    Ok(
        (
            Bmi088FieldDescriptor { field_id: id, field_type: 0x01, name, unit, scale_q: rest[0] as i8 },
            3 + nl + ul,
        ),
    )
}

/// Decodes one legacy inline-name descriptor at the start of `rest`.
fn decode_legacy_mixed_descriptor(rest: &[u8]) -> (out: Result<(Bmi088FieldDescriptor, usize), Bmi088DecodeError>)
    ensures
        match (out, legacy_mixed_field(rest@)) {
            (Ok((a, used)), Ok((b, used2))) => a@ == b && used == used2 && 5 <= used <= rest@.len(),
            (Err(a), Err(b)) => a@ == b,
            _ => false,
        },
{
    if rest.len() < 5 {
        return Err(malformed_error("legacy mixed descriptor too short"));
    }
    if rest[1] != 0x01 {
        return Err(malformed_error("unsupported legacy mixed field type"));
    }
    let nl = rest[3] as usize;
    let ul = rest[4] as usize;
    let name = read_text_exec(
        rest,
        5,
        nl,
        "missing legacy mixed field name bytes",
        "invalid legacy mixed field name utf8",
    )?;
    let unit = read_text_exec(
        rest,
        5 + nl,
        ul,
        "missing legacy mixed unit bytes",
        "invalid legacy mixed unit utf8",
    )?;
    Ok(
        (
            Bmi088FieldDescriptor {
                field_id: rest[0],
                field_type: rest[1],
                name,
                unit,
                scale_q: rest[2] as i8,
            },
            5 + nl + ul,
        ),
    )
}

/// Decodes legacy short descriptors filling all of `payload`.
fn decode_legacy_short_fields(payload: &[u8]) -> (out: Result<Vec<Bmi088FieldDescriptor>, Bmi088DecodeError>)
    ensures
        match (out, legacy_short_scan(payload@, 0)) {
            (Ok(a), Ok(b)) => fields_model(a@) == b && 3 * a@.len() <= payload@.len(),
            (Err(a), Err(b)) => a@ == b,
            _ => false,
        },
{
    let mut fields: Vec<Bmi088FieldDescriptor> = Vec::new();
    let mut offset: usize = 0;
    assert(payload@.skip(0) =~= payload@);
    assert forall|r: Result<Seq<FieldModel>, DecodeErrorModel>| prepend(Seq::empty(), r) == r by {
        match r {
            Ok(fs) => assert(Seq::<FieldModel>::empty() + fs =~= fs),
            Err(_) => {},
        }
    }
    assert(fields_model(fields@) =~= Seq::<FieldModel>::empty());
    while offset < payload.len()
        invariant
            offset <= payload@.len(),
            3 * fields@.len() <= offset,
            legacy_short_scan(payload@, 0) == prepend(
                fields_model(fields@),
                legacy_short_scan(payload@.skip(offset as int), fields@.len()),
            ),
        decreases payload.len() - offset,
    {
        let rest = vstd::slice::slice_subrange(payload, offset, payload.len());
        assert(rest@ =~= payload@.skip(offset as int));
        let (f, used) = decode_legacy_short_descriptor(rest, fields.len() as u8)?;
        proof {
            lemma_prepend_push(
                fields_model(fields@),
                f@,
                legacy_short_scan(rest@.skip(used as int), fields@.len() + 1),
            );
            assert(rest@.skip(used as int) =~= payload@.skip(offset + used));
        }
        push_field(&mut fields, f);
        offset = offset + used;
    }
    proof {
        assert(payload@.skip(offset as int).len() == 0);
        assert(fields_model(fields@) + Seq::<FieldModel>::empty() =~= fields_model(fields@));
    }
    Ok(fields)
}

/// Decodes legacy inline-name descriptors filling all of `payload`.
fn decode_legacy_mixed_fields(payload: &[u8], fields: &mut Vec<Bmi088FieldDescriptor>) -> (out: Result<(), Bmi088DecodeError>)
    ensures
        match (out, legacy_mixed_scan(payload@)) {
            (Ok(_), Ok(b)) => fields_model(final(fields)@) == fields_model(old(fields)@) + b
                && 3 * (final(fields)@.len() - old(fields)@.len()) <= payload@.len(),
            (Err(a), Err(b)) => a@ == b,
            _ => false,
        },
{
    let ghost start = fields_model(fields@);
    let ghost start_len = fields@.len();
    let mut offset: usize = 0;
    assert(payload@.skip(0) =~= payload@);
    assert(prepend(Seq::empty(), legacy_mixed_scan(payload@)) == legacy_mixed_scan(payload@)) by {
        match legacy_mixed_scan(payload@) {
            Ok(fs) => assert(Seq::<FieldModel>::empty() + fs =~= fs),
            Err(_) => {},
        }
    }
    let ghost added: Seq<FieldModel> = Seq::empty();
    while offset < payload.len()
        invariant
            offset <= payload@.len(),
            fields_model(fields@) == start + added,
            fields@.len() == old(fields)@.len() + added.len(),
            3 * added.len() <= offset,
            legacy_mixed_scan(payload@) == prepend(added, legacy_mixed_scan(payload@.skip(offset as int))),
        decreases payload.len() - offset,
    {
        let rest = vstd::slice::slice_subrange(payload, offset, payload.len());
        assert(rest@ =~= payload@.skip(offset as int));
        let (f, used) = decode_legacy_mixed_descriptor(rest)?;
        proof {
            lemma_prepend_push(added, f@, legacy_mixed_scan(rest@.skip(used as int)));
            assert(rest@.skip(used as int) =~= payload@.skip(offset + used));
        }
        push_field(fields, f);
        proof {
            added = added.push(f@);
            assert(fields_model(fields@) =~= start + added);
        }
        offset = offset + used;
    }
    proof {
        assert(payload@.skip(offset as int).len() == 0);
        assert(added + Seq::<FieldModel>::empty() =~= added);
    }
    Ok(())
}

/// Decodes a legacy schema whose descriptors are all short.
fn decode_legacy_schema_payload_with_short_descriptors(seq: u8, payload: &[u8]) -> (out: Result<
    Bmi088SchemaFrame,
    Bmi088DecodeError,
>)
    ensures
        match (out, legacy_short_spec(seq, payload@)) {
            (Ok(a), Ok(b)) => a@ == b,
            (Err(a), Err(b)) => a@ == b,
            _ => false,
        },
{
    let fields = decode_legacy_short_fields(payload)?;
    if fields.len() == 0 {
        return Err(malformed_error("legacy schema contains no fields"));
    }
    let total = payload.len();
    assert(3 * fields@.len() <= total);
    let sample_len = fields.len() * 2;
    Ok(Bmi088SchemaFrame { seq, schema_version: 0x01, rate_hz: 100, sample_len, fields })
}

/// Decodes a legacy schema whose first descriptor is short and whose other
/// descriptors carry their id and type.
fn decode_legacy_schema_payload_with_mixed_descriptors(seq: u8, payload: &[u8]) -> (out: Result<
    Bmi088SchemaFrame,
    Bmi088DecodeError,
>)
    ensures
        match (out, legacy_mixed_spec(seq, payload@)) {
            (Ok(a), Ok(b)) => a@ == b,
            (Err(a), Err(b)) => a@ == b,
            _ => false,
        },
{
    let (first, used) = decode_legacy_short_descriptor(payload, 0)?;
    let mut fields: Vec<Bmi088FieldDescriptor> = Vec::new();
    push_field(&mut fields, first);
    let rest = vstd::slice::slice_subrange(payload, used, payload.len());
    assert(rest@ =~= payload@.skip(used as int));
    decode_legacy_mixed_fields(rest, &mut fields)?;
    proof {
        let b = legacy_mixed_scan(payload@.skip(used as int))->Ok_0;
        assert(fields_model(fields@) =~= seq![first@] + b);
    }
    let sample_len = fields.len() * 2;
    Ok(Bmi088SchemaFrame { seq, schema_version: 0x01, rate_hz: 100, sample_len, fields })
}

/// Decodes a schema payload sent by legacy firmware: the short form first,
/// the mixed form when that fails.
fn decode_legacy_schema_payload_with_seq(seq: u8, payload: &[u8]) -> (out: Result<
    Bmi088SchemaFrame,
    Bmi088DecodeError,
>)
    ensures
        match (out, decode_legacy_spec(seq, payload@)) {
            (Ok(a), Ok(b)) => a@ == b,
            (Err(a), Err(b)) => a@ == b,
            _ => false,
        },
{
    match decode_legacy_schema_payload_with_short_descriptors(seq, payload) {
        Ok(schema) => Ok(schema),
        Err(_) => decode_legacy_schema_payload_with_mixed_descriptors(seq, payload),
    }
}

/// Whether every field has a compact name code (and so the compact
/// descriptor form is used).
pub open spec fn all_compact(fields: Seq<FieldModel>) -> bool {
    forall|i: int| 0 <= i < fields.len() ==> (#[trigger] fields[i]).name.len() > 0 && compact_code(
        fields[i].name,
    ) is Some
}

/// A code, or 0xFF for none.
pub open spec fn code_or_ff(code: Option<u8>) -> u8 {
    match code {
        Some(c) => c,
        None => 0xFF,
    }
}

/// The compact descriptor of a field.
pub open spec fn compact_desc(f: FieldModel) -> Seq<u8> {
    seq![
        f.field_id,
        f.field_type,
        f.scale_q as u8,
        code_or_ff(compact_code(f.name)),
        code_or_ff(compact_unit_code_spec(f.unit)),
    ]
}

/// The inline-name descriptor of a field.
pub open spec fn inline_desc(f: FieldModel) -> Seq<u8> {
    seq![
        f.field_id,
        f.field_type,
        f.scale_q as u8,
        encode_utf8(f.name).len() as u8,
        encode_utf8(f.unit).len() as u8,
    ] + encode_utf8(f.name) + encode_utf8(f.unit)
}

/// The descriptor of a field in the chosen form.
pub open spec fn desc(f: FieldModel, compact: bool) -> Seq<u8> {
    if compact {
        compact_desc(f)
    } else {
        inline_desc(f)
    }
}

/// The descriptors of all fields, in order.
pub open spec fn descs(fields: Seq<FieldModel>, compact: bool) -> Seq<u8>
    decreases fields.len(),
{
    if fields.len() == 0 {
        Seq::empty()
    } else {
        descs(fields.drop_last(), compact) + desc(fields.last(), compact)
    }
}

/// A count clamped to one byte.
pub open spec fn clamp_u8(v: int) -> u8 {
    if v > 255 {
        255u8
    } else {
        v as u8
    }
}

/// The schema payload of a schema.
pub open spec fn schema_payload(s: SchemaModel) -> Seq<u8> {
    seq![s.schema_version, clamp_u8(s.rate_hz as int), s.fields.len() as u8, clamp_u8(s.sample_len as int)]
        + descs(s.fields, all_compact(s.fields))
}

/// The descriptors start with the descriptor of the first field.
pub proof fn lemma_descs_front(fields: Seq<FieldModel>, compact: bool)
    requires
        fields.len() > 0,
    ensures
        descs(fields, compact) == desc(fields[0], compact) + descs(fields.drop_first(), compact),
    decreases fields.len(),
{
    if fields.len() == 1 {
        assert(fields.drop_last().len() == 0);
        assert(fields.drop_first().len() == 0);
        assert(descs(fields.drop_last(), compact) =~= Seq::<u8>::empty());
        assert(descs(fields.drop_first(), compact) =~= Seq::<u8>::empty());
        assert(fields.last() == fields[0]);
        assert(descs(fields, compact) =~= desc(fields[0], compact) + descs(fields.drop_first(), compact));
    } else {
        lemma_descs_front(fields.drop_last(), compact);
        assert(fields.drop_last().drop_first() =~= fields.drop_first().drop_last());
        assert(fields.drop_first().last() == fields.last());
        assert(fields.drop_last()[0] == fields[0]);
        assert(descs(fields.drop_first(), compact) == descs(fields.drop_first().drop_last(), compact)
            + desc(fields.drop_first().last(), compact));
        assert(descs(fields, compact) =~= desc(fields[0], compact) + descs(fields.drop_first(), compact));
    }
}

/// Compact descriptors take five bytes each.
proof fn lemma_compact_descs_len(fields: Seq<FieldModel>)
    ensures
        descs(fields, true).len() == 5 * fields.len(),
    decreases fields.len(),
{
    if fields.len() > 0 {
        lemma_compact_descs_len(fields.drop_last());
    }
}

/// The payload of a schema with compact descriptors is its four-byte header
/// and five bytes per field.
pub proof fn lemma_compact_payload_len(s: SchemaModel)
    requires
        all_compact(s.fields),
    ensures
        schema_payload(s).len() == 4 + 5 * s.fields.len(),
{
    lemma_compact_descs_len(s.fields);
}

/// A byte holding a signed value reads back as that value.
pub proof fn lemma_i8_u8(x: i8)
    ensures
        ((x as u8) as i8) == x,
{
    assert(((x as u8) as i8) == x) by (bit_vector);
}

/// Compact descriptors scan back to their fields.
proof fn lemma_compact_scan_descs(fields: Seq<FieldModel>)
    requires
        forall|i: int| 0 <= i < fields.len() ==> {
            &&& compact_code((#[trigger] fields[i]).name) is Some
            &&& compact_unit_code_spec(fields[i].unit) is Some
            &&& fields[i].field_type == 0x01
        },
    ensures
        compact_scan(descs(fields, true), fields.len()) == Ok::<Seq<FieldModel>, DecodeErrorModel>(fields),
    decreases fields.len(),
{
    if fields.len() > 0 {
        lemma_descs_front(fields, true);
        let f = fields[0];
        let rest = descs(fields, true);
        lemma_compact_code_name(f.name);
        lemma_compact_code_name(f.unit);
        lemma_i8_u8(f.scale_q);
        assert(rest.skip(5) =~= descs(fields.drop_first(), true));
        assert forall|i: int| 0 <= i < fields.drop_first().len() implies {
            &&& compact_code((#[trigger] fields.drop_first()[i]).name) is Some
            &&& compact_unit_code_spec(fields.drop_first()[i].unit) is Some
            &&& fields.drop_first()[i].field_type == 0x01
        } by {
            assert(fields.drop_first()[i] == fields[i + 1]);
        }
        lemma_compact_scan_descs(fields.drop_first());
        assert(seq![f] + fields.drop_first() =~= fields);
    } else {
        assert(fields =~= Seq::<FieldModel>::empty());
    }
}

/// Inline-name descriptors scan back to their fields.
proof fn lemma_inline_scan_descs(fields: Seq<FieldModel>, index: nat)
    requires
        index + fields.len() <= 255,
        forall|i: int| 0 <= i < fields.len() ==> {
            &&& encode_utf8((#[trigger] fields[i]).name).len() <= 255
            &&& encode_utf8(fields[i].unit).len() <= 255
            &&& fields[i].field_type == 0x01
            &&& fields[i].field_id == index + i
        },
    ensures
        inline_scan(descs(fields, false), index, fields.len()) == Ok::<
            (Seq<FieldModel>, Seq<u8>),
            DecodeErrorModel,
        >((fields, Seq::empty())),
    decreases fields.len(),
{
    if fields.len() > 0 {
        lemma_descs_front(fields, false);
        let f = fields[0];
        let rest = descs(fields, false);
        let nl = encode_utf8(f.name).len() as int;
        let ul = encode_utf8(f.unit).len() as int;
        lemma_i8_u8(f.scale_q);
        assert(rest.subrange(5, 5 + nl) =~= encode_utf8(f.name));
        assert(rest.subrange(5 + nl, 5 + nl + ul) =~= encode_utf8(f.unit));
        assert(rest.skip(5 + nl + ul) =~= descs(fields.drop_first(), false));
        assert forall|i: int| 0 <= i < fields.drop_first().len() implies {
            &&& encode_utf8((#[trigger] fields.drop_first()[i]).name).len() <= 255
            &&& encode_utf8(fields.drop_first()[i].unit).len() <= 255
            &&& fields.drop_first()[i].field_type == 0x01
            &&& fields.drop_first()[i].field_id == (index + 1) + i
        } by {
            assert(fields.drop_first()[i] == fields[i + 1]);
        }
        lemma_inline_scan_descs(fields.drop_first(), index + 1);
        assert(seq![f] + fields.drop_first() =~= fields);
    } else {
        assert(fields =~= Seq::<FieldModel>::empty());
    }
}

/// Descriptors take at least five bytes each, more when a name or unit is
/// not empty.
proof fn lemma_descs_len(fields: Seq<FieldModel>)
    ensures
        descs(fields, false).len() >= 5 * fields.len(),
        (exists|i: int|
            0 <= i < fields.len() && encode_utf8((#[trigger] fields[i]).name).len() + encode_utf8(
                fields[i].unit,
            ).len() > 0) ==> descs(fields, false).len() > 5 * fields.len(),
    decreases fields.len(),
{
    if fields.len() > 0 {
        lemma_descs_len(fields.drop_last());
        if exists|i: int|
            0 <= i < fields.len() && encode_utf8((#[trigger] fields[i]).name).len() + encode_utf8(
                fields[i].unit,
            ).len() > 0 {
            let i = choose|i: int|
                0 <= i < fields.len() && encode_utf8((#[trigger] fields[i]).name).len()
                    + encode_utf8(fields[i].unit).len() > 0;
            if i < fields.len() - 1 {
                assert(fields.drop_last()[i] == fields[i]);
            }
        }
    }
}

/// Decoding the payload of a schema whose fields all have compact codes
/// gives the schema back, with the sequence number of the frame it came in.
pub proof fn lemma_schema_roundtrip_compact(seq: u8, s: SchemaModel)
    requires
        s.schema_version == 0x01,
        s.rate_hz <= 255,
        s.fields.len() <= 127,
        s.sample_len == 2 * s.fields.len(),
        all_compact(s.fields),
        forall|i: int| 0 <= i < s.fields.len() ==> {
            &&& compact_unit_code_spec((#[trigger] s.fields[i]).unit) is Some
            &&& s.fields[i].field_type == 0x01
        },
    ensures
        decode_schema_spec(seq, schema_payload(s)) == Ok::<SchemaModel, DecodeErrorModel>(
            SchemaModel { seq, ..s },
        ),
{
    let p = schema_payload(s);
    lemma_compact_descs_len(s.fields);
    assert forall|i: int| 0 <= i < s.fields.len() implies {
        &&& compact_code((#[trigger] s.fields[i]).name) is Some
        &&& compact_unit_code_spec(s.fields[i].unit) is Some
        &&& s.fields[i].field_type == 0x01
    } by {}
    lemma_compact_scan_descs(s.fields);
    assert(p.skip(4) =~= descs(s.fields, true));
}

/// Decoding the payload of a schema written with inline names gives the
/// schema back, with the sequence number of the frame it came in. Field ids
/// must be the field positions, as the decoder numbers these fields, and
/// some name or unit must be non-empty, else the payload has the length of
/// the compact form and is read as such.
pub proof fn lemma_schema_roundtrip_inline(seq: u8, s: SchemaModel)
    requires
        s.schema_version == 0x01,
        s.rate_hz <= 255,
        s.fields.len() <= 127,
        s.sample_len == 2 * s.fields.len(),
        !all_compact(s.fields),
        exists|i: int|
            0 <= i < s.fields.len() && encode_utf8((#[trigger] s.fields[i]).name).len()
                + encode_utf8(s.fields[i].unit).len() > 0,
        forall|i: int| 0 <= i < s.fields.len() ==> {
            &&& encode_utf8((#[trigger] s.fields[i]).name).len() <= 255
            &&& encode_utf8(s.fields[i].unit).len() <= 255
            &&& s.fields[i].field_type == 0x01
            &&& s.fields[i].field_id == i
        },
    ensures
        decode_schema_spec(seq, schema_payload(s)) == Ok::<SchemaModel, DecodeErrorModel>(
            SchemaModel { seq, ..s },
        ),
{
    let p = schema_payload(s);
    lemma_descs_len(s.fields);
    lemma_inline_scan_descs(s.fields, 0);
    assert(p.skip(4) =~= descs(s.fields, false));
}

/// Appends the descriptor of a field in the chosen form.
fn encode_descriptor(payload: &mut Vec<u8>, f: &Bmi088FieldDescriptor, compact: bool)
    ensures
        final(payload)@ == old(payload)@ + desc(f@, compact),
{
    payload.push(f.field_id);
    payload.push(f.field_type);
    payload.push(f.scale_q as u8);
    if compact {
        let name_code = match compact_field_code(f.name.as_str()) {
            Some(c) => c,
            None => 0xFF,
        };
        let unit_code = match compact_unit_code(f.unit.as_str()) {
            Some(c) => c,
            None => 0xFF,
        };
        payload.push(name_code);
        payload.push(unit_code);
    } else {
        let name = string_bytes(&f.name);
        let unit = string_bytes(&f.unit);
        payload.push(name.len() as u8);
        payload.push(unit.len() as u8);
        let ghost mid = payload@;
        let mut i: usize = 0;
        while i < name.len()
            invariant
                i <= name@.len(),
                payload@ =~= mid + name@.take(i as int),
            decreases name.len() - i,
        {
            payload.push(name[i]);
            i = i + 1;
        }
        assert(name@.take(name@.len() as int) =~= name@);
        let ghost mid2 = payload@;
        let mut j: usize = 0;
        while j < unit.len()
            invariant
                j <= unit@.len(),
                payload@ =~= mid2 + unit@.take(j as int),
            decreases unit.len() - j,
        {
            payload.push(unit[j]);
            j = j + 1;
        }
        assert(unit@.take(unit@.len() as int) =~= unit@);
    }
    assert(payload@ =~= old(payload)@ + desc(f@, compact));
}

impl Bmi088SchemaFrame {
    /// Encodes the schema: compact descriptors when every field name has a
    /// compact code, inline names otherwise.
    pub fn encode_payload(&self) -> (out: Vec<u8>)
        ensures
            out@ == schema_payload(self@),
    {
        let mut compact = true;
        let mut i: usize = 0;
        while i < self.fields.len()
            invariant
                i <= self.fields@.len(),
                compact == (forall|k: int|
                    0 <= k < i ==> (#[trigger] fields_model(self.fields@)[k]).name.len() > 0
                        && compact_code(fields_model(self.fields@)[k].name) is Some),
            decreases self.fields.len() - i,
        {
            let name = &self.fields[i].name;
            let ok = !name.as_str().is_empty() && compact_field_code(name.as_str()).is_some();
            let ghost fm = fields_model(self.fields@);
            assert(fm[i as int] == self.fields@[i as int]@);
            assert(ok == (fm[i as int].name.len() > 0 && compact_code(fm[i as int].name) is Some));
            compact = compact && ok;
            i = i + 1;
            assert(compact == (forall|k: int|
                0 <= k < i ==> (#[trigger] fm[k]).name.len() > 0 && compact_code(fm[k].name) is Some)) by {
                if compact {
                    assert forall|k: int| 0 <= k < i implies (#[trigger] fm[k]).name.len() > 0
                        && compact_code(fm[k].name) is Some by {
                    }
                } else {
                    if !ok {
                        assert(!(fm[i - 1].name.len() > 0 && compact_code(fm[i - 1].name) is Some));
                    }
                }
            }
        }
        let mut payload: Vec<u8> = Vec::new();
        payload.push(self.schema_version);
        payload.push(if self.rate_hz > 255 { 255 } else { self.rate_hz as u8 });
        payload.push(self.fields.len() as u8);
        payload.push(if self.sample_len > 255 { 255 } else { self.sample_len as u8 });
        let ghost header = payload@;
        let ghost fs = fields_model(self.fields@);
        let mut k: usize = 0;
        while k < self.fields.len()
            invariant
                k <= self.fields@.len(),
                fs == fields_model(self.fields@),
                payload@ == header + descs(fs.take(k as int), compact),
            decreases self.fields.len() - k,
        {
            encode_descriptor(&mut payload, &self.fields[k], compact);
            proof {
                assert(fs.take(k + 1).drop_last() =~= fs.take(k as int));
                assert(fs.take(k + 1).last() == self.fields@[k as int]@);
                assert(header + descs(fs.take(k as int), compact) + desc(self.fields@[k as int]@, compact)
                    =~= header + (descs(fs.take(k as int), compact) + desc(self.fields@[k as int]@, compact)));
            }
            k = k + 1;
        }
        assert(fs.take(self.fields.len() as int) =~= fs);
        assert(compact == all_compact(fs)) by {
            if !compact {
                let k = choose|k: int| 0 <= k < self.fields@.len() && !((#[trigger] fs[k]).name.len()
                    > 0 && compact_code(fs[k].name) is Some);
                assert(!((fs[k]).name.len() > 0 && compact_code(fs[k].name) is Some));
            }
        }
        payload
    }
}

} // verus!
