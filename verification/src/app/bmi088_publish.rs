//! The parser metadata that the runtime attaches to BMI088 traffic.

use vstd::prelude::*;
use crate::bmi088::host::label_spec;
use crate::bmi088::{host_command_label, Bmi088HostCommand, Bmi088IdentityFrame, Bmi088SampleFrame, Bmi088SchemaFrame};
use crate::decimal::{decimal, format_u64};
use crate::message::{FieldMap, ParserMeta, ParserStatus};
use crate::text::{join, join_strings, owned, string_from_chars, strings_model};

verus! {

/// The map that a list of entries gives, later entries winning.
pub open spec fn entries_fields(entries: Seq<(&str, String)>) -> Map<Seq<char>, Seq<char>>
    decreases entries.len(),
{
    if entries.len() == 0 {
        Map::empty()
    } else {
        entries_fields(entries.drop_last()).insert(entries.last().0@, entries.last().1@)
    }
}

/// Builds the field map of a BMI088 message from its entries.
pub fn bmi088_payload_fields(entries: &[(&str, String)]) -> (out: FieldMap)
    ensures
        out@ == entries_fields(entries@),
{
    let mut fields = FieldMap::new();
    let mut i: usize = 0;
    while i < entries.len()
        invariant
            i <= entries.len(),
            fields@ == entries_fields(entries@.take(i as int)),
        decreases entries.len() - i,
    {
        fields.insert_str(entries[i].0, entries[i].1.clone());
        assert(entries@.take(i + 1).drop_last() =~= entries@.take(i as int));
        i = i + 1;
    }
    assert(entries@.take(entries.len() as int) =~= entries@);
    fields
}

/// Whether `out` is a successful parse by `name` with the fields `m`.
pub open spec fn parsed_as(out: ParserMeta, name: Seq<char>, m: Map<Seq<char>, Seq<char>>) -> bool {
    &&& out.parser_name matches Some(n) && n@ == name
    &&& out.status == ParserStatus::Parsed
    &&& out.fields@ == m
}

/// The metadata of a host command that was sent.
pub fn bmi088_command_parser_meta(command: &Bmi088HostCommand) -> (out: ParserMeta)
    ensures
        parsed_as(
            out,
            "bmi088_command"@,
            Map::empty().insert("command"@, label_spec(*command)).insert(
                "frame_type"@,
                "REQUEST"@,
            ).insert("payload_len"@, "variable"@),
        ),
{
    let mut fields = FieldMap::new();
    fields.insert_str("command", owned(host_command_label(command)));
    fields.insert_str("frame_type", owned("REQUEST"));
    fields.insert_str("payload_len", owned("variable"));
    ParserMeta::parsed("bmi088_command", fields)
}

/// The names of fields in order, separated by commas.
pub open spec fn field_order(names: Seq<Seq<char>>) -> Seq<char> {
    join(names, ","@)
}

/// The metadata of a received schema.
pub fn schema_parser_meta(schema: &Bmi088SchemaFrame) -> (out: ParserMeta)
    ensures
        parsed_as(
            out,
            "bmi088_schema"@,
            Map::empty().insert("command"@, "SCHEMA"@).insert(
                "rate_hz"@,
                decimal(schema.rate_hz as nat),
            ).insert("sample_len"@, decimal(schema.sample_len as nat)).insert(
                "field_count"@,
                decimal(schema.fields@.len()),
            ).insert(
                "field_order"@,
                field_order(Seq::new(schema@.fields.len(), |i: int| schema@.fields[i].name)),
            ),
        ),
{
    let mut names: Vec<String> = Vec::new();
    let mut i: usize = 0;
    while i < schema.fields.len()
        invariant
            i <= schema.fields@.len(),
            strings_model(names@) =~= Seq::new(schema@.fields.len(), |i: int| schema@.fields[i].name).take(
                i as int,
            ),
        decreases schema.fields.len() - i,
    {
        assert(schema@.fields[i as int] == schema.fields@[i as int]@);
        let name = schema.fields[i].name.clone();
        let ghost before = names@;
        names.push(name);
        assert(strings_model(names@) =~= strings_model(before).push(name@));
        i = i + 1;
    }
    assert(strings_model(names@) =~= Seq::new(schema@.fields.len(), |i: int| schema@.fields[i].name));
    let mut fields = FieldMap::new();
    fields.insert_str("command", owned("SCHEMA"));
    fields.insert_str("rate_hz", format_u64(schema.rate_hz as u64));
    fields.insert_str("sample_len", format_u64(schema.sample_len as u64));
    fields.insert_str("field_count", format_u64(schema.fields.len() as u64));
    fields.insert_str("field_order", join_strings(names.as_slice(), ","));
    ParserMeta::parsed("bmi088_schema", fields)
}

/// The metadata of a received sample.
pub fn sample_parser_meta(sample: &Bmi088SampleFrame) -> (out: ParserMeta)
    ensures
        parsed_as(
            out,
            "bmi088_sample"@,
            Map::empty().insert("command"@, "SAMPLE"@).insert(
                "field_count"@,
                decimal(sample.fields@.len()),
            ).insert(
                "field_order"@,
                field_order(Seq::new(sample@.fields.len(), |i: int| sample@.fields[i].name)),
            ),
        ),
{
    let mut names: Vec<String> = Vec::new();
    let mut i: usize = 0;
    while i < sample.fields.len()
        invariant
            i <= sample.fields@.len(),
            strings_model(names@) =~= Seq::new(sample@.fields.len(), |i: int| sample@.fields[i].name).take(
                i as int,
            ),
        decreases sample.fields.len() - i,
    {
        assert(sample@.fields[i as int] == sample.fields@[i as int]@);
        let name = sample.fields[i].name.clone();
        let ghost before = names@;
        names.push(name);
        assert(strings_model(names@) =~= strings_model(before).push(name@));
        i = i + 1;
    }
    assert(strings_model(names@) =~= Seq::new(sample@.fields.len(), |i: int| sample@.fields[i].name));
    let mut fields = FieldMap::new();
    fields.insert_str("command", owned("SAMPLE"));
    fields.insert_str("field_count", format_u64(sample.fields.len() as u64));
    fields.insert_str("field_order", join_strings(names.as_slice(), ","));
    ParserMeta::parsed("bmi088_sample", fields)
}

/// `0x` and four upper-case hexadecimal digits of a 16-bit value.
pub open spec fn hex16_text(v: u16) -> Seq<char> {
    seq![
        '0',
        'x',
        crate::bmi088_diag::hex_digit((v as int / 4096) % 16),
        crate::bmi088_diag::hex_digit((v as int / 256) % 16),
        crate::bmi088_diag::hex_digit((v as int / 16) % 16),
        crate::bmi088_diag::hex_digit(v as int % 16),
    ]
}

/// Writes a 16-bit value as `0x` and four upper-case hexadecimal digits.
pub fn format_hex16(v: u16) -> (out: String)
    ensures
        out@ == hex16_text(v),
{
    let chars: Vec<char> = vec![
        '0',
        'x',
        crate::bmi088_diag::hex_char(((v / 4096) % 16) as u8),
        crate::bmi088_diag::hex_char(((v / 256) % 16) as u8),
        crate::bmi088_diag::hex_char(((v / 16) % 16) as u8),
        crate::bmi088_diag::hex_char((v % 16) as u8),
    ];
    assert(chars@ =~= hex16_text(v));
    string_from_chars(chars.as_slice())
}

/// The fields of a received identity.
pub open spec fn identity_fields(i: crate::bmi088::models::IdentityModel) -> Map<Seq<char>, Seq<char>> {
    Map::empty().insert("command"@, "IDENTITY"@).insert("device_name"@, i.device_name).insert(
        "board_name"@,
        i.board_name,
    ).insert("firmware_version"@, i.firmware_version).insert(
        "protocol_name"@,
        i.protocol_name,
    ).insert("protocol_version"@, i.protocol_version).insert(
        "transport_name"@,
        i.transport_name,
    ).insert("sample_rate_hz"@, decimal(i.sample_rate_hz as nat)).insert(
        "schema_field_count"@,
        decimal(i.schema_field_count as nat),
    ).insert("sample_payload_len"@, decimal(i.sample_payload_len as nat)).insert(
        "protocol_version_byte"@,
        decimal(i.protocol_version_byte as nat),
    ).insert("feature_flags"@, hex16_text(i.feature_flags)).insert(
        "baud_rate"@,
        decimal(i.baud_rate as nat),
    ).insert("protocol_minor_version"@, decimal(i.protocol_minor_version as nat))
}

/// The metadata of a received identity.
pub fn identity_parser_meta(identity: &Bmi088IdentityFrame) -> (out: ParserMeta)
    ensures
        parsed_as(out, "bmi088_identity"@, identity_fields(identity@)),
{
    let mut fields = FieldMap::new();
    fields.insert_str("command", owned("IDENTITY"));
    fields.insert_str("device_name", identity.device_name.clone());
    fields.insert_str("board_name", identity.board_name.clone());
    fields.insert_str("firmware_version", identity.firmware_version.clone());
    fields.insert_str("protocol_name", identity.protocol_name.clone());
    fields.insert_str("protocol_version", identity.protocol_version.clone());
    fields.insert_str("transport_name", identity.transport_name.clone());
    fields.insert_str("sample_rate_hz", format_u64(identity.sample_rate_hz as u64));
    fields.insert_str("schema_field_count", format_u64(identity.schema_field_count as u64));
    fields.insert_str("sample_payload_len", format_u64(identity.sample_payload_len as u64));
    fields.insert_str("protocol_version_byte", format_u64(identity.protocol_version_byte as u64));
    fields.insert_str("feature_flags", format_hex16(identity.feature_flags));
    fields.insert_str("baud_rate", format_u64(identity.baud_rate as u64));
    fields.insert_str("protocol_minor_version", format_u64(identity.protocol_minor_version as u64));
    ParserMeta::parsed("bmi088_identity", fields)
}

} // verus!
