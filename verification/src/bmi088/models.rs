//! BMI088 protocol data types and their abstract models.

use crate::message::{LinePayload, LinePayloadModel};
use crate::text::owned;
use vstd::prelude::*;

verus! {

/// One field of a telemetry schema.
#[derive(Debug)]
pub struct Bmi088FieldDescriptor {
    pub field_id: u8,
    pub field_type: u8,
    pub name: String,
    pub unit: String,
    pub scale_q: i8,
}

/// Abstract value of a schema field.
pub struct FieldModel {
    pub field_id: u8,
    pub field_type: u8,
    pub name: Seq<char>,
    pub unit: Seq<char>,
    pub scale_q: i8,
}

impl View for Bmi088FieldDescriptor {
    type V = FieldModel;

    open spec fn view(&self) -> FieldModel {
        FieldModel {
            field_id: self.field_id,
            field_type: self.field_type,
            name: self.name@,
            unit: self.unit@,
            scale_q: self.scale_q,
        }
    }
}

impl Clone for Bmi088FieldDescriptor {
    fn clone(&self) -> (out: Self)
        ensures
            out@ == self@,
    {
        Bmi088FieldDescriptor {
            field_id: self.field_id,
            field_type: self.field_type,
            name: self.name.clone(),
            unit: self.unit.clone(),
            scale_q: self.scale_q,
        }
    }
}

/// The abstract values of a list of schema fields.
pub open spec fn fields_model(fields: Seq<Bmi088FieldDescriptor>) -> Seq<FieldModel> {
    fields.map_values(|f: Bmi088FieldDescriptor| f@)
}

/// Copies a list of schema fields.
pub fn clone_fields(fields: &Vec<Bmi088FieldDescriptor>) -> (out: Vec<Bmi088FieldDescriptor>)
    ensures
        fields_model(out@) == fields_model(fields@),
{
    let mut out: Vec<Bmi088FieldDescriptor> = Vec::new();
    let mut i: usize = 0;
    while i < fields.len()
        invariant
            i <= fields.len(),
            fields_model(out@) =~= fields_model(fields@.take(i as int)),
        decreases fields.len() - i,
    {
        out.push(fields[i].clone());
        i = i + 1;
        assert(fields_model(fields@.take(i as int)) =~= fields_model(fields@.take(i - 1)).push(
            fields@[i - 1]@,
        ));
    }
    assert(fields@.take(fields.len() as int) =~= fields@);
    out
}

/// A telemetry schema: the layout of every sample frame.
#[derive(Debug)]
pub struct Bmi088SchemaFrame {
    pub seq: u8,
    pub schema_version: u8,
    pub rate_hz: u32,
    pub sample_len: usize,
    pub fields: Vec<Bmi088FieldDescriptor>,
}

/// Abstract value of a schema.
pub struct SchemaModel {
    pub seq: u8,
    pub schema_version: u8,
    pub rate_hz: u32,
    pub sample_len: usize,
    pub fields: Seq<FieldModel>,
}

impl View for Bmi088SchemaFrame {
    type V = SchemaModel;

    open spec fn view(&self) -> SchemaModel {
        SchemaModel {
            seq: self.seq,
            schema_version: self.schema_version,
            rate_hz: self.rate_hz,
            sample_len: self.sample_len,
            fields: fields_model(self.fields@),
        }
    }
}

impl Clone for Bmi088SchemaFrame {
    fn clone(&self) -> (out: Self)
        ensures
            out@ == self@,
    {
        Bmi088SchemaFrame {
            seq: self.seq,
            schema_version: self.schema_version,
            rate_hz: self.rate_hz,
            sample_len: self.sample_len,
            fields: clone_fields(&self.fields),
        }
    }
}

/// Device identity reported by the firmware.
#[derive(Debug)]
pub struct Bmi088IdentityFrame {
    pub seq: u8,
    pub identity_format_version: u8,
    pub device_name: String,
    pub board_name: String,
    pub firmware_version: String,
    pub protocol_name: String,
    pub protocol_version: String,
    pub transport_name: String,
    pub sample_rate_hz: u16,
    pub schema_field_count: u8,
    pub sample_payload_len: u8,
    pub protocol_version_byte: u8,
    pub feature_flags: u16,
    pub baud_rate: u32,
    pub protocol_minor_version: u8,
}

/// Abstract value of a device identity.
pub struct IdentityModel {
    pub seq: u8,
    pub identity_format_version: u8,
    pub device_name: Seq<char>,
    pub board_name: Seq<char>,
    pub firmware_version: Seq<char>,
    pub protocol_name: Seq<char>,
    pub protocol_version: Seq<char>,
    pub transport_name: Seq<char>,
    pub sample_rate_hz: u16,
    pub schema_field_count: u8,
    pub sample_payload_len: u8,
    pub protocol_version_byte: u8,
    pub feature_flags: u16,
    pub baud_rate: u32,
    pub protocol_minor_version: u8,
}

impl View for Bmi088IdentityFrame {
    type V = IdentityModel;

    open spec fn view(&self) -> IdentityModel {
        IdentityModel {
            seq: self.seq,
            identity_format_version: self.identity_format_version,
            device_name: self.device_name@,
            board_name: self.board_name@,
            firmware_version: self.firmware_version@,
            protocol_name: self.protocol_name@,
            protocol_version: self.protocol_version@,
            transport_name: self.transport_name@,
            sample_rate_hz: self.sample_rate_hz,
            schema_field_count: self.schema_field_count,
            sample_payload_len: self.sample_payload_len,
            protocol_version_byte: self.protocol_version_byte,
            feature_flags: self.feature_flags,
            baud_rate: self.baud_rate,
            protocol_minor_version: self.protocol_minor_version,
        }
    }
}

impl Clone for Bmi088IdentityFrame {
    fn clone(&self) -> (out: Self)
        ensures
            out@ == self@,
    {
        Bmi088IdentityFrame {
            seq: self.seq,
            identity_format_version: self.identity_format_version,
            device_name: self.device_name.clone(),
            board_name: self.board_name.clone(),
            firmware_version: self.firmware_version.clone(),
            protocol_name: self.protocol_name.clone(),
            protocol_version: self.protocol_version.clone(),
            transport_name: self.transport_name.clone(),
            sample_rate_hz: self.sample_rate_hz,
            schema_field_count: self.schema_field_count,
            sample_payload_len: self.sample_payload_len,
            protocol_version_byte: self.protocol_version_byte,
            feature_flags: self.feature_flags,
            baud_rate: self.baud_rate,
            protocol_minor_version: self.protocol_minor_version,
        }
    }
}

/// One decoded sample value. The scaled physical value is
/// `raw * 10^scale_q`.
#[derive(Debug)]
pub struct Bmi088SampleField {
    pub name: String,
    pub raw: i16,
    pub unit: Option<String>,
    pub scale_q: i8,
    pub index: usize,
}

/// Abstract value of a sample field.
pub struct SampleFieldModel {
    pub name: Seq<char>,
    pub raw: i16,
    pub unit: Option<Seq<char>>,
    pub scale_q: i8,
    pub index: usize,
}

impl View for Bmi088SampleField {
    type V = SampleFieldModel;

    open spec fn view(&self) -> SampleFieldModel {
        SampleFieldModel {
            name: self.name@,
            raw: self.raw,
            unit: match self.unit {
                Some(u) => Some(u@),
                None => None,
            },
            scale_q: self.scale_q,
            index: self.index,
        }
    }
}

/// One sample frame: a value for every schema field.
#[derive(Debug)]
pub struct Bmi088SampleFrame {
    pub seq: u8,
    pub fields: Vec<Bmi088SampleField>,
}

/// Abstract value of a sample frame.
pub struct SampleModel {
    pub seq: u8,
    pub fields: Seq<SampleFieldModel>,
}

impl View for Bmi088SampleFrame {
    type V = SampleModel;

    open spec fn view(&self) -> SampleModel {
        SampleModel { seq: self.seq, fields: self.fields@.map_values(|f: Bmi088SampleField| f@) }
    }
}

impl Bmi088SampleFrame {
    /// The sample values in schema order.
    pub fn fields(&self) -> (out: &[Bmi088SampleField])
        ensures
            out@ == self.fields@,
    {
        self.fields.as_slice()
    }
}

/// Commands that the host sends to the device.
#[derive(Clone, Copy, Debug, PartialEq, Eq, Structural)]
pub enum Bmi088HostCommand {
    Ack,
    Start,
    Stop,
    ReqSchema,
    ReqIdentity,
    ReqTuning,
    SetTuning,
    ShellExec,
}

/// A decoded device frame.
#[derive(Debug)]
pub enum Bmi088Frame {
    Identity(Bmi088IdentityFrame),
    Schema(Bmi088SchemaFrame),
    Sample(Bmi088SampleFrame),
    ShellOutput(LinePayload),
}

/// Abstract value of a decoded device frame.
pub enum FrameModel {
    Identity(IdentityModel),
    Schema(SchemaModel),
    Sample(SampleModel),
    ShellOutput(LinePayloadModel),
}

impl View for Bmi088Frame {
    type V = FrameModel;

    open spec fn view(&self) -> FrameModel {
        match self {
            Bmi088Frame::Identity(i) => FrameModel::Identity(i@),
            Bmi088Frame::Schema(s) => FrameModel::Schema(s@),
            Bmi088Frame::Sample(s) => FrameModel::Sample(s@),
            Bmi088Frame::ShellOutput(l) => FrameModel::ShellOutput(l@),
        }
    }
}

/// Phases of the host-side handshake.
#[derive(Clone, Copy, Debug, PartialEq, Eq, Structural)]
pub enum Bmi088SessionPhase {
    AwaitingSchema,
    AwaitingAck,
    AwaitingStart,
    Streaming,
    Stopped,
}

/// Why a frame could not be decoded.
#[derive(Clone, Debug, PartialEq, Eq)]
pub enum Bmi088DecodeError {
    InvalidSof,
    InvalidVersion,
    InvalidCrc,
    SchemaMismatch(String),
    MalformedFrame(String),
}

/// Abstract value of a decode error.
pub enum DecodeErrorModel {
    InvalidSof,
    InvalidVersion,
    InvalidCrc,
    SchemaMismatch(Seq<char>),
    MalformedFrame(Seq<char>),
}

impl View for Bmi088DecodeError {
    type V = DecodeErrorModel;

    open spec fn view(&self) -> DecodeErrorModel {
        match self {
            Bmi088DecodeError::InvalidSof => DecodeErrorModel::InvalidSof,
            Bmi088DecodeError::InvalidVersion => DecodeErrorModel::InvalidVersion,
            Bmi088DecodeError::InvalidCrc => DecodeErrorModel::InvalidCrc,
            Bmi088DecodeError::SchemaMismatch(m) => DecodeErrorModel::SchemaMismatch(m@),
            Bmi088DecodeError::MalformedFrame(m) => DecodeErrorModel::MalformedFrame(m@),
        }
    }
}

/// A malformed-frame error with the given reason.
pub open spec fn malformed(reason: Seq<char>) -> DecodeErrorModel {
    DecodeErrorModel::MalformedFrame(reason)
}

/// A schema-mismatch error with the given reason.
pub open spec fn mismatch(reason: Seq<char>) -> DecodeErrorModel {
    DecodeErrorModel::SchemaMismatch(reason)
}

/// Builds a malformed-frame error.
pub fn malformed_error(reason: &str) -> (out: Bmi088DecodeError)
    ensures
        out@ == malformed(reason@),
{
    Bmi088DecodeError::MalformedFrame(owned(reason))
}

/// Builds a schema-mismatch error.
pub fn mismatch_error(reason: &str) -> (out: Bmi088DecodeError)
    ensures
        out@ == mismatch(reason@),
{
    Bmi088DecodeError::SchemaMismatch(owned(reason))
}

/// Result of a decode, abstractly.
pub open spec fn map_err_model<T>(r: Result<T, Bmi088DecodeError>) -> Result<T, DecodeErrorModel> {
    match r {
        Ok(v) => Ok(v),
        Err(e) => Err(e@),
    }
}

impl Bmi088DecodeError {
    /// A human-readable description, as the display text of the error.
    pub fn message(&self) -> (out: String)
        ensures
            out@ == match self@ {
                DecodeErrorModel::InvalidSof => "invalid BMI088 SOF"@,
                DecodeErrorModel::InvalidVersion => "invalid BMI088 version"@,
                DecodeErrorModel::InvalidCrc => "invalid BMI088 CRC"@,
                DecodeErrorModel::SchemaMismatch(m) => "schema mismatch: "@ + m,
                DecodeErrorModel::MalformedFrame(m) => "malformed BMI088 frame: "@ + m,
            },
    {
        match self {
            Bmi088DecodeError::InvalidSof => owned("invalid BMI088 SOF"),
            Bmi088DecodeError::InvalidVersion => owned("invalid BMI088 version"),
            Bmi088DecodeError::InvalidCrc => owned("invalid BMI088 CRC"),
            Bmi088DecodeError::SchemaMismatch(m) => {
                let mut s = owned("schema mismatch: ");
                s.append(m.as_str());
                s
            },
            Bmi088DecodeError::MalformedFrame(m) => {
                let mut s = owned("malformed BMI088 frame: ");
                s.append(m.as_str());
                s
            },
        }
    }
}

} // verus!
