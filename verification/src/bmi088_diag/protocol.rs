//! The wire protocol as seen by the handshake diagnostic: host commands in
//! binary or ASCII form, and a decoder that counts what it had to discard.

use crate::bmi088::decoder::{decode_binary_frame_with_schema, decode_frame_spec};
use crate::bmi088::frame::{
    crc16_ccitt, decode_frame_envelope, envelope_spec, find_sof, frame_bytes, is_first_sof,
    encode_frame,
};
use crate::bmi088::host::{command_code, encode_host_command_with_seq, host_command_label, label_spec};
use crate::bmi088::models::{
    Bmi088DecodeError, Bmi088FieldDescriptor, Bmi088Frame, Bmi088HostCommand, Bmi088IdentityFrame,
    Bmi088SchemaFrame, DecodeErrorModel, FrameModel, IdentityModel, SchemaModel,
};
use crate::bmi088::sample::{decode_sample_raw_values, raw_values_spec};
use crate::bmi088::stream::{
    concat_frames, find_newline, is_first_newline, lemma_first_sof_unique, lemma_no_newline, lemma_no_sof_skip,
    newline_position, sof_position,
};
use crate::serial::{framer_push, FramedLine, FramedLineModel, LineFramer};
use vstd::prelude::*;
use vstd::utf8::encode_utf8;

verus! {

pub const SOF: [u8; 2] = [0xA5, 0x5A];
pub const VERSION: u8 = 0x01;
pub const FRAME_TYPE_REQUEST: u8 = 0x01;
pub const FRAME_TYPE_RESPONSE: u8 = 0x02;
pub const FRAME_TYPE_EVENT: u8 = 0x03;
pub const CMD_ACK: u8 = 0x10;
pub const CMD_START: u8 = 0x11;
pub const CMD_STOP: u8 = 0x12;
pub const CMD_REQ_SCHEMA: u8 = 0x13;
pub const CMD_REQ_IDENTITY: u8 = 0x14;
pub const CMD_SCHEMA: u8 = 0x80;
pub const CMD_SAMPLE: u8 = 0x81;
pub const CMD_IDENTITY: u8 = 0x82;

/// Handshake commands the diagnostic can send.
#[derive(Clone, Copy, Debug, PartialEq, Eq, Structural)]
pub enum HostCommand {
    Ack,
    Start,
    Stop,
    ReqSchema,
    ReqIdentity,
}

/// Line ending appended to ASCII commands.
#[derive(Clone, Copy, Debug, PartialEq, Eq, Structural)]
pub enum NewlineMode {
    NoNewline,
    Lf,
    Crlf,
}

/// A sample with its raw values only.
#[derive(Clone, Debug, PartialEq, Eq)]
pub struct SampleFrame {
    pub seq: u8,
    pub raw_values: Vec<i16>,
}

/// Abstract value of a raw sample.
pub struct RawSampleModel {
    pub seq: u8,
    pub raw_values: Seq<i16>,
}

impl View for SampleFrame {
    type V = RawSampleModel;

    open spec fn view(&self) -> RawSampleModel {
        RawSampleModel { seq: self.seq, raw_values: self.raw_values@ }
    }
}

/// A frame as the diagnostic classifies it.
#[derive(Debug)]
pub enum Frame {
    Identity(Bmi088IdentityFrame),
    Schema(Bmi088SchemaFrame),
    Sample(SampleFrame),
    Unknown { frame_type: u8, command: u8, seq: u8, payload_len: u8 },
}

/// Abstract value of a classified frame.
pub enum DiagFrameModel {
    Identity(IdentityModel),
    Schema(SchemaModel),
    Sample(RawSampleModel),
    Unknown { frame_type: u8, command: u8, seq: u8, payload_len: u8 },
}

impl View for Frame {
    type V = DiagFrameModel;

    open spec fn view(&self) -> DiagFrameModel {
        match self {
            Frame::Identity(i) => DiagFrameModel::Identity(i@),
            Frame::Schema(s) => DiagFrameModel::Schema(s@),
            Frame::Sample(s) => DiagFrameModel::Sample(s@),
            Frame::Unknown { frame_type, command, seq, payload_len } => DiagFrameModel::Unknown {
                frame_type: *frame_type,
                command: *command,
                seq: *seq,
                payload_len: *payload_len,
            },
        }
    }
}

/// One item decoded from the stream.
#[derive(Debug)]
pub enum Packet {
    Text(FramedLine),
    Frame(Frame),
}

/// Abstract value of a decoded item.
pub enum DiagPacketModel {
    Text(FramedLineModel),
    Frame(DiagFrameModel),
}

impl View for Packet {
    type V = DiagPacketModel;

    open spec fn view(&self) -> DiagPacketModel {
        match self {
            Packet::Text(l) => DiagPacketModel::Text(l@),
            Packet::Frame(f) => DiagPacketModel::Frame(f@),
        }
    }
}

/// Why the diagnostic could not decode a frame.
#[derive(Clone, Copy, Debug, PartialEq, Eq)]
pub enum DecodeError {
    InvalidSof,
    InvalidVersion,
    InvalidCrc,
    Malformed(&'static str),
}

/// Abstract value of a diagnostic decode error.
pub enum DiagErrorModel {
    InvalidSof,
    InvalidVersion,
    InvalidCrc,
    Malformed(Seq<char>),
}

impl View for DecodeError {
    type V = DiagErrorModel;

    open spec fn view(&self) -> DiagErrorModel {
        match self {
            DecodeError::InvalidSof => DiagErrorModel::InvalidSof,
            DecodeError::InvalidVersion => DiagErrorModel::InvalidVersion,
            DecodeError::InvalidCrc => DiagErrorModel::InvalidCrc,
            DecodeError::Malformed(m) => DiagErrorModel::Malformed(m@),
        }
    }
}

/// The protocol command a diagnostic command stands for.
pub open spec fn to_bmi088_spec(command: HostCommand) -> Bmi088HostCommand {
    match command {
        HostCommand::Ack => Bmi088HostCommand::Ack,
        HostCommand::Start => Bmi088HostCommand::Start,
        HostCommand::Stop => Bmi088HostCommand::Stop,
        HostCommand::ReqSchema => Bmi088HostCommand::ReqSchema,
        HostCommand::ReqIdentity => Bmi088HostCommand::ReqIdentity,
    }
}

/// The protocol command a diagnostic command stands for.
fn to_bmi088_command(command: HostCommand) -> (out: Bmi088HostCommand)
    ensures
        out == to_bmi088_spec(command),
{
    match command {
        HostCommand::Ack => Bmi088HostCommand::Ack,
        HostCommand::Start => Bmi088HostCommand::Start,
        HostCommand::Stop => Bmi088HostCommand::Stop,
        HostCommand::ReqSchema => Bmi088HostCommand::ReqSchema,
        HostCommand::ReqIdentity => Bmi088HostCommand::ReqIdentity,
    }
}

/// Encodes a handshake command as a binary request frame with no payload.
pub fn encode_host_command(command: HostCommand, seq: u8) -> (out: Vec<u8>)
    ensures
        out@ == frame_bytes(0x01, command_code(to_bmi088_spec(command)), seq, Seq::empty()),
{
    encode_host_command_with_seq(to_bmi088_command(command), seq)
}

/// The payload bytes an event frame carries: at most 255.
pub open spec fn event_payload(payload: Seq<u8>) -> Seq<u8> {
    if payload.len() > 255 {
        payload.take(255)
    } else {
        payload
    }
}

/// Encodes an event frame; a payload longer than 255 bytes is cut to 255.
pub fn encode_event_frame(command: u8, seq: u8, payload: &[u8]) -> (out: Vec<u8>)
    ensures
        out@ == frame_bytes(0x03, command, seq, event_payload(payload@)),
{
    let len = if payload.len() > 255 {
        255
    } else {
        payload.len()
    };
    let body = vstd::slice::slice_subrange(payload, 0, len);
    assert(body@ =~= event_payload(payload@));
    encode_frame(FRAME_TYPE_EVENT, command, seq, body)
}

/// The label of a handshake command.
pub fn command_label(command: HostCommand) -> (out: &'static str)
    ensures
        out@ == label_spec(to_bmi088_spec(command)),
{
    host_command_label(&to_bmi088_command(command))
}

/// The ASCII text of a handshake command.
pub open spec fn ascii_command_text(command: HostCommand) -> Seq<char> {
    match command {
        HostCommand::Ack => "ack"@,
        HostCommand::Start => "start"@,
        HostCommand::Stop => "stop"@,
        HostCommand::ReqSchema => "req_schema"@,
        HostCommand::ReqIdentity => "req_identity"@,
    }
}

/// The bytes of a line ending.
pub open spec fn newline_bytes(mode: NewlineMode) -> Seq<u8> {
    match mode {
        NewlineMode::NoNewline => Seq::empty(),
        NewlineMode::Lf => seq![10u8],
        NewlineMode::Crlf => seq![13u8, 10u8],
    }
}

/// The bytes of a handshake command sent as an ASCII line.
pub fn ascii_command_bytes(command: HostCommand, newline_mode: NewlineMode) -> (out: Vec<u8>)
    ensures
        out@ == encode_utf8(ascii_command_text(command)) + newline_bytes(newline_mode),
{
    let text: &str = match command {
        HostCommand::Ack => "ack",
        HostCommand::Start => "start",
        HostCommand::Stop => "stop",
        HostCommand::ReqSchema => "req_schema",
        HostCommand::ReqIdentity => "req_identity",
    };
    let mut bytes = vstd::slice::slice_to_vec(text.as_bytes());
    match newline_mode {
        NewlineMode::NoNewline => {},
        NewlineMode::Lf => bytes.push(10),
        NewlineMode::Crlf => {
            bytes.push(13);
            bytes.push(10);
        },
    }
    assert(bytes@ =~= encode_utf8(ascii_command_text(command)) + newline_bytes(newline_mode));
    bytes
}

/// The diagnostic error for a protocol decode error.
pub open spec fn map_error_spec(e: DecodeErrorModel) -> DiagErrorModel {
    match e {
        DecodeErrorModel::InvalidSof => DiagErrorModel::InvalidSof,
        DecodeErrorModel::InvalidVersion => DiagErrorModel::InvalidVersion,
        DecodeErrorModel::InvalidCrc => DiagErrorModel::InvalidCrc,
        _ => DiagErrorModel::Malformed("invalid BMI088 frame"@),
    }
}

/// The diagnostic error for a protocol decode error.
fn map_decode_error(error: Bmi088DecodeError) -> (out: DecodeError)
    ensures
        out@ == map_error_spec(error@),
{
    match error {
        Bmi088DecodeError::InvalidSof => DecodeError::InvalidSof,
        Bmi088DecodeError::InvalidVersion => DecodeError::InvalidVersion,
        Bmi088DecodeError::InvalidCrc => DecodeError::InvalidCrc,
        Bmi088DecodeError::SchemaMismatch(_) | Bmi088DecodeError::MalformedFrame(_) => {
            DecodeError::Malformed("invalid BMI088 frame")
        },
    }
}

/// What the diagnostic makes of a frame, with an optional cached schema.
pub open spec fn diag_decode_spec(frame: Seq<u8>, schema: Option<SchemaModel>) -> Result<DiagFrameModel, DiagErrorModel> {
    match envelope_spec(frame) {
        Err(e) => Err(map_error_spec(e)),
        Ok((frame_type, command, seq, payload)) => if frame_type == 0x03 && command == 0x82 {
            match decode_frame_spec(frame, schema) {
                Ok(FrameModel::Identity(i)) => Ok(DiagFrameModel::Identity(i)),
                Ok(_) => Err(DiagErrorModel::Malformed("unexpected non-identity frame"@)),
                Err(e) => Err(map_error_spec(e)),
            }
        } else if frame_type == 0x03 && command == 0x80 {
            match decode_frame_spec(frame, schema) {
                Ok(FrameModel::Schema(s)) => Ok(DiagFrameModel::Schema(s)),
                Ok(_) => Err(DiagErrorModel::Malformed("unexpected non-schema frame"@)),
                Err(e) => Err(map_error_spec(e)),
            }
        } else if frame_type == 0x03 && command == 0x81 {
            if payload.len() % 2 != 0 {
                Err(DiagErrorModel::Malformed("invalid BMI088 frame"@))
            } else {
                Ok(DiagFrameModel::Sample(RawSampleModel { seq, raw_values: raw_values_spec(payload) }))
            }
        } else {
            Ok(DiagFrameModel::Unknown { frame_type, command, seq, payload_len: payload.len() as u8 })
        },
    }
}

/// Classifies a frame without a cached schema.
pub fn decode_frame(frame: &[u8]) -> (out: Result<Frame, DecodeError>)
    ensures
        match (out, diag_decode_spec(frame@, None)) {
            (Ok(a), Ok(b)) => a@ == b,
            (Err(a), Err(b)) => a@ == b,
            _ => false,
        },
{
    decode_frame_with_schema(frame, None)
}

/// Classifies a frame; identity and schema frames are decoded in full.
fn decode_frame_with_schema(frame: &[u8], schema: Option<&Bmi088SchemaFrame>) -> (out: Result<Frame, DecodeError>)
    ensures
        match (out, diag_decode_spec(frame@, match schema { Some(s) => Some(s@), None => None })) {
            (Ok(a), Ok(b)) => a@ == b,
            (Err(a), Err(b)) => a@ == b,
            _ => false,
        },
{
    let (frame_type, command, seq, payload) = match decode_frame_envelope(frame) {
        Ok(v) => v,
        Err(e) => return Err(map_decode_error(e)),
    };
    if frame_type == FRAME_TYPE_EVENT && command == CMD_IDENTITY {
        match decode_binary_frame_with_schema(frame, schema) {
            Ok(Bmi088Frame::Identity(identity)) => Ok(Frame::Identity(identity)),
            Ok(_) => Err(DecodeError::Malformed("unexpected non-identity frame")),
            Err(e) => Err(map_decode_error(e)),
        }
    } else if frame_type == FRAME_TYPE_EVENT && command == CMD_SCHEMA {
        match decode_binary_frame_with_schema(frame, schema) {
            Ok(Bmi088Frame::Schema(decoded)) => Ok(Frame::Schema(decoded)),
            Ok(_) => Err(DecodeError::Malformed("unexpected non-schema frame")),
            Err(e) => Err(map_decode_error(e)),
        }
    } else if frame_type == FRAME_TYPE_EVENT && command == CMD_SAMPLE {
        match decode_sample_raw_values(payload) {
            Ok(raw_values) => Ok(Frame::Sample(SampleFrame { seq, raw_values })),
            Err(e) => Err(map_decode_error(e)),
        }
    } else {
        Ok(Frame::Unknown { frame_type, command, seq, payload_len: payload.len() as u8 })
    }
}

/// Decoder state: unconsumed bytes, byte budget, text framer, cached schema
/// and the counts of discarded input.
pub struct DiagModel {
    pub buffer: Seq<u8>,
    pub max_buffer_bytes: usize,
    pub pending_text: Seq<u8>,
    pub schema: Option<SchemaModel>,
    pub invalid_crc_count: int,
    pub malformed_frame_count: int,
    pub desync_drop_bytes: int,
}

/// Text lines as packets.
pub open spec fn diag_text_packets(lines: Seq<FramedLineModel>) -> Seq<DiagPacketModel> {
    lines.map_values(|l: FramedLineModel| DiagPacketModel::Text(l))
}

/// Prefixes packets to the outcome of the rest of a run.
pub open spec fn diag_after(ps: Seq<DiagPacketModel>, r: (DiagModel, Seq<DiagPacketModel>)) -> (DiagModel, Seq<DiagPacketModel>) {
    (r.0, ps + r.1)
}

/// Runs the diagnostic decoder over its buffer until it needs more bytes.
/// Bytes before a start marker count as desynchronised; a frame over budget
/// or that does not decode loses one byte and counts as invalid CRC or
/// malformed; a schema frame is always cached; a buffer over budget without
/// marker or line end keeps its last `max_buffer_bytes` bytes and counts the
/// rest as desynchronised.
pub open spec fn diag_run(st: DiagModel) -> (DiagModel, Seq<DiagPacketModel>)
    decreases st.buffer.len(),
{
    let buf = st.buffer;
    match sof_position(buf) {
        Some(i) => if i > 0 {
            let (pending, lines) = framer_push(st.pending_text, buf.take(i));
            diag_after(
                diag_text_packets(lines),
                diag_run(
                    DiagModel {
                        buffer: buf.skip(i),
                        pending_text: pending,
                        desync_drop_bytes: st.desync_drop_bytes + i,
                        ..st
                    },
                ),
            )
        } else if buf.len() < 9 {
            (st, Seq::empty())
        } else {
            let frame_len = 9 + buf[6];
            if frame_len > st.max_buffer_bytes {
                diag_run(
                    DiagModel {
                        buffer: buf.skip(1),
                        malformed_frame_count: st.malformed_frame_count + 1,
                        desync_drop_bytes: st.desync_drop_bytes + 1,
                        ..st
                    },
                )
            } else if buf.len() < frame_len {
                (st, Seq::empty())
            } else {
                let rest = DiagModel { buffer: buf.skip(frame_len), ..st };
                match diag_decode_spec(buf.take(frame_len), st.schema) {
                    Ok(DiagFrameModel::Schema(sc)) => diag_after(
                        seq![DiagPacketModel::Frame(DiagFrameModel::Schema(sc))],
                        diag_run(DiagModel { schema: Some(sc), ..rest }),
                    ),
                    Ok(f) => diag_after(seq![DiagPacketModel::Frame(f)], diag_run(rest)),
                    Err(DiagErrorModel::InvalidCrc) => diag_run(
                        DiagModel {
                            buffer: buf.skip(1),
                            invalid_crc_count: st.invalid_crc_count + 1,
                            desync_drop_bytes: st.desync_drop_bytes + 1,
                            ..st
                        },
                    ),
                    Err(_) => diag_run(
                        DiagModel {
                            buffer: buf.skip(1),
                            malformed_frame_count: st.malformed_frame_count + 1,
                            desync_drop_bytes: st.desync_drop_bytes + 1,
                            ..st
                        },
                    ),
                }
            }
        },
        None => match newline_position(buf) {
            Some(n) => {
                let (pending, lines) = framer_push(st.pending_text, buf.take(n + 1));
                diag_after(
                    diag_text_packets(lines),
                    diag_run(DiagModel { buffer: buf.skip(n + 1), pending_text: pending, ..st }),
                )
            },
            None => if buf.len() > st.max_buffer_bytes {
                let drain = buf.len() - st.max_buffer_bytes;
                (
                    DiagModel {
                        buffer: buf.skip(drain),
                        desync_drop_bytes: st.desync_drop_bytes + drain,
                        ..st
                    },
                    Seq::empty(),
                )
            } else {
                (st, Seq::empty())
            },
        },
    }
}

/// The diagnostic decoder's state after a decoded frame, its buffer aside:
/// a schema is cached, anything else changes nothing.
pub open spec fn diag_after_frame(st: DiagModel, f: DiagFrameModel) -> DiagModel {
    match f {
        DiagFrameModel::Schema(sc) => DiagModel { schema: Some(sc), ..st },
        _ => st,
    }
}

/// What the diagnostic decoder makes of a list of frames received in
/// order, each within the budget and decoding with the schema cached when
/// it arrives: the state it ends in and one packet per frame; `None` if
/// some frame does not fit or does not decode.
pub open spec fn diag_frames_outcome(st: DiagModel, frames: Seq<Seq<u8>>) -> Option<(DiagModel, Seq<DiagPacketModel>)>
    decreases frames.len(),
{
    if frames.len() == 0 {
        Some((st, Seq::empty()))
    } else if frames[0].len() > st.max_buffer_bytes {
        None
    } else {
        match diag_decode_spec(frames[0], st.schema) {
            Ok(f) => match diag_frames_outcome(diag_after_frame(st, f), frames.drop_first()) {
                Some(r) => Some((r.0, seq![DiagPacketModel::Frame(f)] + r.1)),
                None => None,
            },
            Err(_) => None,
        }
    }
}

/// A whole frame that decodes at the head of the buffer is emitted, and the
/// run goes on with the bytes after it.
proof fn lemma_diag_frame_then(st: DiagModel, frame: Seq<u8>, rest: Seq<u8>)
    requires
        frame.len() <= st.max_buffer_bytes,
        diag_decode_spec(frame, st.schema) is Ok,
    ensures
        diag_run(DiagModel { buffer: frame + rest, ..st }) == diag_after(
            seq![DiagPacketModel::Frame(diag_decode_spec(frame, st.schema)->Ok_0)],
            diag_run(DiagModel { buffer: rest, ..diag_after_frame(st, diag_decode_spec(frame, st.schema)->Ok_0) }),
        ),
{
    let buf = frame + rest;
    assert(envelope_spec(frame) is Ok);
    assert(buf[0] == frame[0] && buf[1] == frame[1] && buf[6] == frame[6]);
    assert(is_first_sof(buf, 0));
    lemma_first_sof_unique(buf, 0, choose|j: int| is_first_sof(buf, j));
    assert(sof_position(buf) == Some(0int));
    assert(buf.take(frame.len() as int) =~= frame);
    assert(buf.skip(frame.len() as int) =~= rest);
}

/// A run of frames that each decode comes out as one frame packet per
/// frame, in order, leaving nothing buffered; no byte is counted as
/// desynchronised and no frame as malformed or failing its CRC.
pub proof fn lemma_diag_frames_decode(st: DiagModel, frames: Seq<Seq<u8>>)
    requires
        st.buffer.len() == 0,
        diag_frames_outcome(st, frames) is Some,
    ensures
        diag_run(DiagModel { buffer: concat_frames(frames), ..st }) == (
            DiagModel { buffer: Seq::empty(), ..diag_frames_outcome(st, frames)->Some_0.0 },
            diag_frames_outcome(st, frames)->Some_0.1,
        ),
        diag_frames_outcome(st, frames)->Some_0.0.invalid_crc_count == st.invalid_crc_count,
        diag_frames_outcome(st, frames)->Some_0.0.malformed_frame_count == st.malformed_frame_count,
        diag_frames_outcome(st, frames)->Some_0.0.desync_drop_bytes == st.desync_drop_bytes,
    decreases frames.len(),
{
    assert(st.buffer =~= Seq::<u8>::empty());
    if frames.len() == 0 {
        let bytes = concat_frames(frames);
        assert(bytes =~= Seq::<u8>::empty());
        assert forall|j: int| !is_first_sof(bytes, j) by {}
        assert forall|n: int| !is_first_newline(bytes, n) by {}
        assert(DiagModel { buffer: bytes, ..st } == st);
    } else {
        let f = frames[0];
        let tail = frames.drop_first();
        let fm = diag_decode_spec(f, st.schema)->Ok_0;
        let st1 = diag_after_frame(st, fm);
        assert(st1.buffer == st.buffer);
        lemma_diag_frame_then(st, f, concat_frames(tail));
        lemma_diag_frames_decode(st1, tail);
        assert(DiagModel { buffer: concat_frames(tail), ..st1 } == DiagModel {
            buffer: concat_frames(tail),
            ..diag_after_frame(st, fm)
        });
    }
}

/// The counts of discarded input never go down while the decoder runs.
pub proof fn lemma_diag_counters_grow(st: DiagModel)
    ensures
        diag_run(st).0.invalid_crc_count >= st.invalid_crc_count,
        diag_run(st).0.malformed_frame_count >= st.malformed_frame_count,
        diag_run(st).0.desync_drop_bytes >= st.desync_drop_bytes,
    decreases st.buffer.len(),
{
    let buf = st.buffer;
    match sof_position(buf) {
        Some(i) => {
            if i > 0 {
                assert(is_first_sof(buf, i)) by {
                    assert(exists|j: int| is_first_sof(buf, j));
                }
                let (pending, lines) = framer_push(st.pending_text, buf.take(i));
                lemma_diag_counters_grow(
                    DiagModel {
                        buffer: buf.skip(i),
                        pending_text: pending,
                        desync_drop_bytes: st.desync_drop_bytes + i,
                        ..st
                    },
                );
            } else if buf.len() >= 9 {
                let frame_len = 9 + buf[6];
                if frame_len > st.max_buffer_bytes {
                    lemma_diag_counters_grow(
                        DiagModel {
                            buffer: buf.skip(1),
                            malformed_frame_count: st.malformed_frame_count + 1,
                            desync_drop_bytes: st.desync_drop_bytes + 1,
                            ..st
                        },
                    );
                } else if buf.len() >= frame_len {
                    let rest = DiagModel { buffer: buf.skip(frame_len), ..st };
                    match diag_decode_spec(buf.take(frame_len), st.schema) {
                        Ok(DiagFrameModel::Schema(sc)) => {
                            lemma_diag_counters_grow(DiagModel { schema: Some(sc), ..rest });
                        },
                        Ok(f) => {
                            lemma_diag_counters_grow(rest);
                        },
                        Err(DiagErrorModel::InvalidCrc) => {
                            lemma_diag_counters_grow(
                                DiagModel {
                                    buffer: buf.skip(1),
                                    invalid_crc_count: st.invalid_crc_count + 1,
                                    desync_drop_bytes: st.desync_drop_bytes + 1,
                                    ..st
                                },
                            );
                        },
                        Err(_) => {
                            lemma_diag_counters_grow(
                                DiagModel {
                                    buffer: buf.skip(1),
                                    malformed_frame_count: st.malformed_frame_count + 1,
                                    desync_drop_bytes: st.desync_drop_bytes + 1,
                                    ..st
                                },
                            );
                        },
                    }
                }
            }
        },
        None => match newline_position(buf) {
            Some(n) => {
                assert(is_first_newline(buf, n)) by {
                    assert(exists|m: int| is_first_newline(buf, m));
                }
                let (pending, lines) = framer_push(st.pending_text, buf.take(n + 1));
                lemma_diag_counters_grow(DiagModel { buffer: buf.skip(n + 1), pending_text: pending, ..st });
            },
            None => {},
        },
    }
}

/// The abstract values of a list of packets.
pub open spec fn diag_packets_model(ps: Seq<Packet>) -> Seq<DiagPacketModel> {
    ps.map_values(|p: Packet| p@)
}

/// Decoder for the diagnostic, which counts the input it discards.
#[derive(Debug)]
pub struct DiagnosticDecoder {
    buffer: Vec<u8>,
    max_buffer_bytes: usize,
    text_framer: LineFramer,
    invalid_crc_count: usize,
    malformed_frame_count: usize,
    desync_drop_bytes: usize,
    schema: Option<SchemaFrame>,
}

pub type SchemaField = Bmi088FieldDescriptor;

pub type IdentityFrame = Bmi088IdentityFrame;

pub type SchemaFrame = Bmi088SchemaFrame;

impl View for DiagnosticDecoder {
    type V = DiagModel;

    closed spec fn view(&self) -> DiagModel {
        DiagModel {
            buffer: self.buffer@,
            max_buffer_bytes: self.max_buffer_bytes,
            pending_text: self.text_framer@,
            schema: match self.schema {
                Some(s) => Some(s@),
                None => None,
            },
            invalid_crc_count: self.invalid_crc_count as int,
            malformed_frame_count: self.malformed_frame_count as int,
            desync_drop_bytes: self.desync_drop_bytes as int,
        }
    }
}

/// What one step of the loop did.
pub open spec fn diag_step_ok(
    cur: DiagModel,
    next: DiagModel,
    consumed: int,
    emitted: Seq<DiagPacketModel>,
    stop: bool,
) -> bool {
    &&& 0 <= consumed <= cur.buffer.len()
    &&& next.buffer == cur.buffer.skip(consumed)
    &&& next.max_buffer_bytes == cur.max_buffer_bytes
    &&& cur.desync_drop_bytes <= next.desync_drop_bytes <= cur.desync_drop_bytes + consumed
    &&& cur.invalid_crc_count <= next.invalid_crc_count <= cur.invalid_crc_count + consumed
    &&& cur.malformed_frame_count <= next.malformed_frame_count <= cur.malformed_frame_count + consumed
    &&& diag_run(cur) == diag_after(emitted, diag_run(next))
    &&& stop ==> diag_run(next) == (next, Seq::<DiagPacketModel>::empty())
    &&& !stop ==> consumed > 0
}

/// Appends text lines as packets.
fn push_text(packets: &mut Vec<Packet>, lines: &Vec<FramedLine>)
    ensures
        diag_packets_model(final(packets)@) == diag_packets_model(old(packets)@) + diag_text_packets(
            lines@.map_values(|l: FramedLine| l@),
        ),
{
    let mut i: usize = 0;
    while i < lines.len()
        invariant
            i <= lines@.len(),
            diag_packets_model(packets@) =~= diag_packets_model(old(packets)@) + diag_text_packets(
                lines@.map_values(|l: FramedLine| l@),
            ).take(i as int),
        decreases lines.len() - i,
    {
        let ghost before = packets@;
        packets.push(Packet::Text(lines[i].clone()));
        assert(diag_packets_model(packets@) =~= diag_packets_model(before).push(
            DiagPacketModel::Text(lines@[i as int]@),
        ));
        i = i + 1;
    }
    assert(diag_text_packets(lines@.map_values(|l: FramedLine| l@)).take(lines@.len() as int)
        =~= diag_text_packets(lines@.map_values(|l: FramedLine| l@)));
}

impl DiagnosticDecoder {
    /// An empty decoder with a byte budget of at least one byte.
    pub fn new(max_buffer_bytes: usize) -> (out: Self)
        ensures
            out@ == (DiagModel {
                buffer: Seq::empty(),
                max_buffer_bytes: if max_buffer_bytes > 1 {
                    max_buffer_bytes
                } else {
                    1
                },
                pending_text: Seq::empty(),
                schema: None,
                invalid_crc_count: 0,
                malformed_frame_count: 0,
                desync_drop_bytes: 0,
            }),
    {
        DiagnosticDecoder {
            buffer: Vec::new(),
            max_buffer_bytes: if max_buffer_bytes > 1 {
                max_buffer_bytes
            } else {
                1
            },
            text_framer: LineFramer::new(),
            invalid_crc_count: 0,
            malformed_frame_count: 0,
            desync_drop_bytes: 0,
            schema: None,
        }
    }

    /// Frames dropped for a bad CRC.
    pub fn invalid_crc_count(&self) -> (out: usize)
        ensures
            out == self@.invalid_crc_count,
    {
        self.invalid_crc_count
    }

    /// Frames dropped as malformed or oversized.
    pub fn malformed_frame_count(&self) -> (out: usize)
        ensures
            out == self@.malformed_frame_count,
    {
        self.malformed_frame_count
    }

    /// Bytes discarded to find the next frame.
    pub fn desync_drop_bytes(&self) -> (out: usize)
        ensures
            out == self@.desync_drop_bytes,
    {
        self.desync_drop_bytes
    }

    /// The decoder state with the given unconsumed bytes.
    pub closed spec fn with_buffer(&self, buffer: Seq<u8>) -> DiagModel {
        DiagModel { buffer, ..self@ }
    }

    /// Handles a buffer that starts with a start marker.
    fn frame_step(&mut self, view: &[u8], packets: &mut Vec<Packet>) -> (out: (usize, bool))
        requires
            sof_position(view@) == Some(0int),
            old(self).desync_drop_bytes + view@.len() <= usize::MAX,
            old(self).invalid_crc_count + view@.len() <= usize::MAX,
            old(self).malformed_frame_count + view@.len() <= usize::MAX,
        ensures
            diag_step_ok(
                old(self).with_buffer(view@),
                final(self).with_buffer(view@.skip(out.0 as int)),
                out.0 as int,
                diag_packets_model(final(packets)@).skip(old(packets)@.len() as int),
                out.1,
            ),
            diag_packets_model(final(packets)@).take(old(packets)@.len() as int) == diag_packets_model(old(packets)@),
            final(packets)@.len() >= old(packets)@.len(),
    {
        let ghost n0 = packets@.len();
        if view.len() < 9 {
            assert(diag_packets_model(packets@).skip(n0 as int) =~= Seq::<DiagPacketModel>::empty());
            assert(view@.skip(0) =~= view@);
            return (0, true);
        }
        let frame_len: usize = 9 + view[6] as usize;
        if frame_len > self.max_buffer_bytes {
            self.malformed_frame_count = self.malformed_frame_count + 1;
            self.desync_drop_bytes = self.desync_drop_bytes + 1;
            assert(diag_packets_model(packets@).skip(n0 as int) =~= Seq::<DiagPacketModel>::empty());
            assert(diag_after(Seq::empty(), diag_run(self.with_buffer(view@.skip(1)))) =~= diag_run(self.with_buffer(view@.skip(1))));
            return (1, false);
        }
        if view.len() < frame_len {
            assert(diag_packets_model(packets@).skip(n0 as int) =~= Seq::<DiagPacketModel>::empty());
            assert(view@.skip(0) =~= view@);
            return (0, true);
        }
        let frame = vstd::slice::slice_subrange(view, 0, frame_len);
        assert(frame@ =~= view@.take(frame_len as int));
        let decoded = decode_frame_with_schema(frame, self.schema.as_ref());
        let consumed: usize;
        match decoded {
            Ok(Frame::Schema(schema)) => {
                self.schema = Some(schema.clone());
                packets.push(Packet::Frame(Frame::Schema(schema)));
                consumed = frame_len;
            },
            Ok(other) => {
                packets.push(Packet::Frame(other));
                consumed = frame_len;
            },
            Err(DecodeError::InvalidCrc) => {
                self.invalid_crc_count = self.invalid_crc_count + 1;
                self.desync_drop_bytes = self.desync_drop_bytes + 1;
                consumed = 1;
            },
            Err(_) => {
                self.malformed_frame_count = self.malformed_frame_count + 1;
                self.desync_drop_bytes = self.desync_drop_bytes + 1;
                consumed = 1;
            },
        }
        proof {
            if packets@.len() > n0 {
                assert(diag_packets_model(packets@).skip(n0 as int) =~= seq![packets@.last()@]);
            } else {
                assert(diag_packets_model(packets@).skip(n0 as int) =~= Seq::<DiagPacketModel>::empty());
                assert(diag_after(Seq::empty(), diag_run(self.with_buffer(view@.skip(1)))) =~= diag_run(self.with_buffer(view@.skip(1))));
            }
            assert(diag_packets_model(packets@).take(n0 as int) =~= diag_packets_model(old(packets)@));
        }
        (consumed, false)
    }

    /// One step of the decoder loop on the unconsumed bytes `view`.
    fn scan_step(&mut self, view: &[u8], packets: &mut Vec<Packet>) -> (out: (usize, bool))
        requires
            old(self).desync_drop_bytes + view@.len() <= usize::MAX,
            old(self).invalid_crc_count + view@.len() <= usize::MAX,
            old(self).malformed_frame_count + view@.len() <= usize::MAX,
        ensures
            diag_step_ok(
                old(self).with_buffer(view@),
                final(self).with_buffer(view@.skip(out.0 as int)),
                out.0 as int,
                diag_packets_model(final(packets)@).skip(old(packets)@.len() as int),
                out.1,
            ),
            diag_packets_model(final(packets)@).take(old(packets)@.len() as int) == diag_packets_model(old(packets)@),
            final(packets)@.len() >= old(packets)@.len(),
    {
        let ghost n0 = packets@.len();
        match find_sof(view) {
            Some(i) => {
                proof {
                    lemma_first_sof_unique(view@, i as int, choose|j: int| is_first_sof(view@, j));
                    assert(sof_position(view@) == Some(i as int));
                }
                if i > 0 {
                    let prefix = vstd::slice::slice_subrange(view, 0, i);
                    assert(prefix@ =~= view@.take(i as int));
                    let lines = self.text_framer.push(prefix);
                    self.desync_drop_bytes = self.desync_drop_bytes + i;
                    push_text(packets, &lines);
                    assert(diag_packets_model(packets@).skip(n0 as int) =~= diag_text_packets(lines@.map_values(|l: FramedLine| l@)));
                    assert(diag_packets_model(packets@).take(n0 as int) =~= diag_packets_model(old(packets)@));
                    (i, false)
                } else {
                    self.frame_step(view, packets)
                }
            },
            None => {
                proof {
                    assert forall|j: int| !is_first_sof(view@, j) by {}
                }
                match find_newline(view, 0) {
                    Some(n) => {
                        proof {
                            assert(view@.skip(0) =~= view@);
                            assert(is_first_newline(view@, n as int));
                            assert(newline_position(view@) == Some(n as int));
                        }
                        let total = view.len();
                        assert(n < total);
                        let prefix = vstd::slice::slice_subrange(view, 0, n + 1);
                        assert(prefix@ =~= view@.take(n + 1));
                        let lines = self.text_framer.push(prefix);
                        push_text(packets, &lines);
                        assert(diag_packets_model(packets@).skip(n0 as int) =~= diag_text_packets(lines@.map_values(|l: FramedLine| l@)));
                        assert(diag_packets_model(packets@).take(n0 as int) =~= diag_packets_model(old(packets)@));
                        (n + 1, false)
                    },
                    None => {
                        proof {
                            assert(view@.skip(0) =~= view@);
                            lemma_no_newline(view@);
                            assert(diag_packets_model(packets@).skip(n0 as int) =~= Seq::<DiagPacketModel>::empty());
                            assert(diag_packets_model(packets@).take(n0 as int) =~= diag_packets_model(old(packets)@));
                        }
                        if view.len() > self.max_buffer_bytes {
                            let drain = view.len() - self.max_buffer_bytes;
                            self.desync_drop_bytes = self.desync_drop_bytes + drain;
                            proof {
                                lemma_no_sof_skip(view@, drain as int);
                                let nb = view@.skip(drain as int);
                                assert forall|j: int| !is_first_sof(nb, j) by {}
                                assert forall|j: int| 0 <= j < nb.len() implies nb[j] != 10 by {
                                    assert(nb[j] == view@[j + drain]);
                                }
                                lemma_no_newline(nb);
                            }
                            (drain, true)
                        } else {
                            (0, true)
                        }
                    },
                }
            },
        }
    }

    /// Feeds a chunk of received bytes and returns the packets decoded so
    /// far, in order. The counters must have room for every byte held.
    pub fn push(&mut self, chunk: &[u8]) -> (out: Vec<Packet>)
        requires
            old(self)@.desync_drop_bytes + old(self)@.buffer.len() + chunk@.len() <= usize::MAX,
            old(self)@.invalid_crc_count + old(self)@.buffer.len() + chunk@.len() <= usize::MAX,
            old(self)@.malformed_frame_count + old(self)@.buffer.len() + chunk@.len() <= usize::MAX,
        ensures
            (final(self)@, diag_packets_model(out@)) == diag_run(
                DiagModel { buffer: old(self)@.buffer + chunk@, ..old(self)@ },
            ),
    {
        let mut buf: Vec<u8> = Vec::new();
        std::mem::swap(&mut buf, &mut self.buffer);
        let mut k: usize = 0;
        while k < chunk.len()
            invariant
                k <= chunk@.len(),
                buf@ =~= old(self)@.buffer + chunk@.take(k as int),
            decreases chunk.len() - k,
        {
            buf.push(chunk[k]);
            k = k + 1;
        }
        assert(chunk@.take(chunk@.len() as int) =~= chunk@);
        let ghost init = DiagModel { buffer: old(self)@.buffer + chunk@, ..old(self)@ };
        let mut packets: Vec<Packet> = Vec::new();
        let mut start: usize = 0;
        let mut done = false;
        assert(buf@.skip(0) =~= buf@);
        assert(self.with_buffer(buf@.skip(0)) == init);
        assert(diag_after(diag_packets_model(packets@), diag_run(init)) =~= diag_run(init));
        while !done
            invariant
                start <= buf@.len(),
                self.desync_drop_bytes + (buf@.len() - start) <= usize::MAX,
                self.invalid_crc_count + (buf@.len() - start) <= usize::MAX,
                self.malformed_frame_count + (buf@.len() - start) <= usize::MAX,
                diag_run(init) == diag_after(diag_packets_model(packets@), diag_run(self.with_buffer(buf@.skip(start as int)))),
                done ==> diag_run(self.with_buffer(buf@.skip(start as int))) == (self.with_buffer(
                    buf@.skip(start as int),
                ), Seq::<DiagPacketModel>::empty()),
            decreases buf@.len() - start + (if done {
                0int
            } else {
                1int
            }),
        {
            let view = vstd::slice::slice_subrange(buf.as_slice(), start, buf.len());
            assert(view@ =~= buf@.skip(start as int));
            let ghost before = packets@;
            let (consumed, stop) = self.scan_step(view, &mut packets);
            proof {
                assert(buf@.skip(start + consumed) =~= view@.skip(consumed as int));
                let emitted = diag_packets_model(packets@).skip(before.len() as int);
                assert(diag_packets_model(packets@) =~= diag_packets_model(before) + emitted);
                assert(diag_packets_model(before) + (emitted + diag_run(self.with_buffer(buf@.skip(start + consumed))).1)
                    =~= diag_packets_model(packets@) + diag_run(self.with_buffer(buf@.skip(start + consumed))).1);
            }
            start = start + consumed;
            done = stop;
        }
        self.buffer = vstd::slice::slice_to_vec(vstd::slice::slice_subrange(buf.as_slice(), start, buf.len()));
        assert(self.buffer@ =~= buf@.skip(start as int));
        assert(diag_packets_model(packets@) + Seq::<DiagPacketModel>::empty() =~= diag_packets_model(packets@));
        packets
    }
}

} // verus!
