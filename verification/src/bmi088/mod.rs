//! The BMI088 binary telemetry protocol: frame layout and CRC, identity,
//! schema and sample payloads, the host handshake, and a stream decoder for
//! links that mix text lines with binary frames.

pub mod constants;
pub mod decoder;
pub mod encoder;
pub mod frame;
pub mod host;
pub mod identity;
pub mod models;
pub mod sample;
pub mod schema;
pub mod session;
pub mod stream;
pub mod tables;

pub use constants::{
    BMI088_CMD_ACK, BMI088_CMD_IDENTITY, BMI088_CMD_REQ_IDENTITY, BMI088_CMD_REQ_SCHEMA,
    BMI088_CMD_REQ_TUNING, BMI088_CMD_SAMPLE, BMI088_CMD_SCHEMA, BMI088_CMD_SET_TUNING,
    BMI088_CMD_SHELL_EXEC, BMI088_CMD_SHELL_OUTPUT, BMI088_CMD_START, BMI088_CMD_STOP,
    BMI088_CRC_LEN, BMI088_FIELD_TYPE_I16, BMI088_FRAME_TYPE_EVENT, BMI088_FRAME_TYPE_REQUEST,
    BMI088_FRAME_TYPE_RESPONSE, BMI088_HEADER_LEN, BMI088_MIN_FRAME_LEN, BMI088_SAMPLE_SCALE_Q,
    BMI088_SCHEMA_VERSION, BMI088_SOF, BMI088_VERSION,
};
pub use decoder::{decode_binary_frame, decode_binary_frame_with_schema};
pub use encoder::{
    encode_identity_frame, encode_identity_frame_with_seq, encode_sample_frame,
    encode_sample_frame_with_seq, encode_schema_frame, encode_schema_frame_with_seq,
    encode_shell_output_frame,
};
pub use frame::{crc16_ccitt, decode_frame_envelope, find_sof, frame_len, frame_len_from_payload_len};
pub use host::{
    encode_host_command, encode_host_command_with_payload, encode_host_command_with_seq,
    encode_host_command_with_seq_and_payload, host_command_from_text, host_command_label,
};
pub use identity::{decode_identity_payload, decode_identity_payload_with_seq};
pub use models::{
    Bmi088DecodeError, Bmi088FieldDescriptor, Bmi088Frame, Bmi088HostCommand, Bmi088IdentityFrame,
    Bmi088SampleField, Bmi088SampleFrame, Bmi088SchemaFrame, Bmi088SessionPhase,
};
pub use sample::{
    decode_sample_payload, decode_sample_payload_with_schema, decode_sample_payload_with_schema_and_seq,
    decode_sample_raw_values,
};
pub use schema::{decode_schema_payload, decode_schema_payload_with_seq};
pub use session::Bmi088SessionState;
pub use stream::{Bmi088StreamDecoder, TelemetryPacket};
pub use tables::default_schema;
