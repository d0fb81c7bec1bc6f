use eadai::bmi088::{
    crc16_ccitt,
    decode_binary_frame, decode_binary_frame_with_schema, decode_frame_envelope,
    decode_identity_payload, decode_sample_raw_values, decode_schema_payload, default_schema,
    encode_host_command, encode_host_command_with_payload, encode_host_command_with_seq,
    encode_identity_frame, encode_sample_frame, encode_schema_frame, encode_shell_output_frame,
    find_sof, frame_len, frame_len_from_payload_len, host_command_from_text, host_command_label,
    Bmi088DecodeError, Bmi088FieldDescriptor, Bmi088Frame, Bmi088HostCommand, Bmi088IdentityFrame,
    Bmi088SampleFrame, Bmi088SchemaFrame,
};
use eadai::bmi088::decoder::{decode_error_label, text_preview};
use eadai::bmi088::frame::encode_frame;
use eadai::bmi088::tables::{compact_field_code, compact_field_name, compact_unit_code, compact_unit_name};
use eadai::message::LinePayload;

fn identity() -> Bmi088IdentityFrame {
    Bmi088IdentityFrame {
        seq: 3,
        identity_format_version: 1,
        device_name: "imu-board".to_string(),
        board_name: "rev-b".to_string(),
        firmware_version: "1.4.2".to_string(),
        protocol_name: "bmi088".to_string(),
        protocol_version: "1.0".to_string(),
        transport_name: "uart".to_string(),
        sample_rate_hz: 100,
        schema_field_count: 30,
        sample_payload_len: 60,
        protocol_version_byte: 1,
        feature_flags: 0x0102,
        baud_rate: 115_200,
        protocol_minor_version: 2,
    }
}

fn small_schema() -> Bmi088SchemaFrame {
    Bmi088SchemaFrame {
        seq: 4,
        schema_version: 1,
        rate_hz: 50,
        sample_len: 4,
        fields: vec![
            Bmi088FieldDescriptor {
                field_id: 0,
                field_type: 1,
                name: "acc_x".to_string(),
                unit: "raw".to_string(),
                scale_q: 0,
            },
            Bmi088FieldDescriptor {
                field_id: 1,
                field_type: 1,
                name: "roll".to_string(),
                unit: "deg".to_string(),
                scale_q: -2,
            },
        ],
    }
}

#[test]
fn crc16_ccitt_false_check_value() {
    assert_eq!(crc16_ccitt(b"123456789"), 0x29B1);
    assert_eq!(crc16_ccitt(&[]), 0xFFFF);
}

#[test]
fn host_commands_encode_as_request_frames() {
    assert_eq!(
        encode_host_command(Bmi088HostCommand::Ack),
        vec![0xA5, 0x5A, 0x01, 0x01, 0x10, 0x00, 0x00, 0x76, 0x24]
    );
    assert_eq!(
        encode_host_command_with_seq(Bmi088HostCommand::Start, 7),
        vec![0xA5, 0x5A, 0x01, 0x01, 0x11, 0x07, 0x00, 0xD1, 0x8A]
    );
    assert_eq!(
        encode_host_command_with_payload(Bmi088HostCommand::ShellExec, b"ls"),
        vec![0xA5, 0x5A, 0x01, 0x01, 0x28, 0x00, 0x02, b'l', b's', 0x63, 0xB4]
    );
}

#[test]
fn host_command_text_round_trips_through_labels() {
    for command in [
        Bmi088HostCommand::Ack,
        Bmi088HostCommand::Start,
        Bmi088HostCommand::Stop,
        Bmi088HostCommand::ReqSchema,
        Bmi088HostCommand::ReqIdentity,
        Bmi088HostCommand::ReqTuning,
        Bmi088HostCommand::SetTuning,
        Bmi088HostCommand::ShellExec,
    ] {
        assert_eq!(host_command_from_text(host_command_label(&command)), Some(command));
    }
    assert_eq!(host_command_from_text("  Req_Schema \n"), Some(Bmi088HostCommand::ReqSchema));
    assert_eq!(host_command_from_text("reboot"), None);
    assert_eq!(host_command_label(&Bmi088HostCommand::ReqSchema), "REQ_SCHEMA");
}

#[test]
fn frame_envelope_is_checked_in_order() {
    let frame = encode_frame(0x03, 0x81, 9, &[1, 2, 3]);
    let (frame_type, command, seq, payload) = decode_frame_envelope(&frame).unwrap();
    assert_eq!((frame_type, command, seq, payload), (0x03, 0x81, 9, &[1u8, 2, 3][..]));

    assert!(matches!(
        decode_frame_envelope(&frame[..5]),
        Err(Bmi088DecodeError::MalformedFrame(ref m)) if m == "frame too short"
    ));
    let mut bad_sof = frame.clone();
    bad_sof[0] = 0x00;
    assert!(matches!(decode_frame_envelope(&bad_sof), Err(Bmi088DecodeError::InvalidSof)));
    let mut bad_version = frame.clone();
    bad_version[2] = 0x02;
    assert!(matches!(decode_frame_envelope(&bad_version), Err(Bmi088DecodeError::InvalidVersion)));
    let mut longer = frame.clone();
    longer.push(0);
    assert!(matches!(
        decode_frame_envelope(&longer),
        Err(Bmi088DecodeError::MalformedFrame(ref m)) if m == "length mismatch"
    ));
    let mut bad_crc = frame.clone();
    let last = bad_crc.len() - 1;
    bad_crc[last] ^= 0xFF;
    assert!(matches!(decode_frame_envelope(&bad_crc), Err(Bmi088DecodeError::InvalidCrc)));
}

#[test]
fn frame_lengths_and_start_markers() {
    assert_eq!(frame_len_from_payload_len(0), 9);
    assert_eq!(frame_len_from_payload_len(255), 264);
    assert_eq!(frame_len(&encode_host_command(Bmi088HostCommand::Stop)).unwrap(), 9);
    assert!(frame_len(&[0xA5, 0x5A]).is_err());
    assert_eq!(find_sof(&[0x00, 0xA5, 0xA5, 0x5A, 0x01]), Some(2));
    assert_eq!(find_sof(&[0xA5]), None);
    assert_eq!(find_sof(&[0x5A, 0xA5]), None);
}

#[test]
fn default_schema_lists_thirty_i16_fields() {
    let schema = default_schema();
    assert_eq!(schema.fields.len(), 30);
    assert_eq!(schema.sample_len, 60);
    assert_eq!(schema.rate_hz, 100);
    assert_eq!(schema.fields[0].name, "acc_x");
    assert_eq!(schema.fields[6].unit, "deg");
    assert_eq!(schema.fields[6].scale_q, -2);
    assert_eq!(schema.fields[29].name, "bench_test_throttle");
    assert!(schema.fields.iter().enumerate().all(|(i, f)| f.field_id as usize == i));
}

#[test]
fn compact_codes_name_the_known_fields_and_units() {
    let code = compact_field_code("acc_x").unwrap();
    assert_eq!(compact_field_name(code).as_deref(), Some("acc_x"));
    assert_eq!(compact_field_code("not_a_field"), None);
    let unit = compact_unit_code("deg").unwrap();
    assert_eq!(compact_unit_name(unit).as_deref(), Some("deg"));
    assert_eq!(compact_unit_code("furlong"), None);
}

#[test]
fn schema_frames_round_trip() {
    for schema in [small_schema(), default_schema()] {
        let frame = encode_schema_frame(&schema);
        match decode_binary_frame(&frame).unwrap() {
            Bmi088Frame::Schema(decoded) => {
                assert_eq!(decoded.seq, schema.seq);
                assert_eq!(decoded.rate_hz, schema.rate_hz);
                assert_eq!(decoded.sample_len, schema.sample_len);
                assert_eq!(decoded.fields.len(), schema.fields.len());
                for (a, b) in decoded.fields.iter().zip(schema.fields.iter()) {
                    assert_eq!(a.name, b.name);
                    assert_eq!(a.unit, b.unit);
                    assert_eq!(a.scale_q, b.scale_q);
                    assert_eq!(a.field_id, b.field_id);
                }
            }
            other => panic!("unexpected frame {other:?}"),
        }
    }
    let payload = small_schema().encode_payload();
    let decoded = decode_schema_payload(&payload).unwrap();
    assert_eq!(decoded.fields.len(), 2);
}

#[test]
fn identity_frames_round_trip() {
    let identity_frame = identity();
    let frame = encode_identity_frame(&identity_frame);
    match decode_binary_frame(&frame).unwrap() {
        Bmi088Frame::Identity(decoded) => {
            assert_eq!(decoded.seq, 3);
            assert_eq!(decoded.device_name, "imu-board");
            assert_eq!(decoded.board_name, "rev-b");
            assert_eq!(decoded.firmware_version, "1.4.2");
            assert_eq!(decoded.protocol_name, "bmi088");
            assert_eq!(decoded.protocol_version, "1.0");
            assert_eq!(decoded.transport_name, "uart");
            assert_eq!(decoded.sample_rate_hz, 100);
            assert_eq!(decoded.schema_field_count, 30);
            assert_eq!(decoded.sample_payload_len, 60);
            assert_eq!(decoded.feature_flags, 0x0102);
            assert_eq!(decoded.baud_rate, 115_200);
            assert_eq!(decoded.protocol_minor_version, 2);
        }
        other => panic!("unexpected frame {other:?}"),
    }
    let payload = identity_frame.encode_payload();
    assert_eq!(decode_identity_payload(&payload).unwrap().device_name, "imu-board");
}

#[test]
fn sample_frames_round_trip_against_their_schema() {
    let schema = small_schema();
    let sample = Bmi088SampleFrame::from_raw_values(&schema, &[-5, 1234]).unwrap();
    let frame = encode_sample_frame(&sample);
    match decode_binary_frame_with_schema(&frame, Some(&schema)).unwrap() {
        Bmi088Frame::Sample(decoded) => {
            assert_eq!(decoded.fields.len(), 2);
            assert_eq!(decoded.fields[0].name, "acc_x");
            assert_eq!(decoded.fields[0].raw, -5);
            assert_eq!(decoded.fields[1].name, "roll");
            assert_eq!(decoded.fields[1].raw, 1234);
            assert_eq!(decoded.fields[1].scale_q, -2);
        }
        other => panic!("unexpected frame {other:?}"),
    }
    assert_eq!(decode_sample_raw_values(&[0xFB, 0xFF, 0xD2, 0x04]).unwrap(), vec![-5, 1234]);
    assert!(decode_sample_raw_values(&[0x01]).is_err());
    assert!(Bmi088SampleFrame::from_raw_values(&schema, &[1]).is_err());
}

#[test]
fn shell_output_frames_carry_text() {
    let payload = LinePayload { text: "ok".to_string(), raw: b"ok".to_vec() };
    let frame = encode_shell_output_frame(&payload, 0);
    match decode_binary_frame(&frame).unwrap() {
        Bmi088Frame::ShellOutput(line) => {
            assert_eq!(line.text, "ok");
            assert_eq!(line.raw, b"ok".to_vec());
        }
        other => panic!("unexpected frame {other:?}"),
    }
}

#[test]
fn decode_errors_have_log_labels_and_messages() {
    assert_eq!(decode_error_label(&Bmi088DecodeError::InvalidCrc), "InvalidCrc");
    assert_eq!(
        decode_error_label(&Bmi088DecodeError::MalformedFrame("x".to_string())),
        "MalformedFrame(x)"
    );
    assert_eq!(
        decode_error_label(&Bmi088DecodeError::SchemaMismatch("y".to_string())),
        "SchemaMismatch(y)"
    );
    assert_eq!(Bmi088DecodeError::InvalidSof.message(), "invalid BMI088 SOF");
    assert_eq!(text_preview("abcdef", 3), "abc...");
    assert_eq!(text_preview("abc", 3), "abc");
}

#[test]
fn identity_skips_records_of_unknown_tags() {
    let id = identity();
    let mut payload = vec![0x20, 3, 9, 9, 9];
    payload.extend(id.encode_payload());
    payload.extend([0x0E, 2, 0xAA, 0xBB]);
    let decoded = decode_identity_payload(&payload).unwrap();
    assert_eq!(decoded.seq, 0);
    assert_eq!(decoded.device_name, id.device_name);
    assert_eq!(decoded.transport_name, id.transport_name);
    assert_eq!(decoded.sample_rate_hz, id.sample_rate_hz);
    assert_eq!(decoded.feature_flags, id.feature_flags);
    assert_eq!(decoded.baud_rate, id.baud_rate);
    assert_eq!(decoded.protocol_minor_version, id.protocol_minor_version);
}

#[test]
fn identity_takes_the_last_of_a_repeated_record() {
    let id = identity();
    let mut payload = id.encode_payload();
    payload.extend([0x01, 5, b'o', b't', b'h', b'e', b'r']);
    payload.extend([0x07, 2, 0xC8, 0x00]);
    let decoded = decode_identity_payload(&payload).unwrap();
    assert_eq!(decoded.device_name, "other");
    assert_eq!(decoded.sample_rate_hz, 200);
    assert_eq!(decoded.board_name, id.board_name);
}

#[test]
fn any_single_corrupted_byte_is_caught_by_the_crc() {
    let frames = vec![
        encode_identity_frame(&identity()),
        encode_schema_frame(&small_schema()),
        encode_shell_output_frame(&LinePayload { text: "ok".to_string(), raw: b"ok".to_vec() }, 5),
    ];
    for frame in frames {
        for i in 3..frame.len() {
            if i == 6 {
                continue;
            }
            for flip in [0x01u8, 0x80, 0xFF] {
                let mut corrupted = frame.clone();
                corrupted[i] ^= flip;
                assert!(
                    matches!(decode_binary_frame(&corrupted), Err(Bmi088DecodeError::InvalidCrc)),
                    "byte {i} flipped by {flip:#x}"
                );
            }
        }
    }
}
