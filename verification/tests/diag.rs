use eadai::bmi088::{default_schema, encode_schema_frame, Bmi088SampleFrame};
use eadai::bmi088::encoder::encode_sample_frame;
use eadai::bmi088_diag::protocol::{
    ascii_command_bytes, command_label, decode_frame, encode_event_frame, encode_host_command,
    DecodeError, DiagnosticDecoder, Frame, HostCommand, NewlineMode, Packet, SampleFrame,
};
use eadai::bmi088_diag::{
    build_verdict, hex_preview, newline_label, next_probe_command, observe_window_ms,
    parse_args, parse_newline_mode, sample_preview, schema_names_preview, should_log_raw, usage,
    CommandPath, DiagConfig, DiagStats, ProbeStage, RunState,
};
use eadai::error::AppError;

fn args(values: &[&str]) -> Vec<String> {
    values.iter().map(|v| v.to_string()).collect()
}

fn usage_message(result: Result<DiagConfig, AppError>) -> String {
    match result {
        Err(AppError::Usage(message)) => message,
        other => panic!("expected a usage error, got {other:?}"),
    }
}

#[test]
fn diag_arguments_have_defaults() {
    let config = parse_args(args(&["--port", "/dev/ttyACM0"])).unwrap();
    assert_eq!(config.port, "/dev/ttyACM0");
    assert_eq!(config.baud_rate, 115_200);
    assert_eq!(config.read_timeout_ms, 50);
    assert_eq!(config.schema_wait_ms, 700);
    assert_eq!(config.step_wait_ms, 700);
    assert_eq!(config.overall_timeout_ms, 4_500);
    assert_eq!(config.max_frame_bytes, 4_096);
    assert!(!config.listen_only);
    assert!(!config.skip_ascii);
    assert_eq!(config.ascii_newline, NewlineMode::Lf);
}

#[test]
fn diag_arguments_override_defaults() {
    let config = parse_args(args(&[
        "--baud", "+921600", "--port", "COM7", "--read-timeout-ms", "5", "--schema-wait-ms", "10",
        "--step-wait-ms", "30", "--overall-timeout-ms", "900", "--max-frame-bytes", "128",
        "--ascii-newline", "crlf", "--listen-only", "--skip-ascii",
    ]))
    .unwrap();
    assert_eq!(config.port, "COM7");
    assert_eq!(config.baud_rate, 921_600);
    assert_eq!(config.read_timeout_ms, 5);
    assert_eq!(config.schema_wait_ms, 10);
    assert_eq!(config.step_wait_ms, 30);
    assert_eq!(config.overall_timeout_ms, 900);
    assert_eq!(config.max_frame_bytes, 128);
    assert_eq!(config.ascii_newline, NewlineMode::Crlf);
    assert!(config.listen_only);
    assert!(config.skip_ascii);
}

#[test]
fn diag_argument_errors_name_the_problem() {
    let u = usage();
    assert!(u.starts_with("Usage:\n  cargo run --bin bmi088-handshake-diag -- --port <name>"));
    assert!(u.contains("\n  read-timeout-ms = 50\n"));
    assert!(u.contains("\n  overall-timeout-ms = 4500\n"));
    assert!(u.ends_with("\n  max-frame-bytes = 4096\n  ascii-newline = lf"));
    assert_eq!(usage_message(parse_args(args(&[]))), format!("Missing required flag: --port\n\n{u}"));
    assert_eq!(usage_message(parse_args(args(&["--help"]))), u);
    assert_eq!(usage_message(parse_args(args(&["-h", "--port", "x"]))), u);
    assert_eq!(
        usage_message(parse_args(args(&["--port", "x", "--verbose"]))),
        format!("Unknown flag: --verbose\n\n{u}")
    );
    assert_eq!(
        usage_message(parse_args(args(&["--port"]))),
        format!("Missing value for --port\n\n{u}")
    );
    assert_eq!(
        usage_message(parse_args(args(&["--port", "x", "--baud", "fast"]))),
        format!("Invalid numeric value for --baud: fast\n\n{u}")
    );
    assert_eq!(
        usage_message(parse_args(args(&["--port", "x", "--baud", "4294967296"]))),
        format!("Invalid numeric value for --baud: 4294967296\n\n{u}")
    );
    assert_eq!(
        usage_message(parse_args(args(&["--port", "x", "--step-wait-ms", "-1"]))),
        format!("Invalid numeric value for --step-wait-ms: -1\n\n{u}")
    );
    assert_eq!(
        usage_message(parse_args(args(&["--port", "x", "--ascii-newline", "cr"]))),
        format!("Invalid value for --ascii-newline: cr\n\n{u}")
    );
}

#[test]
fn newline_names_read_back() {
    for mode in [NewlineMode::NoNewline, NewlineMode::Lf, NewlineMode::Crlf] {
        assert_eq!(parse_newline_mode(newline_label(mode)).unwrap(), mode);
    }
    assert_eq!(newline_label(NewlineMode::NoNewline), "none");
}

#[test]
fn ascii_commands_and_labels() {
    assert_eq!(ascii_command_bytes(HostCommand::Ack, NewlineMode::Lf), b"ack\n".to_vec());
    assert_eq!(ascii_command_bytes(HostCommand::ReqSchema, NewlineMode::Crlf), b"req_schema\r\n".to_vec());
    assert_eq!(ascii_command_bytes(HostCommand::Start, NewlineMode::NoNewline), b"start".to_vec());
    assert_eq!(command_label(HostCommand::ReqIdentity), "REQ_IDENTITY");
    assert_eq!(
        encode_host_command(HostCommand::Start, 7),
        vec![0xA5, 0x5A, 0x01, 0x01, 0x11, 0x07, 0x00, 0xD1, 0x8A]
    );
}

#[test]
fn event_frames_cut_payloads_to_one_length_byte() {
    assert_eq!(encode_event_frame(0x10, 5, &[]), vec![0xA5, 0x5A, 0x01, 0x03, 0x10, 0x05, 0x00, 0xEB, 0x36]);
    let long = vec![0x42u8; 300];
    let frame = encode_event_frame(0x99, 1, &long);
    assert_eq!(frame[6], 255);
    assert_eq!(frame.len(), 7 + 255 + 2);
    match decode_frame(&frame).unwrap() {
        Frame::Unknown { frame_type, command, seq, payload_len } => {
            assert_eq!((frame_type, command, seq, payload_len), (0x03, 0x99, 1, 255));
        }
        other => panic!("unexpected frame {other:?}"),
    }
}

#[test]
fn diag_decode_classifies_frames() {
    let mut bad = encode_event_frame(0x10, 5, &[]);
    bad[8] ^= 1;
    assert_eq!(decode_frame(&bad).unwrap_err(), DecodeError::InvalidCrc);
    bad[0] = 0;
    assert_eq!(decode_frame(&bad).unwrap_err(), DecodeError::InvalidSof);
    match decode_frame(&encode_schema_frame(&default_schema())).unwrap() {
        Frame::Schema(schema) => assert_eq!(schema.fields.len(), 30),
        other => panic!("unexpected frame {other:?}"),
    }
    let sample = Bmi088SampleFrame::from_raw_values(&default_schema(), &[3; 30]).unwrap();
    match decode_frame(&encode_sample_frame(&sample)).unwrap() {
        Frame::Sample(SampleFrame { raw_values, .. }) => assert_eq!(raw_values, vec![3; 30]),
        other => panic!("unexpected frame {other:?}"),
    }
}

#[test]
fn diagnostic_decoder_counts_what_it_drops() {
    let mut decoder = DiagnosticDecoder::new(4096);
    let mut bad = encode_event_frame(0x10, 5, &[]);
    bad[8] ^= 1;
    let mut bytes = b"hello\n".to_vec();
    bytes.extend(&bad);
    bytes.extend(encode_schema_frame(&default_schema()));
    let packets = decoder.push(&bytes);
    assert!(matches!(&packets[0], Packet::Text(line) if line.payload.text == "hello"));
    assert!(matches!(packets.last(), Some(Packet::Frame(Frame::Schema(_)))));
    assert_eq!(decoder.invalid_crc_count(), 1);
    assert!(decoder.desync_drop_bytes() >= 6);
}

#[test]
fn verdicts_follow_the_counters() {
    let mut stats = DiagStats::default();
    assert_eq!(build_verdict(&stats).title, "no-data-seen");
    stats.raw_bytes_total = 10;
    assert_eq!(build_verdict(&stats).title, "raw-no-valid-frames");
    stats.text_count = 1;
    assert_eq!(build_verdict(&stats).title, "text-only-traffic");
    stats.schema_count = 1;
    assert_eq!(build_verdict(&stats).title, "schema-once-no-samples");
    stats.schema_count = 2;
    assert_eq!(build_verdict(&stats).title, "schema-repeating-no-samples");
    stats.sample_count = 1;
    let verdict = build_verdict(&stats);
    assert_eq!(verdict.title, "samples-flowing");
    assert_eq!(verdict.detail, "Samples are flowing. The link is alive and the device is already streaming.");
    stats.first_sample_path = Some(CommandPath::Ascii);
    assert!(build_verdict(&stats).detail.starts_with("ASCII ACK/START unlocked samples."));
    stats.first_sample_path = Some(CommandPath::Binary);
    assert!(build_verdict(&stats).detail.starts_with("Spec-correct binary ACK/START"));
}

#[test]
fn raw_logging_stops_after_a_few_chunks() {
    let mut stats = DiagStats::default();
    stats.raw_chunk_count = 8;
    assert!(should_log_raw(&stats));
    stats.raw_chunk_count = 20;
    assert!(should_log_raw(&stats));
    stats.raw_chunk_count = 21;
    assert!(!should_log_raw(&stats));
    stats.raw_chunk_count = 9;
    stats.sample_count = 1;
    assert!(!should_log_raw(&stats));
}

#[test]
fn run_state_counts_packets_and_credits_the_first_sample() {
    let mut state = RunState::new(4096);
    state.record_chunk(10);
    state.record_chunk(4);
    assert_eq!(state.stats.raw_chunk_count, 2);
    assert_eq!(state.stats.raw_bytes_total, 14);
    assert_eq!(state.stats.largest_chunk, 10);
    assert_eq!(state.take_tx_seq(), 0);
    assert_eq!(state.take_tx_seq(), 1);
    state.mark_sent(CommandPath::Binary);
    let schema_packets = state.decoder.push(&encode_schema_frame(&default_schema()));
    for packet in schema_packets {
        state.handle_packet(packet);
    }
    assert_eq!(state.stats.schema_count, 1);
    assert!(state.schema.is_some());
    let sample = Bmi088SampleFrame::from_raw_values(&default_schema(), &[1; 30]).unwrap();
    for packet in state.decoder.push(&encode_sample_frame(&sample)) {
        state.handle_packet(packet);
    }
    assert_eq!(state.stats.sample_count, 1);
    assert_eq!(state.stats.first_sample_path, Some(CommandPath::Binary));
    state.mark_sent(CommandPath::Ascii);
    for packet in state.decoder.push(&encode_sample_frame(&sample)) {
        state.handle_packet(packet);
    }
    assert_eq!(state.stats.first_sample_path, Some(CommandPath::Binary));
}

#[test]
fn tx_sequence_numbers_wrap() {
    let mut state = RunState::new(64);
    state.tx_seq = 255;
    assert_eq!(state.take_tx_seq(), 255);
    assert_eq!(state.tx_seq, 0);
}

#[test]
fn probe_sends_text_then_binary_commands_until_samples_flow() {
    let config = parse_args(args(&["--port", "x", "--step-wait-ms", "900"])).unwrap();
    let first = next_probe_command(ProbeStage::AsciiAck, &config, 0, false).unwrap();
    assert_eq!(first.stage, ProbeStage::AsciiAck);
    assert_eq!(first.path, CommandPath::Ascii);
    assert_eq!(first.command, HostCommand::Ack);
    assert_eq!(first.wait_ms, 300);
    let next = next_probe_command(ProbeStage::AsciiStart, &config, 0, false).unwrap();
    assert_eq!((next.stage, next.command, next.wait_ms), (ProbeStage::AsciiStart, HostCommand::Start, 900));
    let binary = next_probe_command(ProbeStage::BinaryReqSchema, &config, 0, false).unwrap();
    assert_eq!((binary.path, binary.command), (CommandPath::Binary, HostCommand::ReqSchema));
    let after_schema = next_probe_command(ProbeStage::BinaryReqSchema, &config, 0, true).unwrap();
    assert_eq!((after_schema.stage, after_schema.command, after_schema.wait_ms), (ProbeStage::BinaryAck, HostCommand::Ack, 300));
    assert!(next_probe_command(ProbeStage::BinaryAck, &config, 0, false).is_none());
    assert!(next_probe_command(ProbeStage::AsciiAck, &config, 3, true).is_none());

    let skipping = parse_args(args(&["--port", "x", "--skip-ascii"])).unwrap();
    let first = next_probe_command(ProbeStage::AsciiAck, &skipping, 0, false).unwrap();
    assert_eq!(first.stage, ProbeStage::BinaryReqSchema);
    let listening = parse_args(args(&["--port", "x", "--listen-only"])).unwrap();
    assert!(next_probe_command(ProbeStage::AsciiAck, &listening, 0, false).is_none());
}

#[test]
fn observation_windows_respect_the_overall_budget() {
    assert_eq!(observe_window_ms(4500, 0, 700), 700);
    assert_eq!(observe_window_ms(4500, 4000, 700), 500);
    assert_eq!(observe_window_ms(4500, 5000, 700), 0);
}

#[test]
fn previews_for_the_log() {
    assert_eq!(hex_preview(&[0xA5, 0x5A, 0x01]), "A5 5A 01");
    assert_eq!(hex_preview(&[0u8; 20]), "00 00 00 00 00 00 00 00 00 00 00 00");
    let schema = default_schema();
    assert_eq!(schema_names_preview(&schema), "acc_x,acc_y,acc_z");
    let sample = SampleFrame { seq: 1, raw_values: vec![-3, 40, 7, 9] };
    assert_eq!(sample_preview(Some(&schema), &sample), "acc_x=-3, acc_y=40, acc_z=7");
    assert_eq!(sample_preview(None, &sample), "-3, 40, 7");
    let short = SampleFrame { seq: 1, raw_values: vec![-32768] };
    assert_eq!(sample_preview(None, &short), "-32768");
}

#[test]
fn diagnostic_decoder_emits_each_valid_frame_and_counts_nothing() {
    let mut decoder = DiagnosticDecoder::new(4096);
    let mut bytes = encode_event_frame(0x10, 1, &[7, 8]);
    bytes.extend(encode_schema_frame(&default_schema()));
    bytes.extend(encode_event_frame(0x11, 2, &[]));
    let packets = decoder.push(&bytes);
    assert_eq!(packets.len(), 3);
    assert!(matches!(&packets[0], Packet::Frame(Frame::Unknown { command: 0x10, seq: 1, .. })));
    assert!(matches!(&packets[1], Packet::Frame(Frame::Schema(_))));
    assert!(matches!(&packets[2], Packet::Frame(Frame::Unknown { command: 0x11, seq: 2, .. })));
    assert_eq!(decoder.invalid_crc_count(), 0);
    assert_eq!(decoder.malformed_frame_count(), 0);
    assert_eq!(decoder.desync_drop_bytes(), 0);
}
