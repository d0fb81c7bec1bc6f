use eadai::bmi088::{
    default_schema, encode_schema_frame, encode_shell_output_frame, Bmi088Frame,
    Bmi088HostCommand, Bmi088SampleFrame, Bmi088SessionPhase, Bmi088SessionState,
    Bmi088StreamDecoder, TelemetryPacket,
};
use eadai::bmi088::encoder::encode_sample_frame;
use eadai::message::LinePayload;
use eadai::serial::{FrameStatus, LineFramer};

#[test]
fn session_boot_requests_schema_once() {
    let mut session = Bmi088SessionState::new();
    assert_eq!(session.phase(), Bmi088SessionPhase::AwaitingSchema);
    assert_eq!(session.boot_commands(), vec![Bmi088HostCommand::ReqSchema]);
    assert!(session.boot_commands().is_empty());
    assert_eq!(session.schema_retry_commands(), vec![Bmi088HostCommand::ReqSchema]);
}

#[test]
fn schema_leads_to_ack_then_start() {
    let mut session = Bmi088SessionState::new();
    let commands = session.on_frame(&Bmi088Frame::Schema(default_schema()));
    assert_eq!(commands, vec![Bmi088HostCommand::Ack, Bmi088HostCommand::Start]);
    assert_eq!(session.phase(), Bmi088SessionPhase::AwaitingAck);
    assert!(session.schema_retry_commands().is_empty());
    assert!(session.schema().is_some());
    session.on_host_command(Bmi088HostCommand::Ack);
    assert_eq!(session.phase(), Bmi088SessionPhase::AwaitingStart);
    session.on_host_command(Bmi088HostCommand::Start);
    assert_eq!(session.phase(), Bmi088SessionPhase::Streaming);
    assert!(session.on_frame(&Bmi088Frame::Schema(default_schema())).is_empty());
    assert_eq!(session.phase(), Bmi088SessionPhase::Streaming);
    session.on_host_command(Bmi088HostCommand::Stop);
    assert_eq!(session.phase(), Bmi088SessionPhase::Stopped);
    session.on_host_command(Bmi088HostCommand::ReqIdentity);
    assert_eq!(session.phase(), Bmi088SessionPhase::Stopped);
    session.on_host_command(Bmi088HostCommand::ReqSchema);
    assert_eq!(session.phase(), Bmi088SessionPhase::AwaitingSchema);
}

#[test]
fn a_sample_means_streaming() {
    let mut session = Bmi088SessionState::new();
    let schema = default_schema();
    let sample = Bmi088SampleFrame::from_raw_values(&schema, &[0; 30]).unwrap();
    assert!(session.on_frame(&Bmi088Frame::Sample(sample)).is_empty());
    assert_eq!(session.phase(), Bmi088SessionPhase::Streaming);
}

#[test]
fn line_framer_splits_lines_and_keeps_the_rest() {
    let mut framer = LineFramer::new();
    let lines = framer.push(b"a=1\r\nb=2\nc=");
    assert_eq!(lines.len(), 2);
    assert_eq!(lines[0].payload.text, "a=1");
    assert_eq!(lines[0].payload.raw, b"a=1".to_vec());
    assert_eq!(lines[0].status, FrameStatus::Complete);
    assert_eq!(lines[1].payload.text, "b=2");
    let rest = framer.push(b"3\n");
    assert_eq!(rest.len(), 1);
    assert_eq!(rest[0].payload.text, "c=3");
}

#[test]
fn stream_decoder_separates_text_from_frames() {
    let mut decoder = Bmi088StreamDecoder::new(4096);
    let mut bytes = b"boot ok\n".to_vec();
    bytes.extend(encode_schema_frame(&default_schema()));
    let packets = decoder.push(&bytes);
    assert_eq!(packets.len(), 2);
    match &packets[0] {
        TelemetryPacket::Text(line) => assert_eq!(line.payload.text, "boot ok"),
        other => panic!("unexpected packet {other:?}"),
    }
    match &packets[1] {
        TelemetryPacket::Schema(schema) => assert_eq!(schema.fields.len(), 30),
        other => panic!("unexpected packet {other:?}"),
    }
    assert!(decoder.schema().is_some());

    let sample = Bmi088SampleFrame::from_raw_values(&default_schema(), &[7; 30]).unwrap();
    let frame = encode_sample_frame(&sample);
    let (first, second) = frame.split_at(5);
    assert!(decoder.push(first).is_empty());
    let packets = decoder.push(second);
    assert_eq!(packets.len(), 1);
    match &packets[0] {
        TelemetryPacket::Sample(sample) => {
            assert_eq!(sample.fields.len(), 30);
            assert_eq!(sample.fields[0].raw, 7);
        }
        other => panic!("unexpected packet {other:?}"),
    }
}

#[test]
fn stream_decoder_reports_shell_output() {
    let mut decoder = Bmi088StreamDecoder::new(4096);
    let payload = LinePayload { text: "done".to_string(), raw: b"done".to_vec() };
    let packets = decoder.push(&encode_shell_output_frame(&payload, 0));
    assert_eq!(packets.len(), 1);
    match &packets[0] {
        TelemetryPacket::ShellOutput(line) => assert_eq!(line.text, "done"),
        other => panic!("unexpected packet {other:?}"),
    }
}

#[test]
fn a_frame_split_anywhere_decodes_once() {
    let frame = encode_schema_frame(&default_schema());
    for split in 1..frame.len() {
        let mut decoder = Bmi088StreamDecoder::new(4096);
        let (first, second) = frame.split_at(split);
        assert!(decoder.push(first).is_empty(), "split at {split}");
        let packets = decoder.push(second);
        assert_eq!(packets.len(), 1, "split at {split}");
        assert!(matches!(packets[0], TelemetryPacket::Schema(_)), "split at {split}");
    }
}

fn packet_labels(packets: &[TelemetryPacket]) -> Vec<String> {
    packets
        .iter()
        .map(|packet| match packet {
            TelemetryPacket::Schema(schema) => format!("schema {}", schema.fields.len()),
            TelemetryPacket::ShellOutput(line) => format!("shell {}", line.text),
            other => format!("{other:?}"),
        })
        .collect()
}

#[test]
fn a_run_of_frames_split_anywhere_gives_the_same_packets() {
    let first = LinePayload { text: "one".to_string(), raw: b"one".to_vec() };
    let second = LinePayload { text: "two".to_string(), raw: b"two".to_vec() };
    let mut bytes = encode_shell_output_frame(&first, 1);
    bytes.extend(encode_schema_frame(&default_schema()));
    bytes.extend(encode_shell_output_frame(&second, 2));
    let whole = packet_labels(&Bmi088StreamDecoder::new(4096).push(&bytes));
    assert_eq!(whole, vec!["shell one".to_string(), "schema 30".to_string(), "shell two".to_string()]);
    for split in 0..=bytes.len() {
        let mut decoder = Bmi088StreamDecoder::new(4096);
        let (head, tail) = bytes.split_at(split);
        let mut packets = decoder.push(head);
        packets.extend(decoder.push(tail));
        assert_eq!(packet_labels(&packets), whole, "split at {split}");
    }
}
