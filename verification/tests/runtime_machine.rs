use eadai::ai_adapter::{AiContext, AiMessage};
use eadai::analysis::TriggerSeverity;
use eadai::app::command::{bmi088_command, payload_command};
use eadai::app::runtime::{
    chunk_actions, command_action, connect_commands, CommandAction, retry_commands, run_start, run_step, run_step_overflows, ChunkAction, RunAction,
    RunEvent, RunPhase, RunState,
};
use eadai::app::{RuntimeCommand, RuntimeCommandHandle};
use eadai::error::{AppError, IoErrorKind};
use eadai::bmi088::{
    default_schema, encode_identity_frame, encode_schema_frame, Bmi088Frame, Bmi088HostCommand, Bmi088IdentityFrame,
    Bmi088SessionPhase, Bmi088SessionState, Bmi088StreamDecoder,
};
use eadai::cli::ParserKind;
use eadai::desktop::fake_session::{fake_send_command, FakeCommand};
use eadai::fields::FieldMap;
use eadai::keyed::TextMap;
use eadai::message::{ConnectionState, ParserMeta};

fn identity() -> Bmi088IdentityFrame {
    Bmi088IdentityFrame {
        seq: 1,
        identity_format_version: 1,
        device_name: "imu".to_string(),
        board_name: "b".to_string(),
        firmware_version: "1".to_string(),
        protocol_name: "bmi088".to_string(),
        protocol_version: "1.0".to_string(),
        transport_name: "uart".to_string(),
        sample_rate_hz: 100,
        schema_field_count: 30,
        sample_payload_len: 60,
        protocol_version_byte: 1,
        feature_flags: 0,
        baud_rate: 115_200,
        protocol_minor_version: 0,
    }
}

#[test]
fn queue_commands_carry_their_arguments() {
    assert!(matches!(payload_command(vec![1, 2]), RuntimeCommand::Send { payload } if payload == vec![1, 2]));
    assert!(matches!(
        bmi088_command(Bmi088HostCommand::Start, None),
        RuntimeCommand::SendBmi088 { command: Bmi088HostCommand::Start, payload: None }
    ));
    assert!(matches!(fake_send_command(vec![9]), FakeCommand::Send { payload } if payload == vec![9]));
}

#[test]
fn auto_chunks_without_frames_become_one_text_line() {
    let mut decoder = Bmi088StreamDecoder::new(4096);
    let mut session = Bmi088SessionState::new();
    let actions = chunk_actions(ParserKind::Auto, b"temp=21.5", &mut decoder, &mut session);
    assert_eq!(actions.len(), 1);
    match &actions[0] {
        ChunkAction::Line { line, parser } => {
            assert_eq!(line.payload.text, "temp=21.5");
            assert_eq!(*parser, ParserKind::Auto);
        }
        other => panic!("unexpected action {other:?}"),
    }
}

#[test]
fn auto_chunks_with_frames_announce_bmi088_once() {
    let mut decoder = Bmi088StreamDecoder::new(4096);
    let mut session = Bmi088SessionState::new();
    let mut bytes = encode_identity_frame(&identity());
    bytes.extend(b"boot\n");
    let actions = chunk_actions(ParserKind::Auto, &bytes, &mut decoder, &mut session);
    assert!(matches!(actions[0], ChunkAction::ProtocolDetected));
    assert!(matches!(actions[1], ChunkAction::Frame(Bmi088Frame::Identity(_))));
    assert!(matches!(&actions[2], ChunkAction::Line { parser: ParserKind::Auto, .. }));
    assert_eq!(actions.len(), 3);
    assert!(session.identity().is_some());
}

#[test]
fn a_schema_is_answered_before_it_is_published() {
    let mut decoder = Bmi088StreamDecoder::new(4096);
    let mut session = Bmi088SessionState::new();
    let actions = chunk_actions(ParserKind::Bmi088, &encode_schema_frame(&default_schema()), &mut decoder, &mut session);
    assert_eq!(actions.len(), 3);
    assert!(matches!(actions[0], ChunkAction::SendCommand(Bmi088HostCommand::Ack)));
    assert!(matches!(actions[1], ChunkAction::SendCommand(Bmi088HostCommand::Start)));
    assert!(matches!(actions[2], ChunkAction::Frame(Bmi088Frame::Schema(_))));
    assert_eq!(session.phase(), Bmi088SessionPhase::Streaming);
}

#[test]
fn other_parsers_read_the_chunk_as_a_line() {
    let mut decoder = Bmi088StreamDecoder::new(4096);
    let mut session = Bmi088SessionState::new();
    let actions = chunk_actions(ParserKind::KeyValue, &encode_schema_frame(&default_schema()), &mut decoder, &mut session);
    assert_eq!(actions.len(), 1);
    assert!(matches!(&actions[0], ChunkAction::Line { parser: ParserKind::KeyValue, .. }));
}

#[test]
fn the_handshake_runs_only_under_the_bmi088_parser() {
    let mut session = Bmi088SessionState::new();
    assert!(connect_commands(ParserKind::Auto, &mut session).is_empty());
    let boot = connect_commands(ParserKind::Bmi088, &mut session);
    assert_eq!(boot.len(), 1);
    assert!(matches!(boot[0], ChunkAction::SendCommand(Bmi088HostCommand::ReqSchema)));
    assert!(connect_commands(ParserKind::Bmi088, &mut session).is_empty());
    let retry = retry_commands(ParserKind::Bmi088, &mut session);
    assert!(matches!(retry[0], ChunkAction::SendCommand(Bmi088HostCommand::ReqSchema)));
    assert!(retry_commands(ParserKind::Auto, &mut session).is_empty());
}

fn publish(state: ConnectionState, attempt: u32, stop_requested: bool, retry_ms: Option<u64>) -> RunAction {
    RunAction::Publish { state, attempt, stop_requested, retry_ms }
}

#[test]
fn the_reader_loop_connects_retries_and_stops() {
    let st = run_start(500);
    let (st, acts) = run_step(st, RunEvent::Poll { stop: false });
    assert_eq!(
        acts,
        vec![
            publish(ConnectionState::Idle, 0, false, None),
            publish(ConnectionState::Connecting, 1, false, None),
            RunAction::OpenPort
        ]
    );
    let (st, acts) = run_step(st, RunEvent::OpenFailed);
    assert_eq!(acts, vec![publish(ConnectionState::WaitingRetry, 1, false, Some(500)), RunAction::Sleep(500)]);
    let (st, acts) = run_step(st, RunEvent::Slept { interrupted: false });
    assert!(acts.is_empty());
    let (st, acts) = run_step(st, RunEvent::Poll { stop: false });
    assert_eq!(acts, vec![publish(ConnectionState::Connecting, 2, false, None), RunAction::OpenPort]);
    let (st, acts) = run_step(st, RunEvent::Opened);
    assert_eq!(acts, vec![publish(ConnectionState::Connected, 2, false, None), RunAction::StartSession]);
    assert_eq!(st.attempts, 0);
    let (st, acts) = run_step(st, RunEvent::Poll { stop: false });
    assert_eq!(acts, vec![RunAction::ReadChunk]);
    let (st, acts) = run_step(st, RunEvent::Poll { stop: true });
    assert_eq!(acts, vec![publish(ConnectionState::Stopped, 2, true, None), RunAction::Finish]);
    assert_eq!(st.phase, RunPhase::Done);
}

#[test]
fn a_stop_before_connecting_reports_attempt_zero() {
    let (_, acts) = run_step(run_start(10), RunEvent::Poll { stop: true });
    assert_eq!(
        acts,
        vec![publish(ConnectionState::Idle, 0, false, None), publish(ConnectionState::Stopped, 0, true, None), RunAction::Finish]
    );
    let full = RunState { phase: RunPhase::Ready, attempts: u32::MAX, retry_delay_ms: 1 };
    assert!(run_step_overflows(full, RunEvent::Poll { stop: false }));
    assert!(!run_step_overflows(full, RunEvent::Poll { stop: true }));
}

#[test]
fn text_maps_keep_key_order() {
    let mut map: TextMap<u32> = TextMap::new();
    map.insert("b".to_string(), 2);
    map.insert("a".to_string(), 1);
    map.insert("b".to_string(), 3);
    assert_eq!(map.get("b"), Some(&3));
    assert_eq!(map.get("c"), None);
    let keys: Vec<&str> = map.entries().iter().map(|(k, _)| k.as_str()).collect();
    assert_eq!(keys, vec!["a", "b"]);
}

fn line(pairs: &[(&str, &str)]) -> ParserMeta {
    let mut fields = FieldMap::new();
    for (k, v) in pairs {
        fields.insert(k.to_string(), v.to_string());
    }
    ParserMeta::parsed("measurement", fields)
}

#[test]
fn the_context_summarises_channels_and_bounds_histories() {
    let mut context: AiContext<i32> = AiContext::new(2);
    for (at, value) in [(10, 1), (20, 2), (30, 3)] {
        context.ingest(
            AiMessage::Line { parser: line(&[("channel_id", "temp"), ("value", "x")]), numeric_value: Some(value) },
            at,
        );
    }
    let history: Vec<(u64, i32)> =
        context.samples("temp").unwrap().iter().map(|p| (p.timestamp_ms, p.value)).collect();
    assert_eq!(history, vec![(20, 2), (30, 3)]);
    let summary = context.summary("temp").unwrap();
    assert_eq!(summary.current_value.as_deref(), Some("x"));
    assert_eq!(summary.numeric_value, Some(3));
    assert_eq!(summary.updated_at_ms, 30);
    context.ingest(AiMessage::Line { parser: line(&[("value", "7")]), numeric_value: Some(7) }, 40);
    assert!(context.summary("value").is_none());
    context.ingest(
        AiMessage::Trigger { channel_id: "temp".to_string(), severity: TriggerSeverity::Info, reason: "low".to_string() },
        50,
    );
    context.ingest(AiMessage::Analysis { channel_id: "volt".to_string() }, 60);
    let summary = context.summary("temp").unwrap();
    assert_eq!(summary.trigger_count, 1);
    assert_eq!(summary.latest_trigger_reason.as_deref(), Some("low"));
    assert!(context.summary("volt").unwrap().has_analysis);
    let channels: Vec<&str> = context.summaries().iter().map(|(k, _)| k.as_str()).collect();
    assert_eq!(channels, vec!["temp", "volt"]);
}

#[test]
fn a_send_reaches_the_queue_or_reports_a_broken_pipe() {
    let (sender, receiver) = std::sync::mpsc::channel();
    let handle = RuntimeCommandHandle::new(sender);
    handle.send_payload(vec![1, 2]).unwrap();
    handle.send_bmi088_command(Bmi088HostCommand::Start, None).unwrap();
    assert!(matches!(receiver.recv().unwrap(), RuntimeCommand::Send { payload } if payload == vec![1, 2]));
    assert!(matches!(
        receiver.recv().unwrap(),
        RuntimeCommand::SendBmi088 { command: Bmi088HostCommand::Start, payload: None }
    ));
    drop(receiver);
    match handle.send_payload(vec![3]) {
        Err(AppError::Io { kind, message }) => {
            assert_eq!(kind, IoErrorKind::BrokenPipe);
            assert_eq!(message, "runtime command channel is closed");
        }
        other => panic!("unexpected {other:?}"),
    }
}

#[test]
fn a_failed_write_sends_the_loop_to_retry() {
    let st = run_start(250);
    let (st, _) = run_step(st, RunEvent::Poll { stop: false });
    let (st, _) = run_step(st, RunEvent::Opened);
    let (st, acts) = run_step(st, RunEvent::Poll { stop: false });
    assert_eq!(acts, vec![RunAction::ReadChunk]);
    let (st, acts) = run_step(st, RunEvent::LinkFailed);
    assert_eq!(acts, vec![publish(ConnectionState::WaitingRetry, 1, false, Some(250)), RunAction::Sleep(250)]);
    assert_eq!(st.phase, RunPhase::Waiting(1));
    let (st, acts) = run_step(st, RunEvent::LinkFailed);
    assert!(acts.is_empty());
    assert_eq!(st.phase, RunPhase::Waiting(1));
}

#[test]
fn queued_commands_become_writes_or_host_commands() {
    let text = RuntimeCommand::Send { payload: b" Req_Schema\r\n".to_vec() };
    assert!(matches!(
        command_action(ParserKind::Bmi088, text),
        CommandAction::SendHost { command: Bmi088HostCommand::ReqSchema, payload: None }
    ));
    let text = RuntimeCommand::Send { payload: b"req_schema".to_vec() };
    assert!(matches!(command_action(ParserKind::Auto, text), CommandAction::WriteRaw(bytes) if bytes == b"req_schema"));
    let other = RuntimeCommand::Send { payload: b"reboot".to_vec() };
    assert!(matches!(command_action(ParserKind::Bmi088, other), CommandAction::WriteRaw(bytes) if bytes == b"reboot"));
    let host = RuntimeCommand::SendBmi088 { command: Bmi088HostCommand::Start, payload: Some(vec![1]) };
    assert!(matches!(
        command_action(ParserKind::Auto, host),
        CommandAction::SendHost { command: Bmi088HostCommand::Start, payload: Some(bytes) } if bytes == vec![1]
    ));
}

#[test]
fn the_context_summarises_exactly_the_channels_seen_in_order() {
    let mut context: AiContext<i32> = AiContext::new(4);
    context.ingest(AiMessage::Line { parser: line(&[("channel_id", "zeta")]), numeric_value: None }, 1);
    context.ingest(AiMessage::Analysis { channel_id: "alpha".to_string() }, 2);
    context.ingest(AiMessage::Line { parser: line(&[("value", "3")]), numeric_value: Some(3) }, 3);
    context.ingest(
        AiMessage::Trigger { channel_id: "mid".to_string(), severity: TriggerSeverity::Info, reason: "r".to_string() },
        4,
    );
    context.ingest(AiMessage::Analysis { channel_id: "zeta".to_string() }, 5);
    let ids: Vec<&str> = context.summaries().iter().map(|(id, _)| id.as_str()).collect();
    assert_eq!(ids, vec!["alpha", "mid", "zeta"]);
}
