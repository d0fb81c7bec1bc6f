use eadai::bmi088::decode_schema_payload;
use eadai::bmi088_diag::{stage_after, ProbeStage};
use eadai::desktop::fake_session::line_payload_from_bytes;
use eadai::desktop::logic_analyzer::{
    apply_capture_finished, apply_capture_started, apply_capture_stopped, apply_scan_failure,
    apply_scan_output, begin_scan, capture_file_name, mark_capture_unavailable,
    mark_sigrok_missing, reject_capture, resolve_sigrok_cli, stop_without_capture,
};
use eadai::desktop::model::{LogicAnalyzerCaptureResult, LogicAnalyzerSessionState, LogicAnalyzerStatus};
use eadai::serial::payload_bytes_for_text;

#[test]
fn legacy_schemas_with_short_descriptors() {
    let payload = [0x00, 2, 3, b'a', b'x', b'r', b'a', b'w'];
    let schema = decode_schema_payload(&payload).unwrap();
    assert_eq!(schema.fields.len(), 1);
    assert_eq!(schema.fields[0].name, "ax");
    assert_eq!(schema.fields[0].unit, "raw");
    assert_eq!(schema.fields[0].field_id, 0);
    assert_eq!(schema.sample_len, 2);
    assert_eq!(schema.rate_hz, 100);
}

#[test]
fn legacy_schemas_with_mixed_descriptors() {
    let payload = [0xFE, 1, 0, b'r', 5, 1, 0, 1, 0, b'y'];
    let schema = decode_schema_payload(&payload).unwrap();
    assert_eq!(schema.fields.len(), 2);
    assert_eq!(schema.fields[0].name, "r");
    assert_eq!(schema.fields[0].scale_q, -2);
    assert_eq!(schema.fields[1].name, "y");
    assert_eq!(schema.fields[1].field_id, 5);
    assert_eq!(schema.sample_len, 4);
    assert!(decode_schema_payload(&[0x05, 9]).is_err());
}

#[test]
fn probe_stages_follow_each_other() {
    assert_eq!(stage_after(ProbeStage::AsciiAck), Some(ProbeStage::AsciiStart));
    assert_eq!(stage_after(ProbeStage::BinaryAck), Some(ProbeStage::BinaryStart));
    assert_eq!(stage_after(ProbeStage::BinaryStart), None);
}

#[test]
fn text_payloads_end_with_a_newline_when_asked() {
    assert_eq!(payload_bytes_for_text("ping", true), b"ping\n".to_vec());
    assert_eq!(payload_bytes_for_text("é", false), vec![0xC3, 0xA9]);
    let line = line_payload_from_bytes(b"ok\r\n");
    assert_eq!(line.text, "ok");
}

#[test]
fn sigrok_executable_and_capture_file() {
    assert_eq!(resolve_sigrok_cli(None).as_deref(), Some("sigrok-cli"));
    assert_eq!(resolve_sigrok_cli(Some("  ".to_string())).as_deref(), Some("sigrok-cli"));
    assert_eq!(resolve_sigrok_cli(Some("/opt/sigrok".to_string())).as_deref(), Some("/opt/sigrok"));
    assert_eq!(capture_file_name(1700000000123), "eadai-sigrok-1700000000123.csv");
}

#[test]
fn scanning_updates_the_status() {
    let mut status = LogicAnalyzerStatus::default();
    status.selected_device_ref = Some("two".to_string());
    begin_scan(&mut status);
    assert_eq!(status.session_state, LogicAnalyzerSessionState::Scanning);
    apply_scan_output(&mut status, "sigrok-cli".to_string(), "a [one]\nb [two]\n".to_string(), true, 42);
    assert!(status.available);
    assert_eq!(status.devices.len(), 2);
    assert_eq!(status.selected_device_ref.as_deref(), Some("two"));
    assert_eq!(status.last_scan_at_ms, Some(42));
    assert_eq!(status.last_error, None);
    assert_eq!(status.session_state, LogicAnalyzerSessionState::Ready);
    apply_scan_output(&mut status, "sigrok-cli".to_string(), "x [three]\n".to_string(), false, 43);
    assert_eq!(status.selected_device_ref.as_deref(), Some("three"));
    assert_eq!(status.last_error.as_deref(), Some("x [three]\n"));
    apply_scan_failure(&mut status, "sigrok-cli".to_string(), "No such file");
    assert!(!status.available);
    assert!(status.devices.is_empty());
    assert_eq!(status.session_state, LogicAnalyzerSessionState::Error);
    assert_eq!(status.last_error.as_deref(), Some("failed to execute sigrok-cli: No such file"));
    mark_sigrok_missing(&mut status);
    assert_eq!(status.session_state, LogicAnalyzerSessionState::Unavailable);
    assert_eq!(status.executable, None);
    assert_eq!(
        status.last_error.as_deref(),
        Some("sigrok-cli not found on PATH or via EADAI_SIGROK_CLI")
    );
}

#[test]
fn capture_lifecycle() {
    let mut status = LogicAnalyzerStatus::default();
    mark_capture_unavailable(&mut status);
    assert_eq!(status.last_error.as_deref(), Some("sigrok-cli not available"));
    reject_capture(&mut status, "device_ref is required".to_string());
    assert_eq!(status.session_state, LogicAnalyzerSessionState::Error);
    apply_capture_started(&mut status, "demo".to_string(), 77, 1000, "sigrok-cli -d demo".to_string(), "/tmp/x.csv".to_string());
    assert_eq!(status.session_state, LogicAnalyzerSessionState::Capturing);
    assert_eq!(status.active_capture.as_ref().map(|c| c.pid), Some(77));
    assert_eq!(status.capture_plan.as_deref(), Some("sigrok-cli -d demo"));
    assert_eq!(status.selected_device_ref.as_deref(), Some("demo"));
    let result = LogicAnalyzerCaptureResult {
        output_path: "/tmp/x.csv".to_string(),
        sample_rate_hz: None,
        sample_count: 3,
        channels: Vec::new(),
        captured_at_ms: 1200,
    };
    apply_capture_stopped(&mut status, "sigrok-cli -d demo".to_string(), Ok(result.clone()));
    assert_eq!(status.session_state, LogicAnalyzerSessionState::Idle);
    assert_eq!(status.active_capture, None);
    assert_eq!(status.last_capture, Some(result.clone()));
    apply_capture_stopped(&mut status, "c".to_string(), Err("missing file".to_string()));
    assert_eq!(status.last_capture, None);
    assert_eq!(
        status.last_error.as_deref(),
        Some("capture completed, but waveform parsing failed: missing file")
    );
    apply_capture_finished(&mut status, true, Some(Ok(result.clone())));
    assert_eq!(status.session_state, LogicAnalyzerSessionState::Ready);
    assert_eq!(status.last_capture, Some(result));
    apply_capture_finished(&mut status, false, None);
    assert_eq!(status.session_state, LogicAnalyzerSessionState::Error);
    stop_without_capture(&mut status);
    assert_eq!(status.session_state, LogicAnalyzerSessionState::Idle);
}
