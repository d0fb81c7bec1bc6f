use eadai::ai_contract::{trim_queue, AiAdapterLimits, RecentEventsQuery};
use eadai::analysis::engine::{metric_label, MetricKind};
use eadai::analysis::imu::{classify_raw_channel, normalize_channel_name, raw_aliases, sensor_label, AxisKind};
use eadai::bmi088::Bmi088HostCommand;
use eadai::desktop::fake_session::{default_profile, fake_port_label};
use eadai::desktop::logic_analyzer::{
    build_capture_args, build_capture_command, check_capture_request, combine_output,
    format_capture_command, format_capture_warning, normalize_channel_label,
    normalize_fallback_label, parse_device_line, parse_logic_level, parse_scan_output,
    parse_waveform_csv, select_device_ref, shell_escape, split_csv_line, LogicLevel,
};
use eadai::desktop::model::{
    apply_connection_snapshot, normalize_parser_key, ConnectRequest, LogicAnalyzerCaptureRequest,
    LogicAnalyzerSessionState, LogicAnalyzerStatus, McpServerStatus, SessionSnapshot, SourceKind,
    UiBmi088HostCommand, UiConnectionPayload, UiConnectionState, UiParserMeta, UiParserStatus,
    UiSource, UiTransportKind,
};
use eadai::cli::RunConfig;
use eadai::desktop::state::{
    initial_snapshot, runtime_config, runtime_state_error, stopped_snapshot, FakeRuntimeConfig,
    RuntimeSessionConfig,
};
use eadai::message::{ConnectionEvent, ConnectionState, FieldMap, MessageSource, ParserMeta};
use std::collections::VecDeque;

fn chars(s: &str) -> Vec<char> {
    s.chars().collect()
}

#[test]
fn session_snapshots() {
    let snapshot = SessionSnapshot::connecting(UiTransportKind::Serial, "/dev/ttyUSB0".to_string(), 115_200);
    assert!(snapshot.is_running);
    assert_eq!(snapshot.connection_state, Some(UiConnectionState::Idle));
    let stopped = stopped_snapshot(&snapshot);
    assert!(!stopped.is_running);
    assert_eq!(stopped.connection_state, Some(UiConnectionState::Stopped));
    assert_eq!(stopped.port.as_deref(), Some("/dev/ttyUSB0"));
    assert_eq!(SessionSnapshot::default().connection_state, None);
}

#[test]
fn connection_events_update_the_snapshot() {
    let mut snapshot = SessionSnapshot::default();
    let source: UiSource = MessageSource::fake("fake://lab".to_string(), 9_600).into();
    let event: UiConnectionPayload = ConnectionEvent {
        state: ConnectionState::Connected,
        reason: None,
        attempt: 1,
        retry_delay_ms: None,
    }
    .into();
    apply_connection_snapshot(&mut snapshot, &event, &source);
    assert!(snapshot.is_running);
    assert_eq!(snapshot.transport, Some(UiTransportKind::Fake));
    assert_eq!(snapshot.port.as_deref(), Some("fake://lab"));
    assert_eq!(snapshot.baud_rate, Some(9_600));
    assert_eq!(snapshot.connection_state, Some(UiConnectionState::Connected));
    let stopped: UiConnectionPayload = ConnectionEvent {
        state: ConnectionState::Stopped,
        reason: Some("stop requested".to_string()),
        attempt: 1,
        retry_delay_ms: None,
    }
    .into();
    apply_connection_snapshot(&mut snapshot, &stopped, &source);
    assert!(!snapshot.is_running);
}

#[test]
fn mcp_server_states() {
    let starting = McpServerStatus::starting();
    assert!(!starting.is_running);
    assert_eq!(starting.transport, "streamableHttp");
    let running = McpServerStatus::running("http://127.0.0.1:8765/mcp".to_string(), None);
    assert!(running.is_running);
    assert_eq!(running.endpoint_url.as_deref(), Some("http://127.0.0.1:8765/mcp"));
    let failed = McpServerStatus::failed("port busy".to_string());
    assert_eq!(failed.last_error.as_deref(), Some("port busy"));
    assert_eq!(failed.endpoint_url, None);
}

#[test]
fn parser_fields_are_renamed_for_the_interface() {
    assert_eq!(normalize_parser_key("channel_id"), "channelId");
    assert_eq!(normalize_parser_key("numeric_value"), "numericValue");
    assert_eq!(normalize_parser_key("field_count"), "fieldCount");
    assert_eq!(normalize_parser_key("unit"), "unit");
    let meta = eadai::measurement_parser::parse_line("temp=21.5C");
    let ui = UiParserMeta::from_meta(meta);
    assert_eq!(ui.status, UiParserStatus::Parsed);
    let keys: Vec<String> = ui.fields.entries().iter().map(|(k, _)| k.clone()).collect();
    assert_eq!(keys, vec!["channelId", "field.temp", "fieldCount", "numericValue", "unit", "value"]);
    let mut fields = FieldMap::new();
    fields.insert("channelId".to_string(), "first".to_string());
    fields.insert("channel_id".to_string(), "second".to_string());
    let ui = UiParserMeta::from_meta(ParserMeta::parsed("x", fields));
    assert_eq!(ui.fields.entries().to_vec(), vec![("channelId".to_string(), "second".to_string())]);
}

#[test]
fn bmi088_commands_from_the_interface() {
    assert_eq!(UiBmi088HostCommand::ShellExec.payload_bytes(Some("ls -l")), Some(b"ls -l".to_vec()));
    assert_eq!(UiBmi088HostCommand::SetTuning.payload_bytes(None), None);
    assert_eq!(UiBmi088HostCommand::Ack.payload_bytes(Some("x")), None);
    let command: Bmi088HostCommand = UiBmi088HostCommand::ReqSchema.into();
    assert_eq!(command, Bmi088HostCommand::ReqSchema);
}

#[test]
fn new_sessions_name_their_port() {
    assert_eq!(default_profile(), "telemetry-lab");
    assert_eq!(fake_port_label("noisy-monitor"), "fake://noisy-monitor");
    let mut request = ConnectRequest {
        port: "/dev/ttyUSB1".to_string(),
        baud_rate: 57_600,
        retry_ms: 1_000,
        read_timeout_ms: 50,
        source_kind: SourceKind::Serial,
        fake_profile: None,
    };
    let serial = initial_snapshot(&request);
    assert_eq!(serial.transport, Some(UiTransportKind::Serial));
    assert_eq!(serial.port.as_deref(), Some("/dev/ttyUSB1"));
    request.source_kind = SourceKind::Fake;
    assert_eq!(initial_snapshot(&request).port.as_deref(), Some("fake://telemetry-lab"));
    request.fake_profile = Some("noisy-monitor".to_string());
    let fake = initial_snapshot(&request);
    assert_eq!(fake.transport, Some(UiTransportKind::Fake));
    assert_eq!(fake.port.as_deref(), Some("fake://noisy-monitor"));
    assert_eq!(fake.baud_rate, Some(57_600));
    assert_eq!(runtime_state_error("runtime session is not running"), "runtime session is not running");
    assert_eq!(SourceKind::default(), SourceKind::Serial);
}

#[test]
fn csv_lines_split_with_quotes() {
    assert_eq!(split_csv_line(&chars("a, b ,c")), vec!["a", "b", "c"]);
    assert_eq!(split_csv_line(&chars("\"x,y\",\"say \"\"hi\"\"\",")), vec!["x,y", "say \"hi\"", ""]);
    assert_eq!(split_csv_line(&chars("")), vec![""]);
}

#[test]
fn channel_labels_from_headers() {
    assert_eq!(normalize_channel_label(&chars(" \"D0\" ")).as_deref(), Some("D0"));
    assert_eq!(normalize_channel_label(&chars("Time")), None);
    assert_eq!(normalize_channel_label(&chars("''")), None);
    assert_eq!(normalize_fallback_label(&chars("  "), 3), "D3");
    assert_eq!(normalize_fallback_label(&chars("'CLK'"), 1), "CLK");
}

#[test]
fn logic_levels_from_text() {
    assert_eq!(parse_logic_level(&chars("1")), LogicLevel::High);
    assert_eq!(parse_logic_level(&chars(" HIGH ")), LogicLevel::High);
    assert_eq!(parse_logic_level(&chars("'false'")), LogicLevel::Low);
    assert_eq!(parse_logic_level(&chars("x")), LogicLevel::Unknown);
    assert_eq!(parse_logic_level(&chars("NaN")), LogicLevel::Unknown);
    assert_eq!(parse_logic_level(&chars("0.75")), LogicLevel::Numeric("0.75".to_string()));
    assert_eq!(parse_logic_level(&chars("3.3V")), LogicLevel::Unknown);
}

#[test]
fn waveforms_read_from_sigrok_csv() {
    let text = "Time,D0,D1\n\n0,1,0\n1,0,x\n2,1\n";
    let waveform = parse_waveform_csv(text, 99);
    assert_eq!(waveform.sample_count, 3);
    assert_eq!(waveform.channels.len(), 2);
    assert_eq!(waveform.channels[0].label, "D0");
    assert_eq!(waveform.channels[0].samples, vec![LogicLevel::High, LogicLevel::Low, LogicLevel::High]);
    assert_eq!(waveform.channels[1].samples, vec![LogicLevel::Low, LogicLevel::Unknown, LogicLevel::Unknown]);

    let headerless = parse_waveform_csv("time,,\n", 16);
    assert_eq!(headerless.sample_count, 16);
    assert_eq!(headerless.channels.len(), 2);
    assert_eq!(headerless.channels[0].label, "D1");
    assert!(headerless.channels[0].samples.is_empty());

    let empty = parse_waveform_csv("\n  \n", 8);
    assert_eq!(empty.sample_count, 0);
    assert!(empty.channels.is_empty());
}

#[test]
fn scan_output_lists_devices() {
    let output = "Sigrok scan\nThe following devices were found:\n\"Saleae Logic\" [fx2lafw:conn=1.5]\n\n[demo]\nFound 2 devices\n";
    let devices = parse_scan_output(output);
    assert_eq!(devices.len(), 2);
    assert_eq!(devices[0].reference, "fx2lafw:conn=1.5");
    assert_eq!(devices[0].name, "Saleae Logic");
    assert_eq!(devices[0].driver.as_deref(), Some("fx2lafw:conn=1.5"));
    assert_eq!(devices[1].reference, "demo");
    assert_eq!(devices[1].name, "demo");
    assert!(parse_device_line(&chars("no brackets")).is_none());
    assert!(parse_device_line(&chars("open [only")).is_none());
}

#[test]
fn capture_command_lines() {
    let request = LogicAnalyzerCaptureRequest {
        device_ref: "fx2lafw".to_string(),
        sample_count: 1000,
        samplerate_hz: Some(24_000_000),
        channels: vec!["D0".to_string(), "D1".to_string()],
    };
    assert_eq!(
        build_capture_args(&request, "/tmp/out.csv"),
        vec!["-d", "fx2lafw", "--samples", "1000", "-O", "csv", "-o", "/tmp/out.csv", "-c", "samplerate=24000000", "-C", "D0,D1"]
    );
    assert_eq!(
        build_capture_command("sigrok-cli", &request, "/tmp/my out.csv"),
        "sigrok-cli -d fx2lafw --samples 1000 -O csv -o '/tmp/my out.csv' -c 'samplerate=24000000' -C 'D0,D1'"
    );
    assert_eq!(format_capture_command("a b", &[]), "'a b'");
    assert_eq!(shell_escape(""), "''");
    assert_eq!(shell_escape("it's"), "'it'\\''s'");
    assert_eq!(shell_escape("conn=1.5"), "'conn=1.5'");
    assert_eq!(format_capture_warning("no file"), "capture completed, but waveform parsing failed: no file");
}

#[test]
fn program_output_is_combined() {
    assert_eq!(combine_output(b"out", b"  \n"), "out");
    assert_eq!(combine_output(b"out", b"err"), "out\nerr");
    assert_eq!(combine_output(b"", b"err"), "err");
}

#[test]
fn device_selection_and_capture_checks() {
    let devices = parse_scan_output("a [one]\nb [two]\n");
    assert_eq!(select_device_ref(Some("two".to_string()), &devices).as_deref(), Some("two"));
    assert_eq!(select_device_ref(Some("gone".to_string()), &devices).as_deref(), Some("one"));
    assert_eq!(select_device_ref(None, &[]), None);
    let mut status = LogicAnalyzerStatus::default();
    assert_eq!(status.session_state, LogicAnalyzerSessionState::Idle);
    status.devices = devices;
    let mut request = LogicAnalyzerCaptureRequest {
        device_ref: " ".to_string(),
        sample_count: 10,
        samplerate_hz: None,
        channels: Vec::new(),
    };
    assert_eq!(check_capture_request(&status, &request).as_deref(), Some("device_ref is required"));
    request.device_ref = "three".to_string();
    assert_eq!(
        check_capture_request(&status, &request).as_deref(),
        Some("device 'three' is not present in the current sigrok scan")
    );
    request.device_ref = "one".to_string();
    assert_eq!(check_capture_request(&status, &request), None);
}

#[test]
fn imu_channels_are_recognised_by_their_endings() {
    assert_eq!(normalize_channel_name("IMU.Accel-X"), "imuaccelx");
    assert_eq!(raw_aliases().len(), 30);
    assert_eq!(sensor_label(""), "imu");
    assert_eq!(sensor_label("left_imu"), "left_imu");
    assert_eq!(sensor_label("left"), "left_imu");
    assert_eq!(classify_raw_channel("acc_x"), Some(("imu".to_string(), AxisKind::AccelX)));
    assert_eq!(classify_raw_channel("imu_gyro_z"), Some(("imu".to_string(), AxisKind::GyroZ)));
    assert_eq!(classify_raw_channel("wrist_ay"), Some(("wrist_imu".to_string(), AxisKind::AccelY)));
    assert_eq!(classify_raw_channel("temperature"), None);
}

#[test]
fn metric_names() {
    assert_eq!(metric_label(MetricKind::DutyCycle), "dutyCycle");
    assert_eq!(metric_label(MetricKind::MeanValue), "mean");
    assert_eq!(metric_label(MetricKind::RmsValue), "rms");
}

#[test]
fn adapter_limits_and_queues() {
    let limits = AiAdapterLimits::default();
    assert_eq!((limits.recent_events, limits.recent_triggers, limits.analysis_history), (64, 24, 48));
    assert_eq!(RecentEventsQuery::default().limit, None);
    let mut queue: VecDeque<u32> = (0..10).collect();
    trim_queue(&mut queue, 3);
    assert_eq!(queue, VecDeque::from(vec![7, 8, 9]));
    trim_queue(&mut queue, 5);
    assert_eq!(queue.len(), 3);
}

#[test]
fn connect_requests_choose_their_runtime() {
    let mut request = ConnectRequest {
        port: "/dev/ttyACM0".to_string(),
        baud_rate: 230_400,
        retry_ms: 750,
        read_timeout_ms: 25,
        source_kind: SourceKind::Serial,
        fake_profile: Some("noisy-monitor".to_string()),
    };
    assert_eq!(
        runtime_config(&request),
        RuntimeSessionConfig::Serial(RunConfig {
            port: "/dev/ttyACM0".to_string(),
            baud_rate: 230_400,
            retry_delay_ms: 750,
            read_timeout_ms: 25,
        })
    );
    request.source_kind = SourceKind::Fake;
    assert_eq!(
        runtime_config(&request),
        RuntimeSessionConfig::Fake(FakeRuntimeConfig { profile: "noisy-monitor".to_string(), baud_rate: 230_400 })
    );
    request.fake_profile = None;
    assert_eq!(
        runtime_config(&request),
        RuntimeSessionConfig::Fake(FakeRuntimeConfig { profile: "telemetry-lab".to_string(), baud_rate: 230_400 })
    );
}
