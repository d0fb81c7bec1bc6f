use eadai::cli::{parse_args, usage, Command, LoopbackConfig, ParserKind, RunConfig, SendConfig};
use eadai::decimal::{format_i64, format_u64, parse_u32, parse_u64, parse_usize};
use eadai::error::{AppError, IoErrorKind};
use eadai::message::{FieldMap, ParserMeta, ParserStatus};
use eadai::parser::parse_framed_line;
use eadai::serial::{FrameStatus, FramedLine};
use eadai::message::LinePayload;

fn args(values: &[&str]) -> Vec<String> {
    values.iter().map(|v| v.to_string()).collect()
}

fn usage_error(result: Result<Command, AppError>) -> String {
    match result {
        Err(AppError::Usage(message)) => message,
        other => panic!("expected a usage error, got {other:?}"),
    }
}

fn field(meta: &ParserMeta, key: &str) -> Option<String> {
    meta.fields
        .entries()
        .iter()
        .find(|(k, _)| k == key)
        .map(|(_, v)| v.clone())
}

fn keys(meta: &ParserMeta) -> Vec<String> {
    meta.fields.entries().iter().map(|(k, _)| k.clone()).collect()
}

#[test]
fn cli_commands_parse_with_defaults() {
    assert_eq!(parse_args(args(&["ports", "--ignored"])).unwrap(), Command::Ports);
    assert_eq!(
        parse_args(args(&["run", "--port", "/dev/ttyUSB0"])).unwrap(),
        Command::Run(RunConfig {
            port: "/dev/ttyUSB0".to_string(),
            baud_rate: 115_200,
            retry_delay_ms: 1_000,
            read_timeout_ms: 50,
        })
    );
    assert_eq!(
        parse_args(args(&["run", "--baud", "9600", "--retry-ms", "250", "--read-timeout-ms", "5", "--port", "COM1"]))
            .unwrap(),
        Command::Run(RunConfig {
            port: "COM1".to_string(),
            baud_rate: 9_600,
            retry_delay_ms: 250,
            read_timeout_ms: 5,
        })
    );
    assert_eq!(
        parse_args(args(&["send", "--port", "p", "--payload", "hi", "--no-newline"])).unwrap(),
        Command::Send(SendConfig {
            port: "p".to_string(),
            baud_rate: 115_200,
            read_timeout_ms: 50,
            payload: "hi".to_string(),
            append_newline: false,
        })
    );
    assert_eq!(
        parse_args(args(&["loopback-test", "--port", "p", "--payload", "x", "--loopback-timeout-ms", "250"]))
            .unwrap(),
        Command::LoopbackTest(LoopbackConfig {
            send: SendConfig {
                port: "p".to_string(),
                baud_rate: 115_200,
                read_timeout_ms: 50,
                payload: "x".to_string(),
                append_newline: true,
            },
            loopback_timeout_ms: 250,
        })
    );
}

#[test]
fn cli_errors_carry_the_usage_text() {
    let u = usage();
    assert!(u.starts_with("Usage:\n  eadai ports\n"));
    assert!(u.ends_with("Defaults:\n  baud = 115200\n  retry-ms = 1000\n  read-timeout-ms = 50\n  loopback-timeout-ms = 1000\n"));
    assert_eq!(usage_error(parse_args(args(&[]))), u);
    assert_eq!(usage_error(parse_args(args(&["listen"]))), u);
    assert_eq!(
        usage_error(parse_args(args(&["run"]))),
        format!("Missing required flag: --port\n\n{u}")
    );
    assert_eq!(
        usage_error(parse_args(args(&["run", "--port", "a", "--parser", "auto"]))),
        format!("Unknown flag: --parser\n\n{u}")
    );
    assert_eq!(
        usage_error(parse_args(args(&["run", "--port", "a", "--baud"]))),
        format!("Missing value for --baud\n\n{u}")
    );
    assert_eq!(
        usage_error(parse_args(args(&["run", "--port", "a", "--retry-ms", "soon"]))),
        format!("Invalid numeric value for --retry-ms: soon\n\n{u}")
    );
    assert_eq!(
        usage_error(parse_args(args(&["send", "--port", "a"]))),
        format!("Missing required flag: --payload\n\n{u}")
    );
    assert_eq!(
        usage_error(parse_args(args(&["send", "--payload", "a"]))),
        format!("Missing required flag: --port\n\n{u}")
    );
    assert_eq!(
        usage_error(parse_args(args(&["loopback-test", "--port", "p", "--payload", "x", "--loopback-timeout-ms", "x"]))),
        format!("Invalid numeric value for --loopback-timeout-ms: x\n\n{u}")
    );
}

#[test]
fn app_errors_display_like_the_tool() {
    assert_eq!(AppError::Usage("u".to_string()).message(), "u");
    assert_eq!(AppError::Serial("gone".to_string()).message(), "serial error: gone");
    assert_eq!(
        AppError::Io { kind: IoErrorKind::UnexpectedEof, message: "eof".to_string() }.message(),
        "io error: eof"
    );
    assert_eq!(AppError::LoopbackTimeout("1s".to_string()).message(), "loopback timeout: 1s");
    assert_eq!(
        AppError::LoopbackMismatch { expected: "a".to_string(), received: "b".to_string() }.message(),
        "loopback mismatch: expected 'a', received 'b'"
    );
}

#[test]
fn numbers_parse_like_str_parse() {
    assert_eq!(parse_u64("0"), Some(0));
    assert_eq!(parse_u64("+42"), Some(42));
    assert_eq!(parse_u64("18446744073709551615"), Some(u64::MAX));
    assert_eq!(parse_u64("18446744073709551616"), None);
    assert_eq!(parse_u64(""), None);
    assert_eq!(parse_u64("+"), None);
    assert_eq!(parse_u64("-0"), None);
    assert_eq!(parse_u64(" 1"), None);
    assert_eq!(parse_u32("4294967295"), Some(u32::MAX));
    assert_eq!(parse_u32("4294967296"), None);
    assert_eq!(parse_usize("007"), Some(7));
    for n in [0u64, 9, 10, 1234567890, u64::MAX] {
        assert_eq!(parse_u64(&format_u64(n)), Some(n));
        assert_eq!(format_u64(n), n.to_string());
    }
    for v in [i64::MIN, -1, 0, 77, i64::MAX] {
        assert_eq!(format_i64(v), v.to_string());
    }
}

#[test]
fn key_value_lines() {
    let meta = eadai::key_value_parser::parse_line("  sensor.a : 42 ");
    assert_eq!(meta.status, ParserStatus::Parsed);
    assert_eq!(meta.parser_name.as_deref(), Some("key_value"));
    assert_eq!(field(&meta, "channel_id").as_deref(), Some("sensor.a"));
    assert_eq!(field(&meta, "value").as_deref(), Some("42"));
    assert_eq!(keys(&meta), vec!["channel_id", "value"]);

    let missing = eadai::key_value_parser::parse_line("a:");
    assert_eq!(missing.status, ParserStatus::Malformed);
    assert_eq!(field(&missing, "error").as_deref(), Some("missing key or value"));
    let bad = eadai::key_value_parser::parse_line("bad key:1");
    assert_eq!(field(&bad, "error").as_deref(), Some("invalid channel id"));
    assert_eq!(eadai::key_value_parser::parse_line("no colon").status, ParserStatus::Unparsed);
    assert_eq!(eadai::key_value_parser::parse_line("   ").status, ParserStatus::Unparsed);
}

#[test]
fn measurement_lines_with_units_and_status() {
    let meta = eadai::measurement_parser::parse_line("temp=21.5C OK");
    assert_eq!(meta.status, ParserStatus::Parsed);
    assert_eq!(meta.parser_name.as_deref(), Some("measurements"));
    assert_eq!(field(&meta, "field_count").as_deref(), Some("1"));
    assert_eq!(field(&meta, "status").as_deref(), Some("OK"));
    assert_eq!(field(&meta, "field.temp").as_deref(), Some("21.5C"));
    assert_eq!(field(&meta, "channel_id").as_deref(), Some("temp"));
    assert_eq!(field(&meta, "value").as_deref(), Some("21.5C"));
    assert_eq!(field(&meta, "numeric_value").as_deref(), Some("21.5"));
    assert_eq!(field(&meta, "unit").as_deref(), Some("C"));
    assert_eq!(
        keys(&meta),
        vec!["channel_id", "field.temp", "field_count", "numeric_value", "status", "unit", "value"]
    );

    let meta = eadai::measurement_parser::parse_line("temp=21 C WARN");
    assert_eq!(field(&meta, "unit").as_deref(), Some("C"));
    assert_eq!(field(&meta, "status").as_deref(), Some("WARN"));
    assert_eq!(field(&meta, "numeric_value").as_deref(), Some("21"));

    let meta = eadai::measurement_parser::parse_line("rpm=1.5e3rpm, level=inf%");
    assert_eq!(field(&meta, "channel_id").as_deref(), Some("rpm"));
    assert_eq!(field(&meta, "numeric_value").as_deref(), Some("1.5e3"));
    assert_eq!(field(&meta, "unit").as_deref(), Some("rpm"));
    assert_eq!(field(&meta, "field.level").as_deref(), Some("inf%"));
}

#[test]
fn measurement_lines_prefer_non_timestamp_channels() {
    let meta = eadai::measurement_parser::parse_line("ts:12, accel_x:0.5");
    assert_eq!(field(&meta, "field_count").as_deref(), Some("2"));
    assert_eq!(field(&meta, "timestamp").as_deref(), Some("12"));
    assert_eq!(field(&meta, "channel_id").as_deref(), Some("accel_x"));
    assert_eq!(field(&meta, "numeric_value").as_deref(), Some("0.5"));
    assert_eq!(field(&meta, "unit"), None);
    let only_time = eadai::measurement_parser::parse_line("time=5");
    assert_eq!(field(&only_time, "channel_id").as_deref(), Some("time"));
    assert_eq!(field(&only_time, "timestamp").as_deref(), Some("5"));
}

#[test]
fn measurement_line_errors() {
    let trailing = eadai::measurement_parser::parse_line("ts:12 accel_x:0.5 g");
    assert_eq!(trailing.status, ParserStatus::Malformed);
    assert_eq!(field(&trailing, "error").as_deref(), Some("unexpected trailing token"));
    assert_eq!(
        field(&eadai::measurement_parser::parse_line("=5"), "error").as_deref(),
        Some("missing key or value")
    );
    assert_eq!(
        field(&eadai::measurement_parser::parse_line("t$mp=5"), "error").as_deref(),
        Some("invalid field name")
    );
    assert_eq!(eadai::measurement_parser::parse_line("voltage 12.1 V").status, ParserStatus::Unparsed);
    assert_eq!(eadai::measurement_parser::parse_line("").status, ParserStatus::Unparsed);
    let no_number = eadai::measurement_parser::parse_line("mode=auto");
    assert_eq!(field(&no_number, "numeric_value"), None);
    assert_eq!(field(&no_number, "unit"), None);
}

fn line(text: &str, status: FrameStatus) -> FramedLine {
    FramedLine {
        payload: LinePayload { text: text.to_string(), raw: text.as_bytes().to_vec() },
        status,
    }
}

#[test]
fn framed_lines_go_to_the_chosen_parser() {
    let overflow = parse_framed_line(ParserKind::Auto, &line("a:1", FrameStatus::Overflow));
    assert_eq!(overflow.status, ParserStatus::Malformed);
    assert_eq!(overflow.parser_name, None);
    assert_eq!(field(&overflow, "error").as_deref(), Some("frame overflow"));
    let auto_kv = parse_framed_line(ParserKind::Auto, &line("a:1", FrameStatus::Complete));
    assert_eq!(auto_kv.parser_name.as_deref(), Some("key_value"));
    let auto_measure = parse_framed_line(ParserKind::Auto, &line("temp=5", FrameStatus::Complete));
    assert_eq!(auto_measure.parser_name.as_deref(), Some("measurements"));
    let measure = parse_framed_line(ParserKind::Measurements, &line("a:1", FrameStatus::Complete));
    assert_eq!(measure.parser_name.as_deref(), Some("measurements"));
    let kv = parse_framed_line(ParserKind::KeyValue, &line("temp=5", FrameStatus::Complete));
    assert_eq!(kv.status, ParserStatus::Unparsed);
    let binary = parse_framed_line(ParserKind::Bmi088, &line("a:1", FrameStatus::Complete));
    assert_eq!(binary.status, ParserStatus::Unparsed);
}

#[test]
fn field_maps_keep_keys_sorted_and_unique() {
    let mut map = FieldMap::new();
    map.insert("b".to_string(), "1".to_string());
    map.insert("a".to_string(), "2".to_string());
    map.insert("ab".to_string(), "3".to_string());
    map.insert("b".to_string(), "4".to_string());
    map.insert("B".to_string(), "5".to_string());
    let entries: Vec<(String, String)> = map.entries().to_vec();
    assert_eq!(
        entries,
        vec![
            ("B".to_string(), "5".to_string()),
            ("a".to_string(), "2".to_string()),
            ("ab".to_string(), "3".to_string()),
            ("b".to_string(), "4".to_string()),
        ]
    );
    let copy = map.clone();
    assert_eq!(copy.entries().to_vec(), entries);
}
