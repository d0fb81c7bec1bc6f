use eadai::cli::RunConfig;
use eadai::error::AppError;
use eadai::mcp_runtime::{mcp_usage, parse_mcp_args, McpRuntimeConfig};
use eadai::mcp_server::{
    resource_by_uri, resource_entry, tool_by_name, tool_name, tool_names, tool_read_only, unknown_tool_message,
    McpResource, McpTool, McpToolUsageTracker,
};

fn strings(values: &[&str]) -> Vec<String> {
    values.iter().map(|value| value.to_string()).collect()
}

fn usage_message(result: Result<McpRuntimeConfig, AppError>) -> String {
    match result {
        Err(AppError::Usage(message)) => message,
        other => panic!("expected a usage error, got {other:?}"),
    }
}

#[test]
fn mcp_serial_runtime_takes_the_reader_flags() {
    let config = parse_mcp_args(&strings(&[
        "--port",
        "/dev/ttyUSB0",
        "--baud",
        "921600",
        "--retry-ms",
        "250",
        "--read-timeout-ms",
        "20",
    ]))
    .unwrap();
    assert_eq!(
        config,
        McpRuntimeConfig::Serial(RunConfig {
            port: "/dev/ttyUSB0".to_string(),
            baud_rate: 921_600,
            retry_delay_ms: 250,
            read_timeout_ms: 20,
        })
    );
}

#[test]
fn mcp_serial_runtime_defaults() {
    let config = parse_mcp_args(&strings(&["--port", "COM3"])).unwrap();
    assert_eq!(
        config,
        McpRuntimeConfig::Serial(RunConfig {
            port: "COM3".to_string(),
            baud_rate: 115_200,
            retry_delay_ms: 1_000,
            read_timeout_ms: 50,
        })
    );
}

#[test]
fn mcp_fake_runtime_takes_a_profile() {
    let config = parse_mcp_args(&strings(&["--fake-profile", "noisy-monitor", "--baud", "9600"])).unwrap();
    assert_eq!(config, McpRuntimeConfig::Fake { profile: "noisy-monitor".to_string(), baud_rate: 9600 });
}

#[test]
fn mcp_runtime_needs_exactly_one_source() {
    assert_eq!(usage_message(parse_mcp_args(&[])), mcp_usage());
    assert_eq!(
        usage_message(parse_mcp_args(&strings(&["--port", "a", "--fake-profile", "b"]))),
        mcp_usage()
    );
}

#[test]
fn mcp_runtime_rejects_unknown_flags_with_the_usage() {
    assert_eq!(usage_message(parse_mcp_args(&strings(&["--verbose"]))), mcp_usage());
}

#[test]
fn mcp_runtime_reports_bad_values() {
    assert_eq!(
        usage_message(parse_mcp_args(&strings(&["--port"]))),
        format!("Missing value for --port\n\n{}", mcp_usage())
    );
    assert_eq!(
        usage_message(parse_mcp_args(&strings(&["--port", "a", "--baud", "fast"]))),
        format!("Invalid numeric value for --baud: fast\n\n{}", mcp_usage())
    );
}

#[test]
fn mcp_usage_names_both_runtimes() {
    let usage = mcp_usage();
    assert!(usage.starts_with("Usage:\n  eadai-mcp --port <name>"));
    assert!(usage.contains("eadai-mcp --fake-profile <name> [--baud <rate>]"));
}

#[test]
fn tools_are_found_by_their_names() {
    assert_eq!(
        tool_names(),
        [
            "get_channel_analysis",
            "get_recent_events",
            "get_channel_statistics",
            "query_historical_analysis"
        ]
    );
    for tool in [
        McpTool::ChannelAnalysis,
        McpTool::RecentEvents,
        McpTool::ChannelStatistics,
        McpTool::HistoricalAnalysis,
    ] {
        assert_eq!(tool_by_name(tool_name(tool)), Some(tool));
    }
    assert_eq!(tool_by_name("delete_everything"), None);
    assert_eq!(unknown_tool_message("delete_everything"), "unknown tool: delete_everything");
}

#[test]
fn resources_are_found_by_their_uris() {
    assert_eq!(
        resource_entry(McpResource::Triggers),
        ("triggers://recent", "Recent Triggers", "Bounded recent trigger history")
    );
    for resource in [
        McpResource::Session,
        McpResource::Telemetry,
        McpResource::Analysis,
        McpResource::Triggers,
    ] {
        assert_eq!(resource_by_uri(resource_entry(resource).0), Some(resource));
    }
    assert_eq!(resource_by_uri("session://previous"), None);
}

#[test]
fn tool_usage_records_the_last_call() {
    let mut usage = McpToolUsageTracker::new(&tool_names());
    assert!(usage.snapshot().iter().all(|entry| entry.last_called_at_ms.is_none()));
    usage.record("get_recent_events", 1_000);
    usage.record("get_recent_events", 2_000);
    usage.record("not_a_tool", 3_000);
    let snapshot = usage.snapshot();
    assert_eq!(snapshot.len(), 4);
    assert_eq!(snapshot[1].name, "get_recent_events");
    assert_eq!(snapshot[1].last_called_at_ms, Some(2_000));
    assert_eq!(snapshot[0].last_called_at_ms, None);
}

#[test]
fn every_tool_is_announced_read_only() {
    for tool in [
        McpTool::ChannelAnalysis,
        McpTool::RecentEvents,
        McpTool::ChannelStatistics,
        McpTool::HistoricalAnalysis,
    ] {
        assert!(tool_read_only(tool));
    }
}
