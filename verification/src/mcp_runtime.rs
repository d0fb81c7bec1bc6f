//! The arguments of the MCP server program: which telemetry runtime backs
//! it, a serial port or a fake telemetry profile.

use vstd::prelude::*;
use crate::args::{
    args_model, missing_value_text, next_value, number_or_error_with, parse_u32_value,
    parse_u64_value,
};
use crate::cli::{
    RunConfig, RunSettings, DEFAULT_BAUD_RATE, DEFAULT_READ_TIMEOUT_MS, DEFAULT_RETRY_DELAY_MS,
};
use crate::error::AppError;
use crate::text::{owned, str_eq};

verus! {

/// The runtime that backs the MCP server.
#[derive(Clone, Debug, PartialEq, Eq)]
pub enum McpRuntimeConfig {
    Serial(RunConfig),
    Fake { profile: String, baud_rate: u32 },
}

/// Abstract value of the runtime choice.
pub enum McpRuntimeModel {
    Serial(RunSettings),
    Fake { profile: Seq<char>, baud_rate: u32 },
}

impl View for McpRuntimeConfig {
    type V = McpRuntimeModel;

    open spec fn view(&self) -> McpRuntimeModel {
        match self {
            McpRuntimeConfig::Serial(c) => McpRuntimeModel::Serial(c@),
            McpRuntimeConfig::Fake { profile, baud_rate } => McpRuntimeModel::Fake {
                profile: profile@,
                baud_rate: *baud_rate,
            },
        }
    }
}

/// The settings gathered from the arguments.
pub struct McpSettings {
    pub port: Option<Seq<char>>,
    pub fake_profile: Option<Seq<char>>,
    pub baud_rate: u32,
    pub retry_delay_ms: u64,
    pub read_timeout_ms: u64,
}

/// The usage text of the MCP server program.
pub open spec fn mcp_usage_text() -> Seq<char> {
    "Usage:\n  eadai-mcp --port <name> [--baud <rate>] [--retry-ms <ms>] [--read-timeout-ms <ms>]\n  eadai-mcp --fake-profile <name> [--baud <rate>]\n\nRuns a read-only MCP stdio server backed by the serial runtime or fake telemetry stream."@
}

/// The usage text of the MCP server program.
pub fn mcp_usage() -> (out: String)
    ensures
        out@ == mcp_usage_text(),
{
    owned(
        "Usage:\n  eadai-mcp --port <name> [--baud <rate>] [--retry-ms <ms>] [--read-timeout-ms <ms>]\n  eadai-mcp --fake-profile <name> [--baud <rate>]\n\nRuns a read-only MCP stdio server backed by the serial runtime or fake telemetry stream.",
    )
}

/// Whether `a` is a flag of the MCP server program.
pub open spec fn is_mcp_flag(a: Seq<char>) -> bool {
    a == "--port"@ || a == "--fake-profile"@ || a == "--baud"@ || a == "--retry-ms"@ || a
        == "--read-timeout-ms"@
}

/// Reads the arguments from position `i` on. Any other argument is
/// answered with the usage text alone.
pub open spec fn mcp_scan(args: Seq<Seq<char>>, i: int, st: McpSettings) -> Result<McpSettings, Seq<char>>
    decreases args.len() - i,
{
    if i < 0 || i >= args.len() {
        Ok(st)
    } else {
        let a = args[i];
        if !is_mcp_flag(a) {
            Err(mcp_usage_text())
        } else if i + 1 >= args.len() {
            Err(missing_value_text(a, mcp_usage_text()))
        } else {
            let v = args[i + 1];
            if a == "--port"@ {
                mcp_scan(args, i + 2, McpSettings { port: Some(v), ..st })
            } else if a == "--fake-profile"@ {
                mcp_scan(args, i + 2, McpSettings { fake_profile: Some(v), ..st })
            } else if a == "--baud"@ {
                match number_or_error_with(a, v, u32::MAX as int, mcp_usage_text()) {
                    Ok(n) => mcp_scan(args, i + 2, McpSettings { baud_rate: n as u32, ..st }),
                    Err(e) => Err(e),
                }
            } else if a == "--retry-ms"@ {
                match number_or_error_with(a, v, u64::MAX as int, mcp_usage_text()) {
                    Ok(n) => mcp_scan(args, i + 2, McpSettings { retry_delay_ms: n as u64, ..st }),
                    Err(e) => Err(e),
                }
            } else {
                match number_or_error_with(a, v, u64::MAX as int, mcp_usage_text()) {
                    Ok(n) => mcp_scan(args, i + 2, McpSettings { read_timeout_ms: n as u64, ..st }),
                    Err(e) => Err(e),
                }
            }
        }
    }
}

/// The settings before any argument is read.
pub open spec fn mcp_defaults() -> McpSettings {
    McpSettings {
        port: None,
        fake_profile: None,
        baud_rate: DEFAULT_BAUD_RATE,
        retry_delay_ms: DEFAULT_RETRY_DELAY_MS,
        read_timeout_ms: DEFAULT_READ_TIMEOUT_MS,
    }
}

/// What the arguments give: exactly one of a port and a fake profile must
/// be named.
pub open spec fn mcp_parse(args: Seq<Seq<char>>) -> Result<McpRuntimeModel, Seq<char>> {
    match mcp_scan(args, 0, mcp_defaults()) {
        Err(e) => Err(e),
        Ok(st) => match (st.port, st.fake_profile) {
            (Some(port), None) => Ok(
                McpRuntimeModel::Serial(
                    RunSettings {
                        port: Some(port),
                        baud_rate: st.baud_rate,
                        retry_delay_ms: st.retry_delay_ms,
                        read_timeout_ms: st.read_timeout_ms,
                    },
                ),
            ),
            (None, Some(profile)) => Ok(McpRuntimeModel::Fake { profile, baud_rate: st.baud_rate }),
            _ => Err(mcp_usage_text()),
        },
    }
}

/// The text of an optional string.
pub open spec fn opt_seq(o: Option<String>) -> Option<Seq<char>> {
    match o {
        Some(s) => Some(s@),
        None => None,
    }
}

/// Reads the arguments of the MCP server program (without the program
/// name).
pub fn parse_mcp_args(args: &[String]) -> (r: Result<McpRuntimeConfig, AppError>)
    ensures
        match mcp_parse(args_model(args@)) {
            Ok(c) => r matches Ok(x) && x@ == c,
            Err(e) => r matches Err(AppError::Usage(m)) && m@ == e,
        },
{
    let ghost model = args_model(args@);
    let u = mcp_usage();
    let mut port: Option<String> = None;
    let mut fake_profile: Option<String> = None;
    let mut baud_rate = DEFAULT_BAUD_RATE;
    let mut retry_ms = DEFAULT_RETRY_DELAY_MS;
    let mut read_timeout_ms = DEFAULT_READ_TIMEOUT_MS;
    let mut index: usize = 0;
    while index < args.len()
        invariant
            index <= args.len(),
            model == args_model(args@),
            u@ == mcp_usage_text(),
            mcp_scan(model, 0, mcp_defaults()) == mcp_scan(
                model,
                index as int,
                McpSettings {
                    port: opt_seq(port),
                    fake_profile: opt_seq(fake_profile),
                    baud_rate,
                    retry_delay_ms: retry_ms,
                    read_timeout_ms,
                },
            ),
        decreases args.len() - index,
    {
        let a = args[index].as_str();
        assert(model[index as int] == a@);
        if !(str_eq(a, "--port") || str_eq(a, "--fake-profile") || str_eq(a, "--baud") || str_eq(
            a,
            "--retry-ms",
        ) || str_eq(a, "--read-timeout-ms")) {
            return Err(AppError::Usage(u));
        }
        let value = match next_value(args, &mut index, a, u.as_str()) {
            Ok(v) => v,
            Err(e) => {
                return Err(e);
            },
        };
        assert(model[index as int] == value@);
        if str_eq(a, "--port") {
            port = Some(value);
        } else if str_eq(a, "--fake-profile") {
            fake_profile = Some(value);
        } else if str_eq(a, "--baud") {
            match parse_u32_value(value.as_str(), a, u.as_str()) {
                Ok(n) => {
                    baud_rate = n;
                },
                Err(e) => {
                    return Err(e);
                },
            }
        } else if str_eq(a, "--retry-ms") {
            match parse_u64_value(value.as_str(), a, u.as_str()) {
                Ok(n) => {
                    retry_ms = n;
                },
                Err(e) => {
                    return Err(e);
                },
            }
        } else {
            match parse_u64_value(value.as_str(), a, u.as_str()) {
                Ok(n) => {
                    read_timeout_ms = n;
                },
                Err(e) => {
                    return Err(e);
                },
            }
        }
        index = index + 1;
    }
    match (port, fake_profile) {
        (Some(port), None) => Ok(
            McpRuntimeConfig::Serial(
                RunConfig { port, baud_rate, retry_delay_ms: retry_ms, read_timeout_ms },
            ),
        ),
        (None, Some(profile)) => Ok(McpRuntimeConfig::Fake { profile, baud_rate }),
        _ => Err(AppError::Usage(u)),
    }
}

} // verus!
