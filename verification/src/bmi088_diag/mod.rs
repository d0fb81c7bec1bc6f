//! The BMI088 handshake diagnostic: argument handling, counters, the order
//! of the probe's commands and the final verdict.

pub mod protocol;

use vstd::prelude::*;
use crate::args::{
    args_model, invalid_number_text, missing_flag, missing_flag_text, missing_value_text,
    next_value, parse_u32_value, parse_u64_value, parse_usize_value, unknown_flag,
    unknown_flag_text, usage_error,
};
use crate::decimal::{decimal, format_u64, parse_bounded};
use crate::error::AppError;
use crate::text::{owned, str_eq};
use crate::decimal::{format_i64, signed_decimal};
use crate::bmi088::models::SchemaModel;
use crate::text::{join, join_strings, string_from_chars, strings_model};
use protocol::{
    DiagFrameModel, DiagPacketModel, DiagnosticDecoder, Frame, HostCommand, NewlineMode, Packet,
    SampleFrame, SchemaFrame,
};

verus! {

pub const DEFAULT_TIMEOUT_MS: u64 = 50;

pub const DEFAULT_SCHEMA_WAIT_MS: u64 = 700;

pub const DEFAULT_STEP_WAIT_MS: u64 = 700;

pub const DEFAULT_OVERALL_TIMEOUT_MS: u64 = 4_500;

pub const DEFAULT_MAX_FRAME_BYTES: usize = 4_096;

const DEFAULT_HEX_PREVIEW_BYTES: usize = 12;

/// Which kind of command was sent last.
#[derive(Clone, Copy, Debug, PartialEq, Eq, Structural)]
pub enum CommandPath {
    Ascii,
    Binary,
}

/// Settings of one diagnostic run. Durations are in milliseconds.
#[derive(Clone, Debug, PartialEq, Eq)]
pub struct DiagConfig {
    pub port: String,
    pub baud_rate: u32,
    pub read_timeout_ms: u64,
    pub schema_wait_ms: u64,
    pub step_wait_ms: u64,
    pub overall_timeout_ms: u64,
    pub max_frame_bytes: usize,
    pub listen_only: bool,
    pub skip_ascii: bool,
    pub ascii_newline: NewlineMode,
}

/// The settings gathered from the arguments; `port` is absent until
/// `--port` is read.
pub struct DiagSettings {
    pub port: Option<Seq<char>>,
    pub baud_rate: u32,
    pub read_timeout_ms: u64,
    pub schema_wait_ms: u64,
    pub step_wait_ms: u64,
    pub overall_timeout_ms: u64,
    pub max_frame_bytes: usize,
    pub listen_only: bool,
    pub skip_ascii: bool,
    pub ascii_newline: NewlineMode,
}

impl View for DiagConfig {
    type V = DiagSettings;

    open spec fn view(&self) -> DiagSettings {
        DiagSettings {
            port: Some(self.port@),
            baud_rate: self.baud_rate,
            read_timeout_ms: self.read_timeout_ms,
            schema_wait_ms: self.schema_wait_ms,
            step_wait_ms: self.step_wait_ms,
            overall_timeout_ms: self.overall_timeout_ms,
            max_frame_bytes: self.max_frame_bytes,
            listen_only: self.listen_only,
            skip_ascii: self.skip_ascii,
            ascii_newline: self.ascii_newline,
        }
    }
}

/// The settings before any argument is read.
pub open spec fn default_settings() -> DiagSettings {
    DiagSettings {
        port: None,
        baud_rate: 115_200,
        read_timeout_ms: DEFAULT_TIMEOUT_MS,
        schema_wait_ms: DEFAULT_SCHEMA_WAIT_MS,
        step_wait_ms: DEFAULT_STEP_WAIT_MS,
        overall_timeout_ms: DEFAULT_OVERALL_TIMEOUT_MS,
        max_frame_bytes: DEFAULT_MAX_FRAME_BYTES,
        listen_only: false,
        skip_ascii: false,
        ascii_newline: NewlineMode::Lf,
    }
}

/// The usage text of the diagnostic.
pub open spec fn diag_usage() -> Seq<char> {
    "Usage:\n  cargo run --bin bmi088-handshake-diag -- --port <name> [--baud <rate>] [--read-timeout-ms <ms>] [--schema-wait-ms <ms>] [--step-wait-ms <ms>] [--overall-timeout-ms <ms>] [--max-frame-bytes <bytes>] [--ascii-newline <none|lf|crlf>] [--listen-only] [--skip-ascii]\n\nDefaults:\n  baud = 115200\n  read-timeout-ms = "@
        + decimal(DEFAULT_TIMEOUT_MS as nat) + "\n  schema-wait-ms = "@ + decimal(
        DEFAULT_SCHEMA_WAIT_MS as nat,
    ) + "\n  step-wait-ms = "@ + decimal(DEFAULT_STEP_WAIT_MS as nat)
        + "\n  overall-timeout-ms = "@ + decimal(DEFAULT_OVERALL_TIMEOUT_MS as nat)
        + "\n  max-frame-bytes = "@ + decimal(DEFAULT_MAX_FRAME_BYTES as nat)
        + "\n  ascii-newline = lf"@
}

/// The newline mode named by an argument.
pub open spec fn newline_from_text(s: Seq<char>) -> Option<NewlineMode> {
    if s == "none"@ {
        Some(NewlineMode::NoNewline)
    } else if s == "lf"@ {
        Some(NewlineMode::Lf)
    } else if s == "crlf"@ {
        Some(NewlineMode::Crlf)
    } else {
        None
    }
}

/// Error text for an unknown newline mode.
pub open spec fn invalid_newline_text(value: Seq<char>) -> Seq<char> {
    "Invalid value for --ascii-newline: "@ + value + "\n\n"@ + diag_usage()
}

/// Whether a flag takes a value.
pub open spec fn is_value_flag(a: Seq<char>) -> bool {
    a == "--port"@ || a == "--baud"@ || a == "--read-timeout-ms"@ || a == "--schema-wait-ms"@ || a
        == "--step-wait-ms"@ || a == "--overall-timeout-ms"@ || a == "--max-frame-bytes"@ || a
        == "--ascii-newline"@
}

/// The settings with the millisecond value of `flag` set to `n`.
pub open spec fn set_millis(flag: Seq<char>, n: u64, st: DiagSettings) -> DiagSettings {
    if flag == "--read-timeout-ms"@ {
        DiagSettings { read_timeout_ms: n, ..st }
    } else if flag == "--schema-wait-ms"@ {
        DiagSettings { schema_wait_ms: n, ..st }
    } else if flag == "--step-wait-ms"@ {
        DiagSettings { step_wait_ms: n, ..st }
    } else {
        DiagSettings { overall_timeout_ms: n, ..st }
    }
}

/// The settings after a flag and its value.
pub open spec fn apply_value_flag(flag: Seq<char>, value: Seq<char>, st: DiagSettings) -> Result<
    DiagSettings,
    Seq<char>,
> {
    if flag == "--port"@ {
        Ok(DiagSettings { port: Some(value), ..st })
    } else if flag == "--baud"@ {
        match parse_bounded(value, u32::MAX as int) {
            Some(n) => Ok(DiagSettings { baud_rate: n as u32, ..st }),
            None => Err(invalid_number_text(flag, value, diag_usage())),
        }
    } else if flag == "--read-timeout-ms"@ || flag == "--schema-wait-ms"@ || flag
        == "--step-wait-ms"@ || flag == "--overall-timeout-ms"@ {
        match parse_bounded(value, u64::MAX as int) {
            Some(n) => Ok(set_millis(flag, n as u64, st)),
            None => Err(invalid_number_text(flag, value, diag_usage())),
        }
    } else if flag == "--max-frame-bytes"@ {
        match parse_bounded(value, usize::MAX as int) {
            Some(n) => Ok(DiagSettings { max_frame_bytes: n as usize, ..st }),
            None => Err(invalid_number_text(flag, value, diag_usage())),
        }
    } else {
        match newline_from_text(value) {
            Some(m) => Ok(DiagSettings { ascii_newline: m, ..st }),
            None => Err(invalid_newline_text(value)),
        }
    }
}

/// Reads the arguments from position `i` on, left to right; the first bad
/// argument decides the error.
pub open spec fn diag_scan(args: Seq<Seq<char>>, i: int, st: DiagSettings) -> Result<
    DiagSettings,
    Seq<char>,
>
    decreases args.len() - i,
{
    if i < 0 || i >= args.len() {
        Ok(st)
    } else {
        let a = args[i];
        if a == "--listen-only"@ {
            diag_scan(args, i + 1, DiagSettings { listen_only: true, ..st })
        } else if a == "--skip-ascii"@ {
            diag_scan(args, i + 1, DiagSettings { skip_ascii: true, ..st })
        } else if a == "--help"@ || a == "-h"@ {
            Err(diag_usage())
        } else if !is_value_flag(a) {
            Err(unknown_flag_text(a, diag_usage()))
        } else if i + 1 >= args.len() {
            Err(missing_value_text(a, diag_usage()))
        } else {
            match apply_value_flag(a, args[i + 1], st) {
                Ok(next) => diag_scan(args, i + 2, next),
                Err(e) => Err(e),
            }
        }
    }
}

/// What the argument list of the diagnostic gives: the settings, or the
/// text of the usage error.
pub open spec fn diag_parse(args: Seq<Seq<char>>) -> Result<DiagSettings, Seq<char>> {
    match diag_scan(args, 0, default_settings()) {
        Ok(st) => if st.port is Some {
            Ok(st)
        } else {
            Err(missing_flag_text("--port"@, diag_usage()))
        },
        Err(e) => Err(e),
    }
}

/// The usage text of the diagnostic.
pub fn usage() -> (out: String)
    ensures
        out@ == diag_usage(),
{
    let mut s = owned(
        "Usage:\n  cargo run --bin bmi088-handshake-diag -- --port <name> [--baud <rate>] [--read-timeout-ms <ms>] [--schema-wait-ms <ms>] [--step-wait-ms <ms>] [--overall-timeout-ms <ms>] [--max-frame-bytes <bytes>] [--ascii-newline <none|lf|crlf>] [--listen-only] [--skip-ascii]\n\nDefaults:\n  baud = 115200\n  read-timeout-ms = ",
    );
    s.append(format_u64(DEFAULT_TIMEOUT_MS).as_str());
    s.append("\n  schema-wait-ms = ");
    s.append(format_u64(DEFAULT_SCHEMA_WAIT_MS).as_str());
    s.append("\n  step-wait-ms = ");
    s.append(format_u64(DEFAULT_STEP_WAIT_MS).as_str());
    s.append("\n  overall-timeout-ms = ");
    s.append(format_u64(DEFAULT_OVERALL_TIMEOUT_MS).as_str());
    s.append("\n  max-frame-bytes = ");
    s.append(format_u64(DEFAULT_MAX_FRAME_BYTES as u64).as_str());
    s.append("\n  ascii-newline = lf");
    s
}

/// Reads a newline mode: `none`, `lf` or `crlf`.
pub fn parse_newline_mode(value: &str) -> (r: Result<NewlineMode, AppError>)
    ensures
        match newline_from_text(value@) {
            Some(m) => r matches Ok(x) && x == m,
            None => r matches Err(AppError::Usage(e)) && e@ == invalid_newline_text(value@),
        },
{
    if str_eq(value, "none") {
        Ok(NewlineMode::NoNewline)
    } else if str_eq(value, "lf") {
        Ok(NewlineMode::Lf)
    } else if str_eq(value, "crlf") {
        Ok(NewlineMode::Crlf)
    } else {
        let mut s = owned("Invalid value for --ascii-newline: ");
        s.append(value);
        Err(usage_error(s, usage().as_str()))
    }
}

/// The name of a newline mode.
pub open spec fn newline_text(mode: NewlineMode) -> Seq<char> {
    match mode {
        NewlineMode::NoNewline => "none"@,
        NewlineMode::Lf => "lf"@,
        NewlineMode::Crlf => "crlf"@,
    }
}

/// The name of every newline mode reads back as that mode.
pub proof fn lemma_newline_label_parses_back(mode: NewlineMode)
    ensures
        newline_from_text(newline_text(mode)) == Some(mode),
{
    reveal_strlit("none");
    reveal_strlit("lf");
    reveal_strlit("crlf");
    assert("none"@.len() == 4);
    assert("lf"@.len() == 2);
    assert("crlf"@.len() == 4);
    assert("crlf"@[0] != "none"@[0]);
}

/// The name of a newline mode.
pub fn newline_label(mode: NewlineMode) -> (out: &'static str)
    ensures
        out@ == newline_text(mode),
{
    match mode {
        NewlineMode::NoNewline => "none",
        NewlineMode::Lf => "lf",
        NewlineMode::Crlf => "crlf",
    }
}

/// Whether a flag takes a value.
fn value_flag(a: &str) -> (r: bool)
    ensures
        r == is_value_flag(a@),
{
    str_eq(a, "--port") || str_eq(a, "--baud") || str_eq(a, "--read-timeout-ms") || str_eq(
        a,
        "--schema-wait-ms",
    ) || str_eq(a, "--step-wait-ms") || str_eq(a, "--overall-timeout-ms") || str_eq(
        a,
        "--max-frame-bytes",
    ) || str_eq(a, "--ascii-newline")
}

/// The settings while the arguments are read.
struct DiagArgs {
    port: Option<String>,
    baud_rate: u32,
    read_timeout_ms: u64,
    schema_wait_ms: u64,
    step_wait_ms: u64,
    overall_timeout_ms: u64,
    max_frame_bytes: usize,
    listen_only: bool,
    skip_ascii: bool,
    ascii_newline: NewlineMode,
}

impl View for DiagArgs {
    type V = DiagSettings;

    closed spec fn view(&self) -> DiagSettings {
        DiagSettings {
            port: match self.port {
                Some(p) => Some(p@),
                None => None,
            },
            baud_rate: self.baud_rate,
            read_timeout_ms: self.read_timeout_ms,
            schema_wait_ms: self.schema_wait_ms,
            step_wait_ms: self.step_wait_ms,
            overall_timeout_ms: self.overall_timeout_ms,
            max_frame_bytes: self.max_frame_bytes,
            listen_only: self.listen_only,
            skip_ascii: self.skip_ascii,
            ascii_newline: self.ascii_newline,
        }
    }
}

impl DiagArgs {
    /// Applies a flag that takes a value.
    fn apply(&mut self, flag: &str, value: String) -> (r: Result<(), AppError>)
        requires
            is_value_flag(flag@),
        ensures
            match apply_value_flag(flag@, value@, old(self)@) {
                Ok(st) => r is Ok && final(self)@ == st,
                Err(e) => r matches Err(AppError::Usage(m)) && m@ == e,
            },
    {
        if str_eq(flag, "--port") {
            self.port = Some(value);
            Ok(())
        } else if str_eq(flag, "--baud") {
            let u = usage();
            match parse_u32_value(value.as_str(), flag, u.as_str()) {
                Ok(n) => {
                    self.baud_rate = n;
                    Ok(())
                },
                Err(e) => Err(e),
            }
        } else if str_eq(flag, "--read-timeout-ms") || str_eq(flag, "--schema-wait-ms") || str_eq(
            flag,
            "--step-wait-ms",
        ) || str_eq(flag, "--overall-timeout-ms") {
            let u = usage();
            match parse_u64_value(value.as_str(), flag, u.as_str()) {
                Ok(n) => {
                    if str_eq(flag, "--read-timeout-ms") {
                        self.read_timeout_ms = n;
                    } else if str_eq(flag, "--schema-wait-ms") {
                        self.schema_wait_ms = n;
                    } else if str_eq(flag, "--step-wait-ms") {
                        self.step_wait_ms = n;
                    } else {
                        self.overall_timeout_ms = n;
                    }
                    Ok(())
                },
                Err(e) => Err(e),
            }
        } else if str_eq(flag, "--max-frame-bytes") {
            let u = usage();
            match parse_usize_value(value.as_str(), flag, u.as_str()) {
                Ok(n) => {
                    self.max_frame_bytes = n;
                    Ok(())
                },
                Err(e) => Err(e),
            }
        } else {
            match parse_newline_mode(value.as_str()) {
                Ok(m) => {
                    self.ascii_newline = m;
                    Ok(())
                },
                Err(e) => Err(e),
            }
        }
    }
}

/// Reads the arguments of the diagnostic (without the program name).
pub fn parse_args(args: Vec<String>) -> (r: Result<DiagConfig, AppError>)
    ensures
        match diag_parse(args_model(args@)) {
            Ok(st) => r matches Ok(c) && c@ == st,
            Err(e) => r matches Err(AppError::Usage(m)) && m@ == e,
        },
{
    let ghost model = args_model(args@);
    let mut acc = DiagArgs {
        port: None,
        baud_rate: 115_200,
        read_timeout_ms: DEFAULT_TIMEOUT_MS,
        schema_wait_ms: DEFAULT_SCHEMA_WAIT_MS,
        step_wait_ms: DEFAULT_STEP_WAIT_MS,
        overall_timeout_ms: DEFAULT_OVERALL_TIMEOUT_MS,
        max_frame_bytes: DEFAULT_MAX_FRAME_BYTES,
        listen_only: false,
        skip_ascii: false,
        ascii_newline: NewlineMode::Lf,
    };
    let mut index: usize = 0;
    while index < args.len()
        invariant
            index <= args.len(),
            model == args_model(args@),
            diag_scan(model, 0, default_settings()) == diag_scan(model, index as int, acc@),
        decreases args.len() - index,
    {
        let a = args[index].as_str();
        assert(model[index as int] == a@);
        if str_eq(a, "--listen-only") {
            acc.listen_only = true;
        } else if str_eq(a, "--skip-ascii") {
            acc.skip_ascii = true;
        } else if str_eq(a, "--help") || str_eq(a, "-h") {
            return Err(AppError::Usage(usage()));
        } else if !value_flag(a) {
            return Err(unknown_flag(a, usage().as_str()));
        } else {
            let u = usage();
            let value = match next_value(args.as_slice(), &mut index, a, u.as_str()) {
                Ok(v) => v,
                Err(e) => {
                    return Err(e);
                },
            };
            assert(model[index as int] == value@);
            match acc.apply(a, value) {
                Ok(()) => {},
                Err(e) => {
                    return Err(e);
                },
            }
        }
        index = index + 1;
    }
    match acc.port {
        Some(port) => Ok(
            DiagConfig {
                port,
                baud_rate: acc.baud_rate,
                read_timeout_ms: acc.read_timeout_ms,
                schema_wait_ms: acc.schema_wait_ms,
                step_wait_ms: acc.step_wait_ms,
                overall_timeout_ms: acc.overall_timeout_ms,
                max_frame_bytes: acc.max_frame_bytes,
                listen_only: acc.listen_only,
                skip_ascii: acc.skip_ascii,
                ascii_newline: acc.ascii_newline,
            },
        ),
        None => Err(missing_flag("--port", usage().as_str())),
    }
}

/// Counters of one diagnostic run.
#[derive(Clone, Debug, PartialEq, Eq, Structural)]
pub struct DiagStats {
    pub raw_chunk_count: usize,
    pub raw_bytes_total: usize,
    pub largest_chunk: usize,
    pub text_count: usize,
    pub identity_count: usize,
    pub schema_count: usize,
    pub sample_count: usize,
    pub unknown_frame_count: usize,
    pub invalid_crc_count: usize,
    pub malformed_frame_count: usize,
    pub desync_drop_bytes: usize,
    pub first_sample_path: Option<CommandPath>,
}

/// All counters zero and no sample seen.
pub open spec fn zero_stats() -> DiagStats {
    DiagStats {
        raw_chunk_count: 0,
        raw_bytes_total: 0,
        largest_chunk: 0,
        text_count: 0,
        identity_count: 0,
        schema_count: 0,
        sample_count: 0,
        unknown_frame_count: 0,
        invalid_crc_count: 0,
        malformed_frame_count: 0,
        desync_drop_bytes: 0,
        first_sample_path: None,
    }
}

impl Default for DiagStats {
    fn default() -> (out: Self)
        ensures
            out == zero_stats(),
    {
        DiagStats {
            raw_chunk_count: 0,
            raw_bytes_total: 0,
            largest_chunk: 0,
            text_count: 0,
            identity_count: 0,
            schema_count: 0,
            sample_count: 0,
            unknown_frame_count: 0,
            invalid_crc_count: 0,
            malformed_frame_count: 0,
            desync_drop_bytes: 0,
            first_sample_path: None,
        }
    }
}

/// The conclusion of a run: a short title and an explanation.
#[derive(Clone, Debug)]
pub struct Verdict {
    pub title: &'static str,
    pub detail: String,
}

/// The title of the verdict for the final counters.
pub open spec fn verdict_title(s: DiagStats) -> Seq<char> {
    if s.sample_count > 0 {
        "samples-flowing"@
    } else if s.schema_count >= 2 {
        "schema-repeating-no-samples"@
    } else if s.schema_count == 1 {
        "schema-once-no-samples"@
    } else if s.text_count > 0 {
        "text-only-traffic"@
    } else if s.raw_bytes_total == 0 {
        "no-data-seen"@
    } else {
        "raw-no-valid-frames"@
    }
}

/// The explanation of the verdict for the final counters.
pub open spec fn verdict_detail(s: DiagStats) -> Seq<char> {
    if s.sample_count > 0 {
        match s.first_sample_path {
            Some(CommandPath::Ascii) => "ASCII ACK/START unlocked samples. MCU RX path is alive, so your binary host framing or CRC is the likely failure."@,
            Some(CommandPath::Binary) => "Spec-correct binary ACK/START unlocked samples. The current host implementation is likely using the wrong BMI088 frame layout or CRC range."@,
            None => "Samples are flowing. The link is alive and the device is already streaming."@,
        }
    } else if s.schema_count >= 2 {
        "MCU is alive and keeps resending SCHEMA, but the handshake never completed. Check host TX routing, ACK -> START order, and CRC correctness."@
    } else if s.schema_count == 1 {
        "A valid SCHEMA arrived, but no samples followed. This usually means ACK/START never landed or were rejected."@
    } else if s.text_count > 0 {
        "Only text traffic was observed. You may be on the wrong port, wrong baud, or a plain-text console path instead of BMI088 binary telemetry."@
    } else if s.raw_bytes_total == 0 {
        "No data arrived at all. Check the selected serial device, 115200 8N1, board power, and P19 shared UART wiring."@
    } else {
        "Bytes arrived, but no valid SCHEMA/SAMPLE frames decoded. This usually points to wrong baud, wrong protocol layout, or CRC/header mismatch."@
    }
}

/// Builds the verdict from the final counters.
pub fn build_verdict(stats: &DiagStats) -> (out: Verdict)
    ensures
        out.title@ == verdict_title(*stats),
        out.detail@ == verdict_detail(*stats),
{
    if stats.sample_count > 0 {
        let detail = match stats.first_sample_path {
            Some(CommandPath::Ascii) => owned(
                "ASCII ACK/START unlocked samples. MCU RX path is alive, so your binary host framing or CRC is the likely failure.",
            ),
            Some(CommandPath::Binary) => owned(
                "Spec-correct binary ACK/START unlocked samples. The current host implementation is likely using the wrong BMI088 frame layout or CRC range.",
            ),
            None => owned(
                "Samples are flowing. The link is alive and the device is already streaming.",
            ),
        };
        return Verdict { title: "samples-flowing", detail };
    }
    if stats.schema_count >= 2 {
        return Verdict {
            title: "schema-repeating-no-samples",
            detail: owned(
                "MCU is alive and keeps resending SCHEMA, but the handshake never completed. Check host TX routing, ACK -> START order, and CRC correctness.",
            ),
        };
    }
    if stats.schema_count == 1 {
        return Verdict {
            title: "schema-once-no-samples",
            detail: owned(
                "A valid SCHEMA arrived, but no samples followed. This usually means ACK/START never landed or were rejected.",
            ),
        };
    }
    if stats.text_count > 0 {
        return Verdict {
            title: "text-only-traffic",
            detail: owned(
                "Only text traffic was observed. You may be on the wrong port, wrong baud, or a plain-text console path instead of BMI088 binary telemetry.",
            ),
        };
    }
    if stats.raw_bytes_total == 0 {
        return Verdict {
            title: "no-data-seen",
            detail: owned(
                "No data arrived at all. Check the selected serial device, 115200 8N1, board power, and P19 shared UART wiring.",
            ),
        };
    }
    Verdict {
        title: "raw-no-valid-frames",
        detail: owned(
            "Bytes arrived, but no valid SCHEMA/SAMPLE frames decoded. This usually points to wrong baud, wrong protocol layout, or CRC/header mismatch.",
        ),
    }
}

/// Whether a received chunk is still worth logging: the first eight
/// always, and up to twenty while no sample has arrived.
pub fn should_log_raw(stats: &DiagStats) -> (r: bool)
    ensures
        r == (stats.raw_chunk_count <= 8 || (stats.sample_count == 0 && stats.raw_chunk_count
            <= 20)),
{
    stats.raw_chunk_count <= 8 || (stats.sample_count == 0 && stats.raw_chunk_count <= 20)
}

/// The length of the part of a wait that still fits in the overall budget:
/// the smaller of the time left and the time asked for.
pub fn observe_window_ms(overall_timeout_ms: u64, elapsed_ms: u64, requested_ms: u64) -> (out: u64)
    ensures
        out == if elapsed_ms >= overall_timeout_ms {
            0
        } else if overall_timeout_ms - elapsed_ms < requested_ms {
            (overall_timeout_ms - elapsed_ms) as u64
        } else {
            requested_ms
        },
{
    let remaining = if elapsed_ms >= overall_timeout_ms {
        0
    } else {
        overall_timeout_ms - elapsed_ms
    };
    if remaining < requested_ms {
        remaining
    } else {
        requested_ms
    }
}

/// The counters after one decoded item; `last` is the kind of the command
/// sent last, which a first sample is credited to.
pub open spec fn count_packet(s: DiagStats, p: DiagPacketModel, last: Option<CommandPath>) -> DiagStats {
    match p {
        DiagPacketModel::Text(_) => DiagStats { text_count: (s.text_count + 1) as usize, ..s },
        DiagPacketModel::Frame(DiagFrameModel::Identity(_)) => DiagStats {
            identity_count: (s.identity_count + 1) as usize,
            ..s
        },
        DiagPacketModel::Frame(DiagFrameModel::Schema(_)) => DiagStats {
            schema_count: (s.schema_count + 1) as usize,
            ..s
        },
        DiagPacketModel::Frame(DiagFrameModel::Sample(_)) => DiagStats {
            sample_count: (s.sample_count + 1) as usize,
            first_sample_path: if s.first_sample_path is None {
                last
            } else {
                s.first_sample_path
            },
            ..s
        },
        DiagPacketModel::Frame(DiagFrameModel::Unknown { .. }) => DiagStats {
            unknown_frame_count: (s.unknown_frame_count + 1) as usize,
            ..s
        },
    }
}

/// The state of one diagnostic run.
#[derive(Debug)]
pub struct RunState {
    pub decoder: DiagnosticDecoder,
    pub stats: DiagStats,
    pub last_command_path: Option<CommandPath>,
    pub schema: Option<SchemaFrame>,
    pub tx_seq: u8,
}

impl RunState {
    /// A fresh run whose decoder holds at most `max_frame_bytes` bytes.
    pub fn new(max_frame_bytes: usize) -> (out: Self)
        ensures
            out.decoder@.buffer.len() == 0,
            out.decoder@.pending_text.len() == 0,
            out.decoder@.schema is None,
            out.decoder@.max_buffer_bytes == if max_frame_bytes > 1 {
                max_frame_bytes
            } else {
                1
            },
            out.decoder@.invalid_crc_count == 0,
            out.decoder@.malformed_frame_count == 0,
            out.decoder@.desync_drop_bytes == 0,
            out.stats == zero_stats(),
            out.last_command_path is None,
            out.schema is None,
            out.tx_seq == 0,
    {
        RunState {
            decoder: DiagnosticDecoder::new(max_frame_bytes),
            stats: DiagStats::default(),
            last_command_path: None,
            schema: None,
            tx_seq: 0,
        }
    }

    /// Counts one received chunk of `len` bytes.
    pub fn record_chunk(&mut self, len: usize)
        requires
            old(self).stats.raw_chunk_count < usize::MAX,
            old(self).stats.raw_bytes_total + len <= usize::MAX,
        ensures
            final(self).stats == (DiagStats {
                raw_chunk_count: (old(self).stats.raw_chunk_count + 1) as usize,
                raw_bytes_total: (old(self).stats.raw_bytes_total + len) as usize,
                largest_chunk: if len > old(self).stats.largest_chunk {
                    len
                } else {
                    old(self).stats.largest_chunk
                },
                ..old(self).stats
            }),
            final(self).decoder == old(self).decoder,
            final(self).last_command_path == old(self).last_command_path,
            final(self).schema == old(self).schema,
            final(self).tx_seq == old(self).tx_seq,
    {
        self.stats.raw_chunk_count = self.stats.raw_chunk_count + 1;
        self.stats.raw_bytes_total = self.stats.raw_bytes_total + len;
        if len > self.stats.largest_chunk {
            self.stats.largest_chunk = len;
        }
    }

    /// Copies the decoder's discard counters into the run's counters.
    pub fn sync_decoder_counters(&mut self)
        ensures
            final(self).stats == (DiagStats {
                invalid_crc_count: old(self).decoder@.invalid_crc_count as usize,
                malformed_frame_count: old(self).decoder@.malformed_frame_count as usize,
                desync_drop_bytes: old(self).decoder@.desync_drop_bytes as usize,
                ..old(self).stats
            }),
            final(self).decoder == old(self).decoder,
            final(self).last_command_path == old(self).last_command_path,
            final(self).schema == old(self).schema,
            final(self).tx_seq == old(self).tx_seq,
    {
        self.stats.invalid_crc_count = self.decoder.invalid_crc_count();
        self.stats.malformed_frame_count = self.decoder.malformed_frame_count();
        self.stats.desync_drop_bytes = self.decoder.desync_drop_bytes();
    }

    /// Counts one decoded item, keeps the latest schema, and copies the
    /// decoder's discard counters.
    pub fn handle_packet(&mut self, packet: Packet)
        requires
            old(self).stats.text_count < usize::MAX,
            old(self).stats.identity_count < usize::MAX,
            old(self).stats.schema_count < usize::MAX,
            old(self).stats.sample_count < usize::MAX,
            old(self).stats.unknown_frame_count < usize::MAX,
        ensures
            final(self).stats == (DiagStats {
                invalid_crc_count: old(self).decoder@.invalid_crc_count as usize,
                malformed_frame_count: old(self).decoder@.malformed_frame_count as usize,
                desync_drop_bytes: old(self).decoder@.desync_drop_bytes as usize,
                ..count_packet(old(self).stats, packet@, old(self).last_command_path)
            }),
            match packet@ {
                DiagPacketModel::Frame(DiagFrameModel::Schema(m)) => final(self).schema matches Some(
                    x,
                ) && x@ == m,
                _ => final(self).schema == old(self).schema,
            },
            final(self).decoder == old(self).decoder,
            final(self).last_command_path == old(self).last_command_path,
            final(self).tx_seq == old(self).tx_seq,
    {
        match packet {
            Packet::Text(_) => {
                self.stats.text_count = self.stats.text_count + 1;
            },
            Packet::Frame(Frame::Identity(_)) => {
                self.stats.identity_count = self.stats.identity_count + 1;
            },
            Packet::Frame(Frame::Schema(schema)) => {
                self.stats.schema_count = self.stats.schema_count + 1;
                self.schema = Some(schema);
            },
            Packet::Frame(Frame::Sample(_)) => {
                self.stats.sample_count = self.stats.sample_count + 1;
                if self.stats.first_sample_path.is_none() {
                    self.stats.first_sample_path = self.last_command_path;
                }
            },
            Packet::Frame(Frame::Unknown { .. }) => {
                self.stats.unknown_frame_count = self.stats.unknown_frame_count + 1;
            },
        }
        self.sync_decoder_counters();
    }

    /// Takes the sequence number for the next binary command; the numbers
    /// wrap after 255.
    pub fn take_tx_seq(&mut self) -> (seq: u8)
        ensures
            seq == old(self).tx_seq,
            final(self).tx_seq == (if old(self).tx_seq == 255 {
                0
            } else {
                old(self).tx_seq + 1
            }),
            final(self).decoder == old(self).decoder,
            final(self).stats == old(self).stats,
            final(self).last_command_path == old(self).last_command_path,
            final(self).schema == old(self).schema,
    {
        let seq = self.tx_seq;
        self.tx_seq = self.tx_seq.wrapping_add(1);
        seq
    }

    /// Records that a command went out by `path`.
    pub fn mark_sent(&mut self, path: CommandPath)
        ensures
            final(self).last_command_path == Some(path),
            final(self).decoder == old(self).decoder,
            final(self).stats == old(self).stats,
            final(self).schema == old(self).schema,
            final(self).tx_seq == old(self).tx_seq,
    {
        self.last_command_path = Some(path);
    }
}

/// The commands of the probe, in the order they are tried.
#[derive(Clone, Copy, Debug, PartialEq, Eq, Structural)]
pub enum ProbeStage {
    AsciiAck,
    AsciiStart,
    BinaryReqSchema,
    BinaryAck,
    BinaryStart,
}

/// One command of the probe and how long to listen after it.
#[derive(Clone, Copy, Debug, PartialEq, Eq, Structural)]
pub struct ProbeCommand {
    pub stage: ProbeStage,
    pub path: CommandPath,
    pub command: HostCommand,
    pub wait_ms: u64,
}

/// The position of a stage in the probe.
pub open spec fn stage_rank(s: ProbeStage) -> int {
    match s {
        ProbeStage::AsciiAck => 0,
        ProbeStage::AsciiStart => 1,
        ProbeStage::BinaryReqSchema => 2,
        ProbeStage::BinaryAck => 3,
        ProbeStage::BinaryStart => 4,
    }
}

/// Whether the probe sends a stage's command: never when only listening or
/// once samples flow; the text commands unless they are skipped; the schema
/// request while no schema arrived; the binary ACK and START once one did.
pub open spec fn stage_applies(
    s: ProbeStage,
    c: DiagSettings,
    sample_count: usize,
    has_schema: bool,
) -> bool {
    !c.listen_only && sample_count == 0 && match s {
        ProbeStage::AsciiAck | ProbeStage::AsciiStart => !c.skip_ascii,
        ProbeStage::BinaryReqSchema => !has_schema,
        ProbeStage::BinaryAck | ProbeStage::BinaryStart => has_schema,
    }
}

/// The command of a stage: its path, command and listening time.
pub open spec fn stage_command(s: ProbeStage, c: DiagSettings) -> ProbeCommand {
    match s {
        ProbeStage::AsciiAck => ProbeCommand {
            stage: s,
            path: CommandPath::Ascii,
            command: HostCommand::Ack,
            wait_ms: c.step_wait_ms / 3,
        },
        ProbeStage::AsciiStart => ProbeCommand {
            stage: s,
            path: CommandPath::Ascii,
            command: HostCommand::Start,
            wait_ms: c.step_wait_ms,
        },
        ProbeStage::BinaryReqSchema => ProbeCommand {
            stage: s,
            path: CommandPath::Binary,
            command: HostCommand::ReqSchema,
            wait_ms: c.step_wait_ms,
        },
        ProbeStage::BinaryAck => ProbeCommand {
            stage: s,
            path: CommandPath::Binary,
            command: HostCommand::Ack,
            wait_ms: c.step_wait_ms / 3,
        },
        ProbeStage::BinaryStart => ProbeCommand {
            stage: s,
            path: CommandPath::Binary,
            command: HostCommand::Start,
            wait_ms: c.step_wait_ms,
        },
    }
}

/// The stage tried after `s`, if any.
pub fn stage_after(s: ProbeStage) -> (out: Option<ProbeStage>)
    ensures
        match out {
            Some(t) => stage_rank(t) == stage_rank(s) + 1,
            None => stage_rank(s) == 4,
        },
{
    match s {
        ProbeStage::AsciiAck => Some(ProbeStage::AsciiStart),
        ProbeStage::AsciiStart => Some(ProbeStage::BinaryReqSchema),
        ProbeStage::BinaryReqSchema => Some(ProbeStage::BinaryAck),
        ProbeStage::BinaryAck => Some(ProbeStage::BinaryStart),
        ProbeStage::BinaryStart => None,
    }
}

/// The stage at a position of the probe.
fn stage_at(rank: u8) -> (s: ProbeStage)
    requires
        rank < 5,
    ensures
        stage_rank(s) == rank,
{
    if rank == 0 {
        ProbeStage::AsciiAck
    } else if rank == 1 {
        ProbeStage::AsciiStart
    } else if rank == 2 {
        ProbeStage::BinaryReqSchema
    } else if rank == 3 {
        ProbeStage::BinaryAck
    } else {
        ProbeStage::BinaryStart
    }
}

fn rank_of(s: ProbeStage) -> (r: u8)
    ensures
        r == stage_rank(s),
{
    match s {
        ProbeStage::AsciiAck => 0,
        ProbeStage::AsciiStart => 1,
        ProbeStage::BinaryReqSchema => 2,
        ProbeStage::BinaryAck => 3,
        ProbeStage::BinaryStart => 4,
    }
}

/// The next command of the probe at or after stage `from`, given the
/// samples counted and whether a schema arrived; `None` when the probe has
/// nothing more to send.
pub fn next_probe_command(
    from: ProbeStage,
    config: &DiagConfig,
    sample_count: usize,
    has_schema: bool,
) -> (out: Option<ProbeCommand>)
    ensures
        match out {
            Some(c) => {
                &&& stage_rank(c.stage) >= stage_rank(from)
                &&& stage_applies(c.stage, config@, sample_count, has_schema)
                &&& c == stage_command(c.stage, config@)
                &&& forall|t: ProbeStage|
                    stage_rank(from) <= #[trigger] stage_rank(t) < stage_rank(c.stage)
                        ==> !stage_applies(t, config@, sample_count, has_schema)
            },
            None => forall|t: ProbeStage|
                #[trigger] stage_rank(t) >= stage_rank(from) ==> !stage_applies(
                    t,
                    config@,
                    sample_count,
                    has_schema,
                ),
        },
{
    let mut rank = rank_of(from);
    while rank < 5
        invariant
            stage_rank(from) <= rank <= 5,
            forall|t: ProbeStage|
                stage_rank(from) <= #[trigger] stage_rank(t) < rank ==> !stage_applies(
                    t,
                    config@,
                    sample_count,
                    has_schema,
                ),
        decreases 5 - rank,
    {
        let stage = stage_at(rank);
        let go = !config.listen_only && sample_count == 0 && match stage {
            ProbeStage::AsciiAck | ProbeStage::AsciiStart => !config.skip_ascii,
            ProbeStage::BinaryReqSchema => !has_schema,
            ProbeStage::BinaryAck | ProbeStage::BinaryStart => has_schema,
        };
        if go {
            let (path, command, wait_ms) = match stage {
                ProbeStage::AsciiAck => (CommandPath::Ascii, HostCommand::Ack, config.step_wait_ms / 3),
                ProbeStage::AsciiStart => (CommandPath::Ascii, HostCommand::Start, config.step_wait_ms),
                ProbeStage::BinaryReqSchema => (
                    CommandPath::Binary,
                    HostCommand::ReqSchema,
                    config.step_wait_ms,
                ),
                ProbeStage::BinaryAck => (CommandPath::Binary, HostCommand::Ack, config.step_wait_ms / 3),
                ProbeStage::BinaryStart => (
                    CommandPath::Binary,
                    HostCommand::Start,
                    config.step_wait_ms,
                ),
            };
            return Some(ProbeCommand { stage, path, command, wait_ms });
        }
        assert(forall|t: ProbeStage| stage_rank(t) == rank ==> t == stage);
        rank = rank + 1;
    }
    None
}

/// The character of a hexadecimal digit, upper case.
pub open spec fn hex_digit(n: int) -> char {
    if n < 10 {
        (n + 48) as char
    } else {
        (n + 55) as char
    }
}

/// Two upper-case hexadecimal digits of a byte.
pub open spec fn hex_byte(b: u8) -> Seq<char> {
    seq![hex_digit(b as int / 16), hex_digit(b as int % 16)]
}

/// Bytes as hexadecimal pairs separated by single spaces.
pub open spec fn hex_join(bytes: Seq<u8>) -> Seq<char>
    decreases bytes.len(),
{
    if bytes.len() == 0 {
        Seq::empty()
    } else if bytes.len() == 1 {
        hex_byte(bytes[0])
    } else {
        hex_join(bytes.drop_last()) + seq![' '] + hex_byte(bytes.last())
    }
}

pub fn hex_char(n: u8) -> (c: char)
    requires
        n < 16,
    ensures
        c == hex_digit(n as int),
{
    if n < 10 {
        (n + 48) as char
    } else {
        (n + 55) as char
    }
}

/// The first twelve bytes as upper-case hexadecimal pairs separated by
/// spaces.
pub fn hex_preview(bytes: &[u8]) -> (out: String)
    ensures
        out@ == hex_join(bytes@.take(
            if bytes@.len() < 12 {
                bytes@.len() as int
            } else {
                12
            },
        )),
{
    let n = if bytes.len() < DEFAULT_HEX_PREVIEW_BYTES {
        bytes.len()
    } else {
        DEFAULT_HEX_PREVIEW_BYTES
    };
    let mut chars: Vec<char> = Vec::new();
    let mut i: usize = 0;
    while i < n
        invariant
            i <= n <= bytes.len(),
            chars@ == hex_join(bytes@.take(i as int)),
        decreases n - i,
    {
        if i > 0 {
            chars.push(' ');
        }
        chars.push(hex_char(bytes[i] / 16));
        chars.push(hex_char(bytes[i] % 16));
        assert(bytes@.take(i + 1).drop_last() =~= bytes@.take(i as int));
        proof {
            if i == 0 {
                assert(chars@ =~= hex_byte(bytes@[0]));
            } else {
                assert(chars@ =~= hex_join(bytes@.take(i as int)) + seq![' '] + hex_byte(
                    bytes@[i as int],
                ));
            }
        }
        i = i + 1;
    }
    string_from_chars(chars.as_slice())
}

/// The smaller of two lengths.
pub open spec fn min_len(a: int, b: int) -> int {
    if a < b {
        a
    } else {
        b
    }
}

/// The items of a sample preview: up to three values, each after its
/// field's name and `=` when a schema is known.
pub open spec fn sample_preview_items(schema: Option<SchemaModel>, raw: Seq<i16>) -> Seq<Seq<char>> {
    match schema {
        Some(sc) => Seq::new(
            min_len(min_len(raw.len() as int, sc.fields.len() as int), 3) as nat,
            |i: int| sc.fields[i].name + "="@ + signed_decimal(raw[i] as int),
        ),
        None => Seq::new(
            min_len(raw.len() as int, 3) as nat,
            |i: int| signed_decimal(raw[i] as int),
        ),
    }
}

/// A short text of a sample's first values, separated by `, `.
pub fn sample_preview(schema: Option<&SchemaFrame>, sample: &SampleFrame) -> (out: String)
    ensures
        out@ == join(
            sample_preview_items(
                match schema {
                    Some(sc) => Some(sc@),
                    None => None,
                },
                sample.raw_values@,
            ),
            ", "@,
        ),
{
    let ghost sm = match schema {
        Some(sc) => Some(sc@),
        None => None::<SchemaModel>,
    };
    let ghost target = sample_preview_items(sm, sample.raw_values@);
    let mut n = sample.raw_values.len();
    match schema {
        Some(sc) => {
            if sc.fields.len() < n {
                n = sc.fields.len();
            }
        },
        None => {},
    }
    if n > 3 {
        n = 3;
    }
    assert(n == target.len());
    let mut items: Vec<String> = Vec::new();
    let mut i: usize = 0;
    while i < n
        invariant
            i <= n,
            n == target.len(),
            n <= sample.raw_values@.len(),
            sm == match schema {
                Some(sc) => Some(sc@),
                None => None::<SchemaModel>,
            },
            target == sample_preview_items(sm, sample.raw_values@),
            schema matches Some(sc) ==> n <= sc.fields@.len(),
            strings_model(items@) =~= target.take(i as int),
        decreases n - i,
    {
        let value = format_i64(sample.raw_values[i] as i64);
        let item = match schema {
            Some(sc) => {
                assert(sc@.fields[i as int] == sc.fields@[i as int]@);
                let mut t = sc.fields[i].name.clone();
                t.append("=");
                t.append(value.as_str());
                t
            },
            None => value,
        };
        assert(item@ == target[i as int]);
        let ghost before = items@;
        items.push(item);
        assert(strings_model(items@) =~= strings_model(before).push(item@));
        assert(strings_model(items@) =~= target.take(i + 1));
        i = i + 1;
    }
    assert(target.take(n as int) =~= target);
    join_strings(items.as_slice(), ", ")
}

/// The names of up to the first three fields of a schema, separated by
/// commas.
pub fn schema_names_preview(schema: &SchemaFrame) -> (out: String)
    ensures
        out@ == join(
            Seq::new(
                min_len(schema@.fields.len() as int, 3) as nat,
                |i: int| schema@.fields[i].name,
            ),
            ","@,
        ),
{
    let n = if schema.fields.len() < 3 {
        schema.fields.len()
    } else {
        3
    };
    let ghost target = Seq::new(
        min_len(schema@.fields.len() as int, 3) as nat,
        |i: int| schema@.fields[i].name,
    );
    let mut items: Vec<String> = Vec::new();
    let mut i: usize = 0;
    while i < n
        invariant
            i <= n <= schema.fields@.len(),
            n == target.len(),
            target == Seq::new(
                min_len(schema@.fields.len() as int, 3) as nat,
                |i: int| schema@.fields[i].name,
            ),
            strings_model(items@) =~= target.take(i as int),
        decreases n - i,
    {
        assert(schema@.fields[i as int] == schema.fields@[i as int]@);
        let item = schema.fields[i].name.clone();
        assert(item@ == target[i as int]);
        let ghost before = items@;
        items.push(item);
        assert(strings_model(items@) =~= strings_model(before).push(item@));
        assert(strings_model(items@) =~= target.take(i + 1));
        i = i + 1;
    }
    assert(target.take(n as int) =~= target);
    join_strings(items.as_slice(), ",")
}

} // verus!
