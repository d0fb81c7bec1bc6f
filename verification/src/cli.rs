//! Command-line parsing of the serial tool. Durations are in milliseconds.

use vstd::prelude::*;
use crate::args::{
    args_model, invalid_number_text, missing_flag, missing_flag_text, missing_value_text,
    next_value, parse_u32_value, parse_u64_value, unknown_flag, unknown_flag_text,
};
use crate::decimal::{
    decimal, format_u64, is_digit, lemma_decimal_digits, lemma_decimal_parses_back, parse_bounded,
};
use crate::error::AppError;
use crate::text::{owned, str_eq};

verus! {

pub const DEFAULT_BAUD_RATE: u32 = 115_200;

pub const DEFAULT_RETRY_DELAY_MS: u64 = 1_000;

pub const DEFAULT_READ_TIMEOUT_MS: u64 = 50;

pub const DEFAULT_LOOPBACK_TIMEOUT_MS: u64 = 1_000;

/// How received bytes are interpreted.
#[derive(Clone, Copy, Debug, PartialEq, Eq, Structural)]
pub enum ParserKind {
    Auto,
    Measurements,
    KeyValue,
    Bmi088,
    Mavlink,
    Crtp,
}

/// The commands of the tool.
#[derive(Clone, Debug, PartialEq, Eq)]
pub enum Command {
    Ports,
    Run(RunConfig),
    Send(SendConfig),
    LoopbackTest(LoopbackConfig),
}

/// Settings of the serial reader.
#[derive(Clone, Debug, PartialEq, Eq)]
pub struct RunConfig {
    pub port: String,
    pub baud_rate: u32,
    pub retry_delay_ms: u64,
    pub read_timeout_ms: u64,
}

/// Settings of a one-shot write.
#[derive(Clone, Debug, PartialEq, Eq)]
pub struct SendConfig {
    pub port: String,
    pub baud_rate: u32,
    pub read_timeout_ms: u64,
    pub payload: String,
    pub append_newline: bool,
}

/// Settings of a write that must come back on the same port.
#[derive(Clone, Debug, PartialEq, Eq)]
pub struct LoopbackConfig {
    pub send: SendConfig,
    pub loopback_timeout_ms: u64,
}

/// The reader settings gathered from the arguments.
pub struct RunSettings {
    pub port: Option<Seq<char>>,
    pub baud_rate: u32,
    pub retry_delay_ms: u64,
    pub read_timeout_ms: u64,
}

/// The write settings gathered from the arguments.
pub struct SendSettings {
    pub port: Option<Seq<char>>,
    pub payload: Option<Seq<char>>,
    pub baud_rate: u32,
    pub read_timeout_ms: u64,
    pub append_newline: bool,
}

/// Abstract value of a command.
pub enum CommandModel {
    Ports,
    Run(RunSettings),
    Send(SendSettings),
    LoopbackTest(SendSettings, u64),
}

impl View for RunConfig {
    type V = RunSettings;

    open spec fn view(&self) -> RunSettings {
        RunSettings {
            port: Some(self.port@),
            baud_rate: self.baud_rate,
            retry_delay_ms: self.retry_delay_ms,
            read_timeout_ms: self.read_timeout_ms,
        }
    }
}

impl View for SendConfig {
    type V = SendSettings;

    open spec fn view(&self) -> SendSettings {
        SendSettings {
            port: Some(self.port@),
            payload: Some(self.payload@),
            baud_rate: self.baud_rate,
            read_timeout_ms: self.read_timeout_ms,
            append_newline: self.append_newline,
        }
    }
}

impl View for Command {
    type V = CommandModel;

    open spec fn view(&self) -> CommandModel {
        match self {
            Command::Ports => CommandModel::Ports,
            Command::Run(c) => CommandModel::Run(c@),
            Command::Send(c) => CommandModel::Send(c@),
            Command::LoopbackTest(c) => CommandModel::LoopbackTest(c.send@, c.loopback_timeout_ms),
        }
    }
}

/// The usage text of the tool.
pub open spec fn cli_usage() -> Seq<char> {
    "Usage:\n  eadai ports\n  eadai run --port <name> [--baud <rate>] [--retry-ms <ms>] [--read-timeout-ms <ms>]\n  eadai send --port <name> --payload <text> [--baud <rate>] [--read-timeout-ms <ms>] [--no-newline]\n  eadai loopback-test --port <name> --payload <text> [--baud <rate>] [--read-timeout-ms <ms>] [--loopback-timeout-ms <ms>] [--no-newline]\n\nDefaults:\n  baud = "@
        + decimal(DEFAULT_BAUD_RATE as nat) + "\n  retry-ms = "@ + decimal(
        DEFAULT_RETRY_DELAY_MS as nat,
    ) + "\n  read-timeout-ms = "@ + decimal(DEFAULT_READ_TIMEOUT_MS as nat)
        + "\n  loopback-timeout-ms = "@ + decimal(DEFAULT_LOOPBACK_TIMEOUT_MS as nat) + "\n"@
}

/// Returns the usage text.
pub fn usage() -> (out: String)
    ensures
        out@ == cli_usage(),
{
    let mut s = owned(
        "Usage:\n  eadai ports\n  eadai run --port <name> [--baud <rate>] [--retry-ms <ms>] [--read-timeout-ms <ms>]\n  eadai send --port <name> --payload <text> [--baud <rate>] [--read-timeout-ms <ms>] [--no-newline]\n  eadai loopback-test --port <name> --payload <text> [--baud <rate>] [--read-timeout-ms <ms>] [--loopback-timeout-ms <ms>] [--no-newline]\n\nDefaults:\n  baud = ",
    );
    s.append(format_u64(DEFAULT_BAUD_RATE as u64).as_str());
    s.append("\n  retry-ms = ");
    s.append(format_u64(DEFAULT_RETRY_DELAY_MS).as_str());
    s.append("\n  read-timeout-ms = ");
    s.append(format_u64(DEFAULT_READ_TIMEOUT_MS).as_str());
    s.append("\n  loopback-timeout-ms = ");
    s.append(format_u64(DEFAULT_LOOPBACK_TIMEOUT_MS).as_str());
    s.append("\n");
    s
}

/// Reads a number flag's value, or gives the error text.
pub open spec fn number_or_error(flag: Seq<char>, value: Seq<char>, max: int) -> Result<int, Seq<char>> {
    match parse_bounded(value, max) {
        Some(n) => Ok(n),
        None => Err(invalid_number_text(flag, value, cli_usage())),
    }
}

/// Reads the reader's arguments from position `i` on.
pub open spec fn run_scan(args: Seq<Seq<char>>, i: int, st: RunSettings) -> Result<RunSettings, Seq<char>>
    decreases args.len() - i,
{
    if i < 0 || i >= args.len() {
        Ok(st)
    } else {
        let a = args[i];
        if a == "--port"@ || a == "--baud"@ || a == "--retry-ms"@ || a == "--read-timeout-ms"@ {
            if i + 1 >= args.len() {
                Err(missing_value_text(a, cli_usage()))
            } else {
                let v = args[i + 1];
                if a == "--port"@ {
                    run_scan(args, i + 2, RunSettings { port: Some(v), ..st })
                } else if a == "--baud"@ {
                    match number_or_error(a, v, u32::MAX as int) {
                        Ok(n) => run_scan(args, i + 2, RunSettings { baud_rate: n as u32, ..st }),
                        Err(e) => Err(e),
                    }
                } else if a == "--retry-ms"@ {
                    match number_or_error(a, v, u64::MAX as int) {
                        Ok(n) => run_scan(args, i + 2, RunSettings { retry_delay_ms: n as u64, ..st }),
                        Err(e) => Err(e),
                    }
                } else {
                    match number_or_error(a, v, u64::MAX as int) {
                        Ok(n) => run_scan(
                            args,
                            i + 2,
                            RunSettings { read_timeout_ms: n as u64, ..st },
                        ),
                        Err(e) => Err(e),
                    }
                }
            }
        } else {
            Err(unknown_flag_text(a, cli_usage()))
        }
    }
}

/// The reader settings before any argument is read.
pub open spec fn run_defaults() -> RunSettings {
    RunSettings {
        port: None,
        baud_rate: DEFAULT_BAUD_RATE,
        retry_delay_ms: DEFAULT_RETRY_DELAY_MS,
        read_timeout_ms: DEFAULT_READ_TIMEOUT_MS,
    }
}

/// What the reader's arguments give.
pub open spec fn run_parse(args: Seq<Seq<char>>) -> Result<RunSettings, Seq<char>> {
    match run_scan(args, 0, run_defaults()) {
        Ok(st) => if st.port is Some {
            Ok(st)
        } else {
            Err(missing_flag_text("--port"@, cli_usage()))
        },
        Err(e) => Err(e),
    }
}

/// Reads the write's arguments from position `i` on.
pub open spec fn send_scan(args: Seq<Seq<char>>, i: int, st: SendSettings) -> Result<SendSettings, Seq<char>>
    decreases args.len() - i,
{
    if i < 0 || i >= args.len() {
        Ok(st)
    } else {
        let a = args[i];
        if a == "--port"@ || a == "--payload"@ || a == "--baud"@ || a == "--read-timeout-ms"@ || a
            == "--loopback-timeout-ms"@ {
            if i + 1 >= args.len() {
                Err(missing_value_text(a, cli_usage()))
            } else {
                let v = args[i + 1];
                if a == "--port"@ {
                    send_scan(args, i + 2, SendSettings { port: Some(v), ..st })
                } else if a == "--payload"@ {
                    send_scan(args, i + 2, SendSettings { payload: Some(v), ..st })
                } else if a == "--baud"@ {
                    match number_or_error(a, v, u32::MAX as int) {
                        Ok(n) => send_scan(args, i + 2, SendSettings { baud_rate: n as u32, ..st }),
                        Err(e) => Err(e),
                    }
                } else if a == "--read-timeout-ms"@ {
                    match number_or_error(a, v, u64::MAX as int) {
                        Ok(n) => send_scan(
                            args,
                            i + 2,
                            SendSettings { read_timeout_ms: n as u64, ..st },
                        ),
                        Err(e) => Err(e),
                    }
                } else {
                    send_scan(args, i + 2, st)
                }
            }
        } else if a == "--no-newline"@ {
            send_scan(args, i + 1, SendSettings { append_newline: false, ..st })
        } else {
            Err(unknown_flag_text(a, cli_usage()))
        }
    }
}

/// The write settings before any argument is read.
pub open spec fn send_defaults() -> SendSettings {
    SendSettings {
        port: None,
        payload: None,
        baud_rate: DEFAULT_BAUD_RATE,
        read_timeout_ms: DEFAULT_READ_TIMEOUT_MS,
        append_newline: true,
    }
}

/// What the write's arguments give.
pub open spec fn send_parse(args: Seq<Seq<char>>) -> Result<SendSettings, Seq<char>> {
    match send_scan(args, 0, send_defaults()) {
        Ok(st) => if st.port is None {
            Err(missing_flag_text("--port"@, cli_usage()))
        } else if st.payload is None {
            Err(missing_flag_text("--payload"@, cli_usage()))
        } else {
            Ok(st)
        },
        Err(e) => Err(e),
    }
}

/// Reads the loopback timeout from position `i` on: every position that
/// holds `--loopback-timeout-ms` reads the argument after it.
pub open spec fn loopback_scan(args: Seq<Seq<char>>, i: int, ms: u64) -> Result<u64, Seq<char>>
    decreases args.len() - i,
{
    if i < 0 || i >= args.len() {
        Ok(ms)
    } else if args[i] == "--loopback-timeout-ms"@ {
        if i + 1 >= args.len() {
            Err(missing_value_text(args[i], cli_usage()))
        } else {
            match number_or_error(args[i], args[i + 1], u64::MAX as int) {
                Ok(n) => loopback_scan(args, i + 2, n as u64),
                Err(e) => Err(e),
            }
        }
    } else {
        loopback_scan(args, i + 1, ms)
    }
}

/// What the whole argument list gives.
pub open spec fn cli_parse(args: Seq<Seq<char>>) -> Result<CommandModel, Seq<char>> {
    if args.len() == 0 {
        Err(cli_usage())
    } else {
        let rest = args.drop_first();
        if args[0] == "ports"@ {
            Ok(CommandModel::Ports)
        } else if args[0] == "run"@ {
            match run_parse(rest) {
                Ok(st) => Ok(CommandModel::Run(st)),
                Err(e) => Err(e),
            }
        } else if args[0] == "send"@ {
            match send_parse(rest) {
                Ok(st) => Ok(CommandModel::Send(st)),
                Err(e) => Err(e),
            }
        } else if args[0] == "loopback-test"@ {
            match send_parse(rest) {
                Ok(st) => match loopback_scan(rest, 0, DEFAULT_LOOPBACK_TIMEOUT_MS) {
                    Ok(ms) => Ok(CommandModel::LoopbackTest(st, ms)),
                    Err(e) => Err(e),
                },
                Err(e) => Err(e),
            }
        } else {
            Err(cli_usage())
        }
    }
}

/// The text of an optional string.
pub open spec fn opt_text(o: Option<String>) -> Option<Seq<char>> {
    match o {
        Some(s) => Some(s@),
        None => None,
    }
}

/// Reads the arguments of `run`.
pub fn parse_run_args(args: &[String]) -> (r: Result<Command, AppError>)
    ensures
        match run_parse(args_model(args@)) {
            Ok(st) => r matches Ok(c) && c@ == CommandModel::Run(st),
            Err(e) => r matches Err(AppError::Usage(m)) && m@ == e,
        },
{
    let ghost model = args_model(args@);
    let u = usage();
    let mut port: Option<String> = None;
    let mut baud_rate = DEFAULT_BAUD_RATE;
    let mut retry_ms = DEFAULT_RETRY_DELAY_MS;
    let mut read_timeout_ms = DEFAULT_READ_TIMEOUT_MS;
    let mut index: usize = 0;
    while index < args.len()
        invariant
            index <= args.len(),
            model == args_model(args@),
            u@ == cli_usage(),
            run_scan(model, 0, run_defaults()) == run_scan(
                model,
                index as int,
                RunSettings {
                    port: opt_text(port),
                    baud_rate,
                    retry_delay_ms: retry_ms,
                    read_timeout_ms,
                },
            ),
        decreases args.len() - index,
    {
        let a = args[index].as_str();
        assert(model[index as int] == a@);
        if str_eq(a, "--port") || str_eq(a, "--baud") || str_eq(a, "--retry-ms") || str_eq(
            a,
            "--read-timeout-ms",
        ) {
            let value = match next_value(args, &mut index, a, u.as_str()) {
                Ok(v) => v,
                Err(e) => {
                    return Err(e);
                },
            };
            assert(model[index as int] == value@);
            if str_eq(a, "--port") {
                port = Some(value);
            } else if str_eq(a, "--baud") {
                match parse_u32_value(value.as_str(), a, u.as_str()) {
                    Ok(n) => {
                        baud_rate = n;
                    },
                    Err(e) => {
                        return Err(e);
                    },
                }
            } else if str_eq(a, "--retry-ms") {
                match parse_u64_value(value.as_str(), a, u.as_str()) {
                    Ok(n) => {
                        retry_ms = n;
                    },
                    Err(e) => {
                        return Err(e);
                    },
                }
            } else {
                match parse_u64_value(value.as_str(), a, u.as_str()) {
                    Ok(n) => {
                        read_timeout_ms = n;
                    },
                    Err(e) => {
                        return Err(e);
                    },
                }
            }
        } else {
            return Err(unknown_flag(a, u.as_str()));
        }
        index = index + 1;
    }
    match port {
        Some(port) => Ok(
            Command::Run(
                RunConfig { port, baud_rate, retry_delay_ms: retry_ms, read_timeout_ms },
            ),
        ),
        None => Err(missing_flag("--port", u.as_str())),
    }
}

/// Reads the settings of a one-shot write.
pub fn parse_send_config(collected: &[String]) -> (r: Result<SendConfig, AppError>)
    ensures
        match send_parse(args_model(collected@)) {
            Ok(st) => r matches Ok(c) && c@ == st,
            Err(e) => r matches Err(AppError::Usage(m)) && m@ == e,
        },
{
    let ghost model = args_model(collected@);
    let u = usage();
    let mut port: Option<String> = None;
    let mut payload: Option<String> = None;
    let mut baud_rate = DEFAULT_BAUD_RATE;
    let mut read_timeout_ms = DEFAULT_READ_TIMEOUT_MS;
    let mut append_newline = true;
    let mut index: usize = 0;
    while index < collected.len()
        invariant
            index <= collected.len(),
            model == args_model(collected@),
            u@ == cli_usage(),
            send_scan(model, 0, send_defaults()) == send_scan(
                model,
                index as int,
                SendSettings {
                    port: opt_text(port),
                    payload: opt_text(payload),
                    baud_rate,
                    read_timeout_ms,
                    append_newline,
                },
            ),
        decreases collected.len() - index,
    {
        let a = collected[index].as_str();
        assert(model[index as int] == a@);
        if str_eq(a, "--port") || str_eq(a, "--payload") || str_eq(a, "--baud") || str_eq(
            a,
            "--read-timeout-ms",
        ) || str_eq(a, "--loopback-timeout-ms") {
            let value = match next_value(collected, &mut index, a, u.as_str()) {
                Ok(v) => v,
                Err(e) => {
                    return Err(e);
                },
            };
            assert(model[index as int] == value@);
            if str_eq(a, "--port") {
                port = Some(value);
            } else if str_eq(a, "--payload") {
                payload = Some(value);
            } else if str_eq(a, "--baud") {
                match parse_u32_value(value.as_str(), a, u.as_str()) {
                    Ok(n) => {
                        baud_rate = n;
                    },
                    Err(e) => {
                        return Err(e);
                    },
                }
            } else if str_eq(a, "--read-timeout-ms") {
                match parse_u64_value(value.as_str(), a, u.as_str()) {
                    Ok(n) => {
                        read_timeout_ms = n;
                    },
                    Err(e) => {
                        return Err(e);
                    },
                }
            }
        } else if str_eq(a, "--no-newline") {
            append_newline = false;
        } else {
            return Err(unknown_flag(a, u.as_str()));
        }
        index = index + 1;
    }
    let port = match port {
        Some(p) => p,
        None => {
            return Err(missing_flag("--port", u.as_str()));
        },
    };
    let payload = match payload {
        Some(p) => p,
        None => {
            return Err(missing_flag("--payload", u.as_str()));
        },
    };
    Ok(SendConfig { port, baud_rate, read_timeout_ms, payload, append_newline })
}

/// Reads the arguments of `send`.
pub fn parse_send_args(args: &[String]) -> (r: Result<Command, AppError>)
    ensures
        match send_parse(args_model(args@)) {
            Ok(st) => r matches Ok(c) && c@ == CommandModel::Send(st),
            Err(e) => r matches Err(AppError::Usage(m)) && m@ == e,
        },
{
    match parse_send_config(args) {
        Ok(send) => Ok(Command::Send(send)),
        Err(e) => Err(e),
    }
}

/// Reads the arguments of `loopback-test`: the write's settings, then the
/// loopback timeout.
pub fn parse_loopback_args(args: &[String]) -> (r: Result<Command, AppError>)
    ensures
        match send_parse(args_model(args@)) {
            Ok(st) => match loopback_scan(args_model(args@), 0, DEFAULT_LOOPBACK_TIMEOUT_MS) {
                Ok(ms) => r matches Ok(c) && c@ == CommandModel::LoopbackTest(st, ms),
                Err(e) => r matches Err(AppError::Usage(m)) && m@ == e,
            },
            Err(e) => r matches Err(AppError::Usage(m)) && m@ == e,
        },
{
    let send = match parse_send_config(args) {
        Ok(s) => s,
        Err(e) => {
            return Err(e);
        },
    };
    let ghost model = args_model(args@);
    let u = usage();
    let mut loopback_timeout_ms = DEFAULT_LOOPBACK_TIMEOUT_MS;
    let mut index: usize = 0;
    while index < args.len()
        invariant
            index <= args.len(),
            model == args_model(args@),
            u@ == cli_usage(),
            send_parse(model) matches Ok(st) && send@ == st,
            loopback_scan(model, 0, DEFAULT_LOOPBACK_TIMEOUT_MS) == loopback_scan(
                model,
                index as int,
                loopback_timeout_ms,
            ),
        decreases args.len() - index,
    {
        let a = args[index].as_str();
        assert(model[index as int] == a@);
        if str_eq(a, "--loopback-timeout-ms") {
            let value = match next_value(args, &mut index, a, u.as_str()) {
                Ok(v) => v,
                Err(e) => {
                    return Err(e);
                },
            };
            assert(model[index as int] == value@);
            match parse_u64_value(value.as_str(), a, u.as_str()) {
                Ok(n) => {
                    loopback_timeout_ms = n;
                },
                Err(e) => {
                    return Err(e);
                },
            }
        }
        index = index + 1;
    }
    Ok(Command::LoopbackTest(LoopbackConfig { send, loopback_timeout_ms }))
}

/// Reads the command line (without the program name).
pub fn parse_args(args: Vec<String>) -> (r: Result<Command, AppError>)
    ensures
        match cli_parse(args_model(args@)) {
            Ok(c) => r matches Ok(x) && x@ == c,
            Err(e) => r matches Err(AppError::Usage(m)) && m@ == e,
        },
{
    if args.len() == 0 {
        return Err(AppError::Usage(usage()));
    }
    let rest = vstd::slice::slice_subrange(args.as_slice(), 1, args.len());
    assert(args_model(rest@) =~= args_model(args@).drop_first());
    let command = args[0].as_str();
    assert(args_model(args@)[0] == command@);
    if str_eq(command, "ports") {
        Ok(Command::Ports)
    } else if str_eq(command, "run") {
        parse_run_args(rest)
    } else if str_eq(command, "send") {
        parse_send_args(rest)
    } else if str_eq(command, "loopback-test") {
        parse_loopback_args(rest)
    } else {
        Err(AppError::Usage(usage()))
    }
}

/// Scanning write arguments that scan cleanly, and then more arguments,
/// reads the first ones and goes on from where they leave the settings.
proof fn lemma_send_scan_then(args: Seq<Seq<char>>, more: Seq<Seq<char>>, i: int, st: SendSettings)
    requires
        0 <= i <= args.len(),
        send_scan(args, i, st) is Ok,
    ensures
        send_scan(args + more, i, st) == send_scan(args + more, args.len() as int, send_scan(args, i, st)->Ok_0),
    decreases args.len() - i,
{
    let all = args + more;
    if i < args.len() {
        let a = args[i];
        assert(all[i] == a);
        if a == "--port"@ || a == "--payload"@ || a == "--baud"@ || a == "--read-timeout-ms"@ || a
            == "--loopback-timeout-ms"@ {
            let v = args[i + 1];
            assert(all[i + 1] == v);
            if a == "--port"@ {
                lemma_send_scan_then(args, more, i + 2, SendSettings { port: Some(v), ..st });
            } else if a == "--payload"@ {
                lemma_send_scan_then(args, more, i + 2, SendSettings { payload: Some(v), ..st });
            } else if a == "--baud"@ {
                let n = number_or_error(a, v, u32::MAX as int)->Ok_0;
                lemma_send_scan_then(args, more, i + 2, SendSettings { baud_rate: n as u32, ..st });
            } else if a == "--read-timeout-ms"@ {
                let n = number_or_error(a, v, u64::MAX as int)->Ok_0;
                lemma_send_scan_then(args, more, i + 2, SendSettings { read_timeout_ms: n as u64, ..st });
            } else {
                lemma_send_scan_then(args, more, i + 2, st);
            }
        } else {
            lemma_send_scan_then(args, more, i + 1, SendSettings { append_newline: false, ..st });
        }
    }
}

/// The same for the scan of the loopback timeout.
proof fn lemma_loopback_scan_then(args: Seq<Seq<char>>, more: Seq<Seq<char>>, i: int, ms: u64)
    requires
        0 <= i <= args.len(),
        loopback_scan(args, i, ms) is Ok,
    ensures
        loopback_scan(args + more, i, ms) == loopback_scan(
            args + more,
            args.len() as int,
            loopback_scan(args, i, ms)->Ok_0,
        ),
    decreases args.len() - i,
{
    let all = args + more;
    if i < args.len() {
        assert(all[i] == args[i]);
        if args[i] == "--loopback-timeout-ms"@ {
            assert(all[i + 1] == args[i + 1]);
            let n = number_or_error(args[i], args[i + 1], u64::MAX as int)->Ok_0;
            lemma_loopback_scan_then(args, more, i + 2, n as u64);
        } else {
            lemma_loopback_scan_then(args, more, i + 1, ms);
        }
    }
}

/// `--baud N` read at the end of the write arguments sets the rate to `N`.
proof fn lemma_send_scan_baud_tail(args: Seq<Seq<char>>, n: u32, st: SendSettings)
    ensures
        send_scan(args + seq!["--baud"@, decimal(n as nat)], args.len() as int, st) == Ok::<
            SendSettings,
            Seq<char>,
        >(SendSettings { baud_rate: n, ..st }),
{
    reveal_strlit("--baud");
    reveal_strlit("--port");
    reveal_strlit("--payload");
    let all = args + seq!["--baud"@, decimal(n as nat)];
    let i = args.len() as int;
    assert(all[i] == "--baud"@);
    assert(all[i + 1] == decimal(n as nat));
    assert("--baud"@[2] == 'b' && "--port"@[2] == 'p');
    assert("--baud"@ != "--port"@);
    assert("--baud"@.len() != "--payload"@.len());
    assert(send_scan(all, i + 2, SendSettings { baud_rate: n, ..st }) == Ok::<SendSettings, Seq<char>>(
        SendSettings { baud_rate: n, ..st },
    ));
    lemma_decimal_parses_back(n as nat);
    assert(number_or_error("--baud"@, decimal(n as nat), u32::MAX as int) == Ok::<int, Seq<char>>(n as int));
}

/// Adding `--baud N` (`N` written in decimal) at the end of the arguments
/// of a write or a loopback test that parse sets the baud rate to `N`, and
/// changes nothing else: the last `--baud` wins.
pub proof fn lemma_last_baud_wins(command: Seq<char>, args: Seq<Seq<char>>, n: u32)
    requires
        command == "send"@ || command == "loopback-test"@,
        cli_parse(seq![command] + args) is Ok,
    ensures
        cli_parse(seq![command] + args + seq!["--baud"@, decimal(n as nat)]) == (match cli_parse(
            seq![command] + args,
        ) {
            Ok(CommandModel::Send(st)) => Ok::<CommandModel, Seq<char>>(
                CommandModel::Send(SendSettings { baud_rate: n, ..st }),
            ),
            Ok(CommandModel::LoopbackTest(st, ms)) => Ok::<CommandModel, Seq<char>>(
                CommandModel::LoopbackTest(SendSettings { baud_rate: n, ..st }, ms),
            ),
            other => other,
        }),
{
    reveal_strlit("send");
    reveal_strlit("loopback-test");
    reveal_strlit("ports");
    reveal_strlit("run");
    reveal_strlit("--loopback-timeout-ms");
    let tail = seq!["--baud"@, decimal(n as nat)];
    let before = seq![command] + args;
    let after = seq![command] + args + tail;
    assert(before.drop_first() =~= args);
    assert(after.drop_first() =~= args + tail);
    assert(before[0] == command && after[0] == command);
    assert(command != "ports"@ && command != "run"@);
    lemma_send_scan_then(args, tail, 0, send_defaults());
    lemma_send_scan_baud_tail(args, n, send_scan(args, 0, send_defaults())->Ok_0);
    if command == "loopback-test"@ {
        assert(command != "send"@);
        lemma_loopback_scan_then(args, tail, 0, DEFAULT_LOOPBACK_TIMEOUT_MS);
        let all = args + tail;
        let k = args.len() as int;
        let ms = loopback_scan(args, 0, DEFAULT_LOOPBACK_TIMEOUT_MS)->Ok_0;
        reveal_strlit("--baud");
        assert(all[k] == "--baud"@ && "--baud"@ != "--loopback-timeout-ms"@);
        lemma_decimal_digits(n as nat);
        assert(all[k + 1] == decimal(n as nat));
        assert(is_digit(decimal(n as nat)[0]));
        assert(decimal(n as nat) != "--loopback-timeout-ms"@);
        assert(loopback_scan(all, k + 2, ms) == Ok::<u64, Seq<char>>(ms));
        assert(loopback_scan(all, k + 1, ms) == Ok::<u64, Seq<char>>(ms));
    }
}

/// Scanning reader arguments that scan cleanly, and then more arguments,
/// reads the first ones and goes on from where they leave the settings.
proof fn lemma_run_scan_then(args: Seq<Seq<char>>, more: Seq<Seq<char>>, i: int, st: RunSettings)
    requires
        0 <= i <= args.len(),
        run_scan(args, i, st) is Ok,
    ensures
        run_scan(args + more, i, st) == run_scan(args + more, args.len() as int, run_scan(args, i, st)->Ok_0),
    decreases args.len() - i,
{
    let all = args + more;
    if i < args.len() {
        let a = args[i];
        assert(all[i] == a);
        let v = args[i + 1];
        assert(all[i + 1] == v);
        if a == "--port"@ {
            lemma_run_scan_then(args, more, i + 2, RunSettings { port: Some(v), ..st });
        } else if a == "--baud"@ {
            let n = number_or_error(a, v, u32::MAX as int)->Ok_0;
            lemma_run_scan_then(args, more, i + 2, RunSettings { baud_rate: n as u32, ..st });
        } else if a == "--retry-ms"@ {
            let n = number_or_error(a, v, u64::MAX as int)->Ok_0;
            lemma_run_scan_then(args, more, i + 2, RunSettings { retry_delay_ms: n as u64, ..st });
        } else {
            let n = number_or_error(a, v, u64::MAX as int)->Ok_0;
            lemma_run_scan_then(args, more, i + 2, RunSettings { read_timeout_ms: n as u64, ..st });
        }
    }
}

/// Adding `--baud N` (`N` written in decimal) at the end of reader
/// arguments that parse sets the baud rate to `N` and changes nothing else.
pub proof fn lemma_run_last_baud_wins(args: Seq<Seq<char>>, n: u32)
    requires
        cli_parse(seq!["run"@] + args) is Ok,
    ensures
        cli_parse(seq!["run"@] + args + seq!["--baud"@, decimal(n as nat)]) == (match cli_parse(
            seq!["run"@] + args,
        ) {
            Ok(CommandModel::Run(st)) => Ok::<CommandModel, Seq<char>>(
                CommandModel::Run(RunSettings { baud_rate: n, ..st }),
            ),
            other => other,
        }),
{
    reveal_strlit("run");
    reveal_strlit("ports");
    reveal_strlit("--baud");
    reveal_strlit("--port");
    let tail = seq!["--baud"@, decimal(n as nat)];
    let before = seq!["run"@] + args;
    let after = seq!["run"@] + args + tail;
    assert(before.drop_first() =~= args);
    assert(after.drop_first() =~= args + tail);
    assert(before[0] == "run"@ && after[0] == "run"@);
    assert("run"@ != "ports"@);
    lemma_run_scan_then(args, tail, 0, run_defaults());
    let st = run_scan(args, 0, run_defaults())->Ok_0;
    let all = args + tail;
    let i = args.len() as int;
    assert(all[i] == "--baud"@);
    assert(all[i + 1] == decimal(n as nat));
    assert("--baud"@[2] == 'b' && "--port"@[2] == 'p');
    assert("--baud"@ != "--port"@);
    lemma_decimal_parses_back(n as nat);
    assert(number_or_error("--baud"@, decimal(n as nat), u32::MAX as int) == Ok::<int, Seq<char>>(n as int));
    assert(run_scan(all, i + 2, RunSettings { baud_rate: n, ..st }) == Ok::<RunSettings, Seq<char>>(
        RunSettings { baud_rate: n, ..st },
    ));
}

} // verus!
