//! What the user interface shows of the logic analyzer.

use vstd::prelude::*;
use crate::text::owned;

verus! {

/// A request to capture from a logic analyzer.
#[derive(Clone, Debug, PartialEq, Eq)]
pub struct LogicAnalyzerCaptureRequest {
    pub device_ref: String,
    pub sample_count: u32,
    pub samplerate_hz: Option<u64>,
    pub channels: Vec<String>,
}

/// A device that `sigrok-cli --scan` reported.
#[derive(Clone, Debug, PartialEq, Eq)]
pub struct LogicAnalyzerDevice {
    pub reference: String,
    pub name: String,
    pub driver: Option<String>,
    pub channels: Vec<String>,
    pub note: Option<String>,
    pub raw_line: Option<String>,
}

/// A capture that is running.
#[derive(Clone, Debug, PartialEq, Eq)]
pub struct LogicAnalyzerCaptureState {
    pub pid: u32,
    pub started_at_ms: u64,
    pub command: String,
    pub output_path: String,
}

/// The samples of one channel; a sample is `None` where the level is
/// unknown.
#[derive(Clone, Debug, PartialEq, Eq)]
pub struct LogicAnalyzerWaveformChannel {
    pub label: String,
    pub samples: Vec<Option<bool>>,
}

/// A finished capture.
#[derive(Clone, Debug, PartialEq, Eq)]
pub struct LogicAnalyzerCaptureResult {
    pub output_path: String,
    pub sample_rate_hz: Option<u64>,
    pub sample_count: usize,
    pub channels: Vec<LogicAnalyzerWaveformChannel>,
    pub captured_at_ms: u64,
}

/// The states of the logic-analyzer session.
#[derive(Clone, Copy, Debug, PartialEq, Eq, Structural)]
pub enum LogicAnalyzerSessionState {
    Unavailable,
    Idle,
    Scanning,
    Ready,
    Capturing,
    Stopping,
    Error,
}

/// Everything the user interface shows of the logic analyzer.
#[derive(Clone, Debug, PartialEq, Eq)]
pub struct LogicAnalyzerStatus {
    pub available: bool,
    pub executable: Option<String>,
    pub session_state: LogicAnalyzerSessionState,
    pub devices: Vec<LogicAnalyzerDevice>,
    pub selected_device_ref: Option<String>,
    pub active_capture: Option<LogicAnalyzerCaptureState>,
    pub last_capture: Option<LogicAnalyzerCaptureResult>,
    pub last_scan_at_ms: Option<u64>,
    pub scan_output: Option<String>,
    pub last_error: Option<String>,
    pub capture_plan: Option<String>,
    pub linux_first_note: String,
}

impl Default for LogicAnalyzerStatus {
    fn default() -> (out: Self)
        ensures
            !out.available,
            out.executable is None,
            out.session_state == LogicAnalyzerSessionState::Idle,
            out.devices@.len() == 0,
            out.selected_device_ref is None,
            out.active_capture is None,
            out.last_capture is None,
            out.last_scan_at_ms is None,
            out.scan_output is None,
            out.last_error is None,
            out.capture_plan is None,
            out.linux_first_note@
                == "Linux-first sigrok path; install `sigrok-cli` or set `EADAI_SIGROK_CLI`."@,
    {
        LogicAnalyzerStatus {
            available: false,
            executable: None,
            session_state: LogicAnalyzerSessionState::Idle,
            devices: Vec::new(),
            selected_device_ref: None,
            active_capture: None,
            last_capture: None,
            last_scan_at_ms: None,
            scan_output: None,
            last_error: None,
            capture_plan: None,
            linux_first_note: owned(
                "Linux-first sigrok path; install `sigrok-cli` or set `EADAI_SIGROK_CLI`.",
            ),
        }
    }
}

} // verus!
