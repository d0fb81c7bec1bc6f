//! BMI088 commands and trigger severities as the user interface names them.

use vstd::prelude::*;
use vstd::utf8::encode_utf8;
use crate::analysis::TriggerSeverity;
use crate::bmi088::Bmi088HostCommand;

verus! {

/// A BMI088 command the user asked for, with the text of its payload.
#[derive(Clone, Debug)]
pub struct Bmi088CommandRequest {
    pub command: UiBmi088HostCommand,
    pub payload: Option<String>,
}

/// BMI088 host commands as the user interface names them.
#[derive(Clone, Copy, Debug, PartialEq, Eq, Structural)]
pub enum UiBmi088HostCommand {
    Ack,
    Start,
    Stop,
    ReqSchema,
    ReqIdentity,
    ReqTuning,
    SetTuning,
    ShellExec,
}

impl UiBmi088HostCommand {
    /// The payload bytes of the command: the UTF-8 text for the shell and
    /// tuning commands, nothing for the others.
    pub fn payload_bytes(&self, payload: Option<&str>) -> (out: Option<Vec<u8>>)
        ensures
            match *self {
                UiBmi088HostCommand::ShellExec | UiBmi088HostCommand::SetTuning => match payload {
                    Some(p) => out matches Some(b) && b@ == encode_utf8(p@),
                    None => out is None,
                },
                _ => out is None,
            },
    {
        match self {
            UiBmi088HostCommand::ShellExec | UiBmi088HostCommand::SetTuning => match payload {
                Some(value) => Some(vstd::slice::slice_to_vec(value.as_bytes())),
                None => None,
            },
            _ => None,
        }
    }
}

/// The protocol command of a user-interface command.
pub open spec fn host_command_of(v: UiBmi088HostCommand) -> Bmi088HostCommand {
    match v {
        UiBmi088HostCommand::Ack => Bmi088HostCommand::Ack,
        UiBmi088HostCommand::Start => Bmi088HostCommand::Start,
        UiBmi088HostCommand::Stop => Bmi088HostCommand::Stop,
        UiBmi088HostCommand::ReqSchema => Bmi088HostCommand::ReqSchema,
        UiBmi088HostCommand::ReqIdentity => Bmi088HostCommand::ReqIdentity,
        UiBmi088HostCommand::ReqTuning => Bmi088HostCommand::ReqTuning,
        UiBmi088HostCommand::SetTuning => Bmi088HostCommand::SetTuning,
        UiBmi088HostCommand::ShellExec => Bmi088HostCommand::ShellExec,
    }
}

impl From<UiBmi088HostCommand> for Bmi088HostCommand {
    fn from(value: UiBmi088HostCommand) -> (out: Self) {
        match value {
            UiBmi088HostCommand::Ack => Bmi088HostCommand::Ack,
            UiBmi088HostCommand::Start => Bmi088HostCommand::Start,
            UiBmi088HostCommand::Stop => Bmi088HostCommand::Stop,
            UiBmi088HostCommand::ReqSchema => Bmi088HostCommand::ReqSchema,
            UiBmi088HostCommand::ReqIdentity => Bmi088HostCommand::ReqIdentity,
            UiBmi088HostCommand::ReqTuning => Bmi088HostCommand::ReqTuning,
            UiBmi088HostCommand::SetTuning => Bmi088HostCommand::SetTuning,
            UiBmi088HostCommand::ShellExec => Bmi088HostCommand::ShellExec,
        }
    }
}

impl vstd::std_specs::convert::FromSpecImpl<UiBmi088HostCommand> for Bmi088HostCommand {
    open spec fn obeys_from_spec() -> bool {
        true
    }

    open spec fn from_spec(v: UiBmi088HostCommand) -> Self {
        host_command_of(v)
    }
}

/// Trigger severities as the user interface names them.
#[derive(Clone, Copy, Debug, PartialEq, Eq, Structural)]
pub enum UiTriggerSeverity {
    Info,
    Warning,
    Critical,
}

/// The user-interface name of a severity.
pub open spec fn ui_severity(v: TriggerSeverity) -> UiTriggerSeverity {
    match v {
        TriggerSeverity::Info => UiTriggerSeverity::Info,
        TriggerSeverity::Warning => UiTriggerSeverity::Warning,
        TriggerSeverity::Critical => UiTriggerSeverity::Critical,
    }
}

impl From<TriggerSeverity> for UiTriggerSeverity {
    fn from(value: TriggerSeverity) -> (out: Self) {
        match value {
            TriggerSeverity::Info => UiTriggerSeverity::Info,
            TriggerSeverity::Warning => UiTriggerSeverity::Warning,
            TriggerSeverity::Critical => UiTriggerSeverity::Critical,
        }
    }
}

impl vstd::std_specs::convert::FromSpecImpl<TriggerSeverity> for UiTriggerSeverity {
    open spec fn obeys_from_spec() -> bool {
        true
    }

    open spec fn from_spec(v: TriggerSeverity) -> Self {
        ui_severity(v)
    }
}

} // verus!
