//! Decisions of the desktop session state: the snapshot a new session
//! starts from, and the one a closed session leaves.

use vstd::prelude::*;
use crate::desktop::fake_session::{default_profile, fake_port_label, DEFAULT_FAKE_PROFILE};
use crate::desktop::model::{ConnectRequest, SessionSnapshot, SourceKind, UiConnectionState, UiTransportKind};
use crate::cli::RunConfig;
use crate::text::owned;

verus! {

/// The settings of a simulated runtime.
#[derive(Clone, Debug, PartialEq, Eq)]
pub struct FakeRuntimeConfig {
    pub profile: String,
    pub baud_rate: u32,
}

/// The runtime that a desktop session runs.
#[derive(Clone, Debug, PartialEq, Eq)]
pub enum RuntimeSessionConfig {
    Serial(RunConfig),
    Fake(FakeRuntimeConfig),
}

/// The runtime a connect request asks for: a serial reader with the
/// request's port and timings, or a simulated session of the request's
/// profile (by default the default profile).
pub fn runtime_config(request: &ConnectRequest) -> (out: RuntimeSessionConfig)
    ensures
        match request.source_kind {
            SourceKind::Serial => out matches RuntimeSessionConfig::Serial(c) && c.port@ == request.port@
                && c.baud_rate == request.baud_rate && c.retry_delay_ms == request.retry_ms
                && c.read_timeout_ms == request.read_timeout_ms,
            SourceKind::Fake => out matches RuntimeSessionConfig::Fake(f) && f.baud_rate
                == request.baud_rate && f.profile@ == match request.fake_profile {
                Some(p) => p@,
                None => DEFAULT_FAKE_PROFILE@,
            },
        },
{
    match request.source_kind {
        SourceKind::Serial => RuntimeSessionConfig::Serial(
            RunConfig {
                port: request.port.clone(),
                baud_rate: request.baud_rate,
                retry_delay_ms: request.retry_ms,
                read_timeout_ms: request.read_timeout_ms,
            },
        ),
        SourceKind::Fake => RuntimeSessionConfig::Fake(
            FakeRuntimeConfig {
                profile: match &request.fake_profile {
                    Some(p) => p.clone(),
                    None => owned(default_profile()),
                },
                baud_rate: request.baud_rate,
            },
        ),
    }
}

/// The text of an error about the session's state.
pub fn runtime_state_error(message: &str) -> (out: String)
    ensures
        out@ == message@,
{
    owned(message)
}

/// The port name a request will show: the port for a serial session, the
/// simulated port of its profile (by default the default profile) for a
/// simulated one.
pub open spec fn requested_port(request: ConnectRequest) -> Seq<char> {
    match request.source_kind {
        SourceKind::Serial => request.port@,
        SourceKind::Fake => "fake://"@ + match request.fake_profile {
            Some(p) => p@,
            None => DEFAULT_FAKE_PROFILE@,
        },
    }
}

/// The snapshot of a session that a request just opened.
pub fn initial_snapshot(request: &ConnectRequest) -> (out: SessionSnapshot)
    ensures
        out.is_running,
        out.transport == Some(
            match request.source_kind {
                SourceKind::Serial => UiTransportKind::Serial,
                SourceKind::Fake => UiTransportKind::Fake,
            },
        ),
        out.port matches Some(p) && p@ == requested_port(*request),
        out.baud_rate == Some(request.baud_rate),
        out.connection_state == Some(UiConnectionState::Idle),
{
    match request.source_kind {
        SourceKind::Serial => SessionSnapshot::connecting(
            UiTransportKind::Serial,
            request.port.clone(),
            request.baud_rate,
        ),
        SourceKind::Fake => {
            let label = match &request.fake_profile {
                Some(p) => fake_port_label(p.as_str()),
                None => fake_port_label(default_profile()),
            };
            SessionSnapshot::connecting(UiTransportKind::Fake, label, request.baud_rate)
        },
    }
}

/// The snapshot a closed session leaves: not running, stopped, the rest
/// as it was.
pub fn stopped_snapshot(snapshot: &SessionSnapshot) -> (out: SessionSnapshot)
    ensures
        !out.is_running,
        out.connection_state == Some(UiConnectionState::Stopped),
        out.transport == snapshot.transport,
        out.baud_rate == snapshot.baud_rate,
        match (out.port, snapshot.port) {
            (Some(a), Some(b)) => a@ == b@,
            (None, None) => true,
            _ => false,
        },
{
    SessionSnapshot {
        is_running: false,
        transport: snapshot.transport,
        port: match &snapshot.port {
            Some(p) => Some(p.clone()),
            None => None,
        },
        baud_rate: snapshot.baud_rate,
        connection_state: Some(UiConnectionState::Stopped),
    }
}

} // verus!
