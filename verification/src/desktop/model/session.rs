//! The session as the user interface sees it.

use vstd::prelude::*;
use crate::message::{ConnectionEvent, ConnectionState, MessageSource, TransportKind};
use crate::text::owned;

verus! {

/// Where a session's lines come from.
#[derive(Clone, Copy, Debug, PartialEq, Eq, Structural)]
pub enum SourceKind {
    Serial,
    Fake,
}

impl Default for SourceKind {
    fn default() -> (out: Self)
        ensures
            out == SourceKind::Serial,
    {
        SourceKind::Serial
    }
}

/// A request to open a session.
#[derive(Clone, Debug)]
pub struct ConnectRequest {
    pub port: String,
    pub baud_rate: u32,
    pub retry_ms: u64,
    pub read_timeout_ms: u64,
    pub source_kind: SourceKind,
    pub fake_profile: Option<String>,
}

/// A request to write a line.
#[derive(Clone, Debug)]
pub struct SendRequest {
    pub payload: String,
    pub append_newline: bool,
}

/// Transport kinds as the user interface names them.
#[derive(Clone, Copy, Debug, PartialEq, Eq, Structural)]
pub enum UiTransportKind {
    Serial,
    Fake,
}

/// Connection states as the user interface names them.
#[derive(Clone, Copy, Debug, PartialEq, Eq, Structural)]
pub enum UiConnectionState {
    Idle,
    Connecting,
    Connected,
    WaitingRetry,
    Stopped,
}

/// What the user interface shows of the current session.
#[derive(Clone, Debug, PartialEq, Eq)]
pub struct SessionSnapshot {
    pub is_running: bool,
    pub transport: Option<UiTransportKind>,
    pub port: Option<String>,
    pub baud_rate: Option<u32>,
    pub connection_state: Option<UiConnectionState>,
}

impl Default for SessionSnapshot {
    fn default() -> (out: Self)
        ensures
            !out.is_running,
            out.transport is None,
            out.port is None,
            out.baud_rate is None,
            out.connection_state is None,
    {
        SessionSnapshot {
            is_running: false,
            transport: None,
            port: None,
            baud_rate: None,
            connection_state: None,
        }
    }
}

impl SessionSnapshot {
    /// The snapshot of a session that was just opened and has not
    /// connected yet.
    pub fn connecting(transport: UiTransportKind, port: String, baud_rate: u32) -> (out: Self)
        ensures
            out.is_running,
            out.transport == Some(transport),
            out.port == Some(port),
            out.baud_rate == Some(baud_rate),
            out.connection_state == Some(UiConnectionState::Idle),
    {
        SessionSnapshot {
            is_running: true,
            transport: Some(transport),
            port: Some(port),
            baud_rate: Some(baud_rate),
            connection_state: Some(UiConnectionState::Idle),
        }
    }
}

/// The state of the MCP server.
#[derive(Clone, Debug, PartialEq, Eq)]
pub struct McpServerStatus {
    pub is_running: bool,
    pub transport: String,
    pub endpoint_url: Option<String>,
    pub last_error: Option<String>,
}

impl McpServerStatus {
    /// A server that is starting.
    pub fn starting() -> (out: Self)
        ensures
            !out.is_running,
            out.transport@ == "streamableHttp"@,
            out.endpoint_url is None,
            out.last_error is None,
    {
        McpServerStatus {
            is_running: false,
            transport: owned("streamableHttp"),
            endpoint_url: None,
            last_error: None,
        }
    }

    /// A server that is listening at `endpoint_url`.
    pub fn running(endpoint_url: String, last_error: Option<String>) -> (out: Self)
        ensures
            out.is_running,
            out.transport@ == "streamableHttp"@,
            out.endpoint_url == Some(endpoint_url),
            out.last_error == last_error,
    {
        McpServerStatus {
            is_running: true,
            transport: owned("streamableHttp"),
            endpoint_url: Some(endpoint_url),
            last_error,
        }
    }

    /// A server that failed to start.
    pub fn failed(error: String) -> (out: Self)
        ensures
            !out.is_running,
            out.transport@ == "streamableHttp"@,
            out.endpoint_url is None,
            out.last_error == Some(error),
    {
        McpServerStatus {
            is_running: false,
            transport: owned("streamableHttp"),
            endpoint_url: None,
            last_error: Some(error),
        }
    }
}

/// When an MCP tool was last called.
#[derive(Clone, Debug, PartialEq, Eq)]
pub struct McpToolUsageSnapshot {
    pub name: String,
    pub last_called_at_ms: Option<u64>,
}

/// A message source as the user interface shows it.
#[derive(Clone, Debug)]
pub struct UiSource {
    pub transport: UiTransportKind,
    pub port: String,
    pub baud_rate: u32,
}

/// A connection event as the user interface shows it.
#[derive(Clone, Debug)]
pub struct UiConnectionPayload {
    pub state: UiConnectionState,
    pub reason: Option<String>,
    pub attempt: u32,
    pub retry_delay_ms: Option<u64>,
}

/// The user-interface name of a transport kind.
pub open spec fn ui_transport(v: TransportKind) -> UiTransportKind {
    match v {
        TransportKind::Serial => UiTransportKind::Serial,
        TransportKind::Fake => UiTransportKind::Fake,
    }
}

/// The user-interface name of a connection state.
pub open spec fn ui_state(v: ConnectionState) -> UiConnectionState {
    match v {
        ConnectionState::Idle => UiConnectionState::Idle,
        ConnectionState::Connecting => UiConnectionState::Connecting,
        ConnectionState::Connected => UiConnectionState::Connected,
        ConnectionState::WaitingRetry => UiConnectionState::WaitingRetry,
        ConnectionState::Stopped => UiConnectionState::Stopped,
    }
}

impl From<TransportKind> for UiTransportKind {
    fn from(value: TransportKind) -> (out: Self) {
        match value {
            TransportKind::Serial => UiTransportKind::Serial,
            TransportKind::Fake => UiTransportKind::Fake,
        }
    }
}

impl vstd::std_specs::convert::FromSpecImpl<TransportKind> for UiTransportKind {
    open spec fn obeys_from_spec() -> bool {
        true
    }

    open spec fn from_spec(v: TransportKind) -> Self {
        ui_transport(v)
    }
}

impl From<ConnectionState> for UiConnectionState {
    fn from(value: ConnectionState) -> (out: Self) {
        match value {
            ConnectionState::Idle => UiConnectionState::Idle,
            ConnectionState::Connecting => UiConnectionState::Connecting,
            ConnectionState::Connected => UiConnectionState::Connected,
            ConnectionState::WaitingRetry => UiConnectionState::WaitingRetry,
            ConnectionState::Stopped => UiConnectionState::Stopped,
        }
    }
}

impl vstd::std_specs::convert::FromSpecImpl<ConnectionState> for UiConnectionState {
    open spec fn obeys_from_spec() -> bool {
        true
    }

    open spec fn from_spec(v: ConnectionState) -> Self {
        ui_state(v)
    }
}

impl From<MessageSource> for UiSource {
    fn from(value: MessageSource) -> (out: Self) {
        UiSource {
            transport: UiTransportKind::from(value.transport),
            port: value.port,
            baud_rate: value.baud_rate,
        }
    }
}

impl vstd::std_specs::convert::FromSpecImpl<MessageSource> for UiSource {
    open spec fn obeys_from_spec() -> bool {
        true
    }

    open spec fn from_spec(v: MessageSource) -> Self {
        UiSource { transport: ui_transport(v.transport), port: v.port, baud_rate: v.baud_rate }
    }
}

impl From<ConnectionEvent> for UiConnectionPayload {
    fn from(value: ConnectionEvent) -> (out: Self) {
        UiConnectionPayload {
            state: UiConnectionState::from(value.state),
            reason: value.reason,
            attempt: value.attempt,
            retry_delay_ms: value.retry_delay_ms,
        }
    }
}

impl vstd::std_specs::convert::FromSpecImpl<ConnectionEvent> for UiConnectionPayload {
    open spec fn obeys_from_spec() -> bool {
        true
    }

    open spec fn from_spec(v: ConnectionEvent) -> Self {
        UiConnectionPayload {
            state: ui_state(v.state),
            reason: v.reason,
            attempt: v.attempt,
            retry_delay_ms: v.retry_delay_ms,
        }
    }
}

/// Updates the snapshot after a connection event from `source`: the session
/// runs unless the event says it stopped.
pub fn apply_connection_snapshot(
    snapshot: &mut SessionSnapshot,
    event: &UiConnectionPayload,
    source: &UiSource,
)
    ensures
        final(snapshot).is_running == (event.state != UiConnectionState::Stopped),
        final(snapshot).transport == Some(source.transport),
        final(snapshot).port matches Some(p) && p@ == source.port@,
        final(snapshot).baud_rate == Some(source.baud_rate),
        final(snapshot).connection_state == Some(event.state),
{
    snapshot.is_running = event.state != UiConnectionState::Stopped;
    snapshot.transport = Some(source.transport);
    snapshot.port = Some(source.port.clone());
    snapshot.baud_rate = Some(source.baud_rate);
    snapshot.connection_state = Some(event.state);
}

} // verus!
