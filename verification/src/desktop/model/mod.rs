//! Values that the desktop front end exchanges with its user interface.

pub mod bus;
pub mod line;
pub mod logic_analyzer;
pub mod protocol;
pub mod session;

pub use bus::{UiCrtpPacket, UiMavlinkPacket};
pub use line::{normalize_parser_key, UiLineDirection, UiLinePayload, UiParserMeta, UiParserStatus};
pub use logic_analyzer::{
    LogicAnalyzerCaptureRequest, LogicAnalyzerCaptureResult, LogicAnalyzerCaptureState,
    LogicAnalyzerDevice, LogicAnalyzerSessionState, LogicAnalyzerStatus,
    LogicAnalyzerWaveformChannel,
};
pub use protocol::{Bmi088CommandRequest, UiBmi088HostCommand, UiTriggerSeverity};
pub use session::{
    apply_connection_snapshot, ConnectRequest, McpServerStatus, McpToolUsageSnapshot, SendRequest,
    SessionSnapshot, SourceKind, UiConnectionPayload, UiConnectionState, UiSource,
    UiTransportKind,
};
