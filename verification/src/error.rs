//! The error type shared by the command-line tools.

use vstd::prelude::*;
use crate::text::owned;

verus! {

/// The kind of an I/O failure, named as std names it.
#[derive(Clone, Copy, Debug, PartialEq, Eq, Structural)]
pub enum IoErrorKind {
    NotFound,
    PermissionDenied,
    BrokenPipe,
    TimedOut,
    Interrupted,
    UnexpectedEof,
    WouldBlock,
    Other,
}

/// Error of the serial tools. Errors of the serial port are carried as the
/// text that their `Display` produced, and I/O errors as their kind and
/// that text.
#[derive(Debug, Clone)]
pub enum AppError {
    Usage(String),
    Serial(String),
    Io { kind: IoErrorKind, message: String },
    LoopbackTimeout(String),
    LoopbackMismatch { expected: String, received: String },
}

/// The text that an error displays.
pub open spec fn error_text(e: AppError) -> Seq<char> {
    match e {
        AppError::Usage(m) => m@,
        AppError::Serial(m) => "serial error: "@ + m@,
        AppError::Io { message, .. } => "io error: "@ + message@,
        AppError::LoopbackTimeout(m) => "loopback timeout: "@ + m@,
        AppError::LoopbackMismatch { expected, received } => "loopback mismatch: expected '"@
            + expected@ + "', received '"@ + received@ + "'"@,
    }
}

impl AppError {
    /// The text of the error, as its `Display` writes it.
    pub fn message(&self) -> (out: String)
        ensures
            out@ == error_text(*self),
    {
        match self {
            AppError::Usage(m) => m.clone(),
            AppError::Serial(m) => {
                let mut s = owned("serial error: ");
                s.append(m.as_str());
                s
            },
            AppError::Io { message, .. } => {
                let mut s = owned("io error: ");
                s.append(message.as_str());
                s
            },
            AppError::LoopbackTimeout(m) => {
                let mut s = owned("loopback timeout: ");
                s.append(m.as_str());
                s
            },
            AppError::LoopbackMismatch { expected, received } => {
                let mut s = owned("loopback mismatch: expected '");
                s.append(expected.as_str());
                s.append("', received '");
                s.append(received.as_str());
                s.append("'");
                s
            },
        }
    }
}

} // verus!
