//! The simulated session that the desktop front end offers without a
//! device: its naming, and the handle through which it is driven.

use vstd::prelude::*;
use crate::text::owned;
use std::sync::Arc;
use std::sync::atomic::{AtomicBool, Ordering};
use std::sync::mpsc::Sender;

verus! {

/// The profile used when none is chosen.
pub const DEFAULT_FAKE_PROFILE: &'static str = "telemetry-lab";

/// A request for the simulated session.
#[derive(Debug)]
pub enum FakeCommand {
    Send { payload: Vec<u8> },
}

/// The command that writes bytes to the simulated session.
pub fn fake_send_command(payload: Vec<u8>) -> (c: FakeCommand)
    ensures
        c == (FakeCommand::Send { payload }),
{
    FakeCommand::Send { payload }
}

/// Hands a command to the simulated session's queue.
///
/// Calls `Sender::send`, which fails only when the receiving side is gone;
/// whether it is gone depends on the other thread, so nothing is claimed of
/// the result.
#[verifier::external_body]
fn fake_channel_send(sender: &Sender<FakeCommand>, command: FakeCommand) -> (delivered: bool) {
    sender.send(command).is_ok()
}

/// Another sender into the same queue.
///
/// Calls `Clone for Sender`, which makes a sender of the same channel;
/// nothing about it is claimed.
#[verifier::external_body]
fn clone_fake_sender(sender: &Sender<FakeCommand>) -> (out: Sender<FakeCommand>) {
    sender.clone()
}

/// The handle that stops and feeds a simulated session.
#[derive(Debug)]
pub struct FakeSessionHandle {
    stop_requested: Arc<AtomicBool>,
    command_tx: Sender<FakeCommand>,
}

impl Clone for FakeSessionHandle {
    fn clone(&self) -> (out: Self) {
        FakeSessionHandle {
            stop_requested: self.stop_requested.clone(),
            command_tx: clone_fake_sender(&self.command_tx),
        }
    }
}

/// The error of a closed command queue.
pub open spec fn fake_channel_closed(e: String) -> bool {
    e@ == "fake session command channel is closed"@
}

impl FakeSessionHandle {
    /// The stop flag that this handle raises.
    pub closed spec fn stop_flag(&self) -> Arc<AtomicBool> {
        self.stop_requested
    }

    /// The sender into the session's command queue that this handle uses.
    pub closed spec fn queue(&self) -> Sender<FakeCommand> {
        self.command_tx
    }

    /// A handle over a stop flag and a command queue.
    pub fn new(stop_requested: Arc<AtomicBool>, command_tx: Sender<FakeCommand>) -> (out: Self)
        ensures
            out.stop_flag() == stop_requested,
            out.queue() == command_tx,
    {
        FakeSessionHandle { stop_requested, command_tx }
    }

    /// Asks the session to stop.
    pub fn request_stop(&self) {
        self.stop_requested.store(true, Ordering::SeqCst);
    }

    /// Queues bytes as if the user wrote them. Fails when the session is
    /// gone.
    pub fn send_payload(&self, payload: Vec<u8>) -> (r: Result<(), String>)
        ensures
            r matches Err(e) ==> fake_channel_closed(e),
    {
        if fake_channel_send(&self.command_tx, fake_send_command(payload)) {
            Ok(())
        } else {
            Err(owned("fake session command channel is closed"))
        }
    }
}

/// The settings of a simulated session.
#[derive(Clone, Debug)]
pub struct FakeSessionConfig {
    pub port: String,
    pub baud_rate: u32,
    pub profile: String,
}

/// The profile used when none is chosen.
pub fn default_profile() -> (out: &'static str)
    ensures
        out@ == DEFAULT_FAKE_PROFILE@,
{
    DEFAULT_FAKE_PROFILE
}

/// The port name shown for a simulated session.
pub fn fake_port_label(profile: &str) -> (out: String)
    ensures
        out@ == "fake://"@ + profile@,
{
    let mut s = owned("fake://");
    s.append(profile);
    s
}

/// The line that a write to the simulated session shows: the bytes
/// without trailing line ends, and their lossy UTF-8 text.
pub fn line_payload_from_bytes(payload: &[u8]) -> (out: crate::message::LinePayload)
    ensures
        out.raw@ == crate::app::helpers::strip_line_end(payload@),
        out.text@ == crate::text::utf8_lossy(crate::app::helpers::strip_line_end(payload@)),
{
    crate::app::helpers::outbound_payload(payload)
}

} // verus!
