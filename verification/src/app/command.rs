//! Commands that other threads hand to the runtime, the stop signal, and
//! the reconnect counter.

use vstd::prelude::*;
use crate::bmi088::Bmi088HostCommand;
use crate::error::{AppError, IoErrorKind};
use crate::text::owned;
use std::sync::Arc;
use std::sync::atomic::{AtomicBool, Ordering};
use std::sync::mpsc::Sender;

verus! {

#[verifier::external_type_specification]
#[verifier::external_body]
#[verifier::reject_recursive_types(T)]
pub struct ExSender<T>(Sender<T>);

/// A request for the runtime: bytes to write as they are, or a BMI088 host
/// command with an optional payload.
#[derive(Debug)]
#[allow(inconsistent_fields)]
pub enum RuntimeCommand {
    Send { payload: Vec<u8> },
    SendBmi088 { command: Bmi088HostCommand, payload: Option<Vec<u8>> },
}

/// The command that queues bytes to write as they are.
pub fn payload_command(payload: Vec<u8>) -> (c: RuntimeCommand)
    ensures
        c == (RuntimeCommand::Send { payload }),
{
    RuntimeCommand::Send { payload }
}

/// The command that queues a BMI088 host command with an optional payload.
pub fn bmi088_command(command: Bmi088HostCommand, payload: Option<Vec<u8>>) -> (c: RuntimeCommand)
    ensures
        c == (RuntimeCommand::SendBmi088 { command, payload }),
{
    RuntimeCommand::SendBmi088 { command, payload }
}

/// Hands a command to the runtime's queue.
///
/// Calls `Sender::send`, which fails only when the receiving side is gone;
/// whether it is gone depends on the other thread, so nothing is claimed of
/// the result.
#[verifier::external_body]
fn channel_send(sender: &Sender<RuntimeCommand>, command: RuntimeCommand) -> (delivered: bool) {
    sender.send(command).is_ok()
}

/// The error for a closed command queue: a broken pipe.
pub open spec fn channel_closed_error(e: AppError) -> bool {
    e matches AppError::Io { kind, message } && kind == IoErrorKind::BrokenPipe && message@
        == "runtime command channel is closed"@
}

fn channel_closed() -> (e: AppError)
    ensures
        channel_closed_error(e),
{
    AppError::Io { kind: IoErrorKind::BrokenPipe, message: owned("runtime command channel is closed") }
}

/// A handle through which other threads queue commands for the runtime.
#[derive(Debug)]
pub struct RuntimeCommandHandle {
    sender: Sender<RuntimeCommand>,
}

/// Another sender into the same queue.
///
/// Calls `Clone for Sender`, which makes a sender of the same channel;
/// nothing about it is claimed.
#[verifier::external_body]
fn clone_sender(sender: &Sender<RuntimeCommand>) -> (out: Sender<RuntimeCommand>) {
    sender.clone()
}

impl Clone for RuntimeCommandHandle {
    fn clone(&self) -> (out: Self) {
        RuntimeCommandHandle { sender: clone_sender(&self.sender) }
    }
}

impl RuntimeCommandHandle {
    /// The sender into the runtime's queue that this handle uses.
    pub closed spec fn queue(&self) -> Sender<RuntimeCommand> {
        self.sender
    }

    /// A handle that queues into `sender`.
    pub fn new(sender: Sender<RuntimeCommand>) -> (out: Self)
        ensures
            out.queue() == sender,
    {
        RuntimeCommandHandle { sender }
    }

    /// Queues bytes to write as they are. Fails when the runtime is gone.
    pub fn send_payload(&self, payload: Vec<u8>) -> (r: Result<(), AppError>)
        ensures
            r matches Err(e) ==> channel_closed_error(e),
    {
        if channel_send(&self.sender, payload_command(payload)) {
            Ok(())
        } else {
            Err(channel_closed())
        }
    }

    /// Queues a BMI088 host command. Fails when the runtime is gone.
    pub fn send_bmi088_command(&self, command: Bmi088HostCommand, payload: Option<Vec<u8>>) -> (r:
        Result<(), AppError>)
        ensures
            r matches Err(e) ==> channel_closed_error(e),
    {
        if channel_send(&self.sender, bmi088_command(command, payload)) {
            Ok(())
        } else {
            Err(channel_closed())
        }
    }
}

/// A flag shared between threads that asks the runtime to stop.
#[derive(Clone, Debug)]
pub struct StopSignal {
    requested: Arc<AtomicBool>,
}

impl StopSignal {
    /// A signal that has not been raised.
    pub fn new() -> (out: Self) {
        StopSignal { requested: Arc::new(AtomicBool::new(false)) }
    }

    /// Raises the signal for every clone of it.
    pub fn request_stop(&self) {
        self.requested.store(true, Ordering::SeqCst);
    }

    /// Whether some clone of the signal was raised. Another thread may raise
    /// it at any time, so the answer is only a snapshot.
    pub fn is_requested(&self) -> (r: bool) {
        self.requested.load(Ordering::SeqCst)
    }
}

impl Default for StopSignal {
    fn default() -> (out: Self) {
        StopSignal::new()
    }
}

/// Counts connection attempts since the last success.
#[derive(Clone, Debug, PartialEq, Eq, Structural)]
pub struct ReconnectController {
    attempt: u32,
    retry_delay_ms: u64,
}

impl ReconnectController {
    /// The number of attempts since the last success.
    pub closed spec fn attempts(&self) -> u32 {
        self.attempt
    }

    /// The pause between attempts, in milliseconds.
    pub closed spec fn delay_ms(&self) -> u64 {
        self.retry_delay_ms
    }

    /// A counter with no attempt yet.
    pub fn new(retry_delay_ms: u64) -> (out: Self)
        ensures
            out.attempts() == 0,
            out.delay_ms() == retry_delay_ms,
    {
        ReconnectController { attempt: 0, retry_delay_ms }
    }

    /// The number of attempts since the last success.
    pub fn attempt_count(&self) -> (n: u32)
        ensures
            n == self.attempts(),
    {
        self.attempt
    }

    /// Starts an attempt and returns its number, counting from 1.
    pub fn start_attempt(&mut self) -> (n: u32)
        requires
            old(self).attempts() < u32::MAX,
        ensures
            n == old(self).attempts() + 1,
            final(self).attempts() == n,
            final(self).delay_ms() == old(self).delay_ms(),
            attempt_step(*old(self), *final(self)),
    {
        self.attempt = self.attempt + 1;
        self.attempt
    }

    /// Forgets the attempts after a success.
    pub fn reset(&mut self)
        ensures
            final(self).attempts() == 0,
            final(self).delay_ms() == old(self).delay_ms(),
    {
        self.attempt = 0;
    }

    /// The pause between attempts, in milliseconds.
    pub fn retry_delay_ms(&self) -> (ms: u64)
        ensures
            ms == self.delay_ms(),
    {
        self.retry_delay_ms
    }
}

/// What one `start_attempt` does: one more attempt, the same pause.
pub open spec fn attempt_step(before: ReconnectController, after: ReconnectController) -> bool {
    &&& after.attempts() == before.attempts() + 1
    &&& after.delay_ms() == before.delay_ms()
}

/// Counting from a fresh counter (or one just reset) with pause `delay_ms`,
/// the counter after `k` calls of `start_attempt` has counted `k` attempts
/// (so the next call returns `k + 1`), and the pause never changes.
pub proof fn lemma_attempts_count_up(trace: Seq<ReconnectController>, delay_ms: u64)
    requires
        trace.len() >= 1,
        trace[0].attempts() == 0,
        trace[0].delay_ms() == delay_ms,
        forall|i: int| 0 <= i < trace.len() - 1 ==> attempt_step(#[trigger] trace[i], trace[i + 1]),
    ensures
        forall|k: int| 0 <= k < trace.len() ==> (#[trigger] trace[k]).attempts() == k && trace[k].delay_ms()
            == delay_ms,
    decreases trace.len(),
{
    if trace.len() > 1 {
        let prev = trace.drop_last();
        assert forall|i: int| 0 <= i < prev.len() - 1 implies attempt_step(#[trigger] prev[i], prev[i + 1]) by {
            assert(prev[i] == trace[i] && prev[i + 1] == trace[i + 1]);
            assert(attempt_step(trace[i], trace[i + 1]));
        }
        lemma_attempts_count_up(prev, delay_ms);
        assert forall|k: int| 0 <= k < trace.len() implies (#[trigger] trace[k]).attempts() == k && trace[k].delay_ms()
            == delay_ms by {
            if k < trace.len() - 1 {
                assert(prev[k] == trace[k]);
            } else {
                let j = k - 1;
                assert(prev[j] == trace[j]);
                assert(attempt_step(trace[j], trace[j + 1]));
            }
        }
    }
}

} // verus!
