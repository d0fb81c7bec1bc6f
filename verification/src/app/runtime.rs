//! The decisions of the reader loop: what a received chunk turns into under
//! each parser, which handshake commands go out, what becomes of a queued
//! command, and the connect, retry and stop sequence of the loop itself.

use vstd::prelude::*;
use crate::bmi088::host::{command_from_text_spec, host_command_from_text};
use crate::bmi088::models::{Bmi088Frame, Bmi088HostCommand, Bmi088SessionPhase, FrameModel};
use crate::bmi088::session::{
    boot_spec, on_command_spec, on_commands_spec, on_frame_spec, schema_retry_spec, Bmi088SessionState,
    SessionModel,
};
use crate::bmi088::stream::{packets_model, stream_run, Bmi088StreamDecoder, PacketModel, StreamModel, TelemetryPacket};
use crate::cli::ParserKind;
use crate::message::{LinePayload, LinePayloadModel};
use crate::serial::{FrameStatus, FramedLine, FramedLineModel};
use super::command::RuntimeCommand;
use super::{bmi088_startup_enabled, chunk_line};
use crate::text::{lossy_text, utf8_lossy};

verus! {

/// What the loop does with part of a received chunk.
#[derive(Debug)]
pub enum ChunkAction {
    /// Announce that BMI088 framing was found in the stream.
    ProtocolDetected,
    /// Publish a received text line, parsed with `parser` and analysed.
    Line { line: FramedLine, parser: ParserKind },
    /// Publish the output of a device shell command.
    ShellOutput(LinePayload),
    /// Publish a device frame; the session has already taken it in.
    Frame(Bmi088Frame),
    /// Write a host command; the session has already recorded it.
    SendCommand(Bmi088HostCommand),
}

/// Abstract value of a chunk action.
pub enum ChunkActionModel {
    ProtocolDetected,
    Line(FramedLineModel, ParserKind),
    ShellOutput(LinePayloadModel),
    Frame(FrameModel),
    SendCommand(Bmi088HostCommand),
}

impl View for ChunkAction {
    type V = ChunkActionModel;

    open spec fn view(&self) -> ChunkActionModel {
        match self {
            ChunkAction::ProtocolDetected => ChunkActionModel::ProtocolDetected,
            ChunkAction::Line { line, parser } => ChunkActionModel::Line(line@, *parser),
            ChunkAction::ShellOutput(o) => ChunkActionModel::ShellOutput(o@),
            ChunkAction::Frame(f) => ChunkActionModel::Frame(f@),
            ChunkAction::SendCommand(c) => ChunkActionModel::SendCommand(*c),
        }
    }
}

/// The abstract values of a list of actions.
pub open spec fn actions_model(v: Seq<ChunkAction>) -> Seq<ChunkActionModel> {
    v.map_values(|a: ChunkAction| a@)
}

/// Host commands as send actions.
pub open spec fn send_actions(cmds: Seq<Bmi088HostCommand>) -> Seq<ChunkActionModel> {
    cmds.map_values(|c: Bmi088HostCommand| ChunkActionModel::SendCommand(c))
}

/// A whole chunk as one text line.
pub open spec fn chunk_line_model(chunk: Seq<u8>) -> FramedLineModel {
    FramedLineModel {
        payload: LinePayloadModel { text: crate::text::utf8_lossy(chunk), raw: chunk },
        status: FrameStatus::Complete,
    }
}

/// The session after it takes in a frame and sends the commands that
/// answer it, and the actions: the commands, then the frame.
pub open spec fn frame_step(s: SessionModel, f: FrameModel) -> (SessionModel, Seq<ChunkActionModel>) {
    let (s1, cmds) = on_frame_spec(s, f);
    (
        SessionModel { phase: on_commands_spec(s1.phase, cmds), ..s1 },
        send_actions(cmds) + seq![ChunkActionModel::Frame(f)],
    )
}

/// What one decoded packet turns into: text lines are parsed automatically,
/// shell output is published, device frames go through the session.
pub open spec fn packet_step(s: SessionModel, p: PacketModel) -> (SessionModel, Seq<ChunkActionModel>) {
    match p {
        PacketModel::Text(l) => (s, seq![ChunkActionModel::Line(l, ParserKind::Auto)]),
        PacketModel::ShellOutput(o) => (s, seq![ChunkActionModel::ShellOutput(o)]),
        PacketModel::Identity(id) => frame_step(s, FrameModel::Identity(id)),
        PacketModel::Schema(sc) => frame_step(s, FrameModel::Schema(sc)),
        PacketModel::Sample(x) => frame_step(s, FrameModel::Sample(x)),
    }
}

/// What a list of packets turns into, in order.
pub open spec fn packets_step(s: SessionModel, ps: Seq<PacketModel>) -> (SessionModel, Seq<ChunkActionModel>)
    decreases ps.len(),
{
    if ps.len() == 0 {
        (s, Seq::empty())
    } else {
        let (s1, a1) = packets_step(s, ps.drop_last());
        let (s2, a2) = packet_step(s1, ps.last());
        (s2, a1 + a2)
    }
}

/// What a received chunk turns into under `parser`: with the BMI088
/// parser, the packets the stream decoder finds; with automatic detection,
/// the same announced once when there are any, else the chunk as one text
/// line; with any other parser, the chunk as one text line parsed by it.
pub open spec fn chunk_step(parser: ParserKind, chunk: Seq<u8>, d: StreamModel, s: SessionModel) -> (
    StreamModel,
    SessionModel,
    Seq<ChunkActionModel>,
) {
    if parser == ParserKind::Bmi088 || parser == ParserKind::Auto {
        let (d1, ps) = stream_run(StreamModel { buffer: d.buffer + chunk, ..d });
        let (s1, acts) = packets_step(s, ps);
        if parser == ParserKind::Bmi088 {
            (d1, s1, acts)
        } else if ps.len() > 0 {
            (d1, s1, seq![ChunkActionModel::ProtocolDetected] + acts)
        } else {
            (d1, s1, seq![ChunkActionModel::Line(chunk_line_model(chunk), ParserKind::Auto)])
        }
    } else {
        (d, s, seq![ChunkActionModel::Line(chunk_line_model(chunk), parser)])
    }
}

/// Records each command on the session and appends a send action for it.
fn send_all(cmds: &Vec<Bmi088HostCommand>, session: &mut Bmi088SessionState, out: &mut Vec<ChunkAction>)
    ensures
        final(session)@ == (SessionModel { phase: on_commands_spec(old(session)@.phase, cmds@), ..old(session)@ }),
        actions_model(final(out)@) == actions_model(old(out)@) + send_actions(cmds@),
{
    let mut i: usize = 0;
    assert(cmds@.skip(0) =~= cmds@);
    while i < cmds.len()
        invariant
            i <= cmds.len(),
            session@ == (SessionModel { phase: session@.phase, ..old(session)@ }),
            on_commands_spec(session@.phase, cmds@.skip(i as int)) == on_commands_spec(old(session)@.phase, cmds@),
            actions_model(out@) =~= actions_model(old(out)@) + send_actions(cmds@).take(i as int),
        decreases cmds.len() - i,
    {
        let c = cmds[i];
        assert(cmds@.skip(i as int).drop_first() =~= cmds@.skip(i + 1));
        session.on_host_command(c);
        let ghost before = out@;
        out.push(ChunkAction::SendCommand(c));
        assert(actions_model(out@) =~= actions_model(before).push(ChunkActionModel::SendCommand(c)));
        i = i + 1;
    }
    assert(send_actions(cmds@).take(cmds.len() as int) =~= send_actions(cmds@));
    assert(cmds@.skip(cmds.len() as int) =~= Seq::<Bmi088HostCommand>::empty());
}

/// Takes a device frame into the session, sends its answer and publishes it.
fn frame_actions(frame: Bmi088Frame, session: &mut Bmi088SessionState, out: &mut Vec<ChunkAction>)
    ensures
        final(session)@ == frame_step(old(session)@, frame@).0,
        actions_model(final(out)@) == actions_model(old(out)@) + frame_step(old(session)@, frame@).1,
{
    let ghost f = frame@;
    let cmds = session.on_frame(&frame);
    send_all(&cmds, session, out);
    let ghost before = out@;
    out.push(ChunkAction::Frame(frame));
    assert(actions_model(out@) =~= actions_model(before).push(ChunkActionModel::Frame(f)));
}

/// What one decoded packet turns into; see `packet_step`.
fn packet_actions(packet: TelemetryPacket, session: &mut Bmi088SessionState, out: &mut Vec<ChunkAction>)
    ensures
        final(session)@ == packet_step(old(session)@, packet@).0,
        actions_model(final(out)@) == actions_model(old(out)@) + packet_step(old(session)@, packet@).1,
{
    let ghost before = out@;
    match packet {
        TelemetryPacket::Text(line) => {
            let ghost l = line@;
            out.push(ChunkAction::Line { line, parser: ParserKind::Auto });
            assert(actions_model(out@) =~= actions_model(before) + seq![ChunkActionModel::Line(l, ParserKind::Auto)]);
        },
        TelemetryPacket::ShellOutput(o) => {
            let ghost m = o@;
            out.push(ChunkAction::ShellOutput(o));
            assert(actions_model(out@) =~= actions_model(before) + seq![ChunkActionModel::ShellOutput(m)]);
        },
        TelemetryPacket::Identity(id) => frame_actions(Bmi088Frame::Identity(id), session, out),
        TelemetryPacket::Schema(sc) => frame_actions(Bmi088Frame::Schema(sc), session, out),
        TelemetryPacket::Sample(x) => frame_actions(Bmi088Frame::Sample(x), session, out),
    }
}

/// What a received chunk turns into; see `chunk_step`. The decoder and the
/// session move on as the chunk says.
pub fn chunk_actions(
    parser: ParserKind,
    chunk: &[u8],
    decoder: &mut Bmi088StreamDecoder,
    session: &mut Bmi088SessionState,
) -> (out: Vec<ChunkAction>)
    ensures
        (final(decoder)@, final(session)@, actions_model(out@)) == chunk_step(parser, chunk@, old(decoder)@, old(session)@),
{
    let mut out: Vec<ChunkAction> = Vec::new();
    if parser == ParserKind::Bmi088 || parser == ParserKind::Auto {
        let mut packets = decoder.push(chunk);
        let ghost ps = packets_model(packets@);
        let any = packets.len() > 0;
        if parser == ParserKind::Auto && any {
            out.push(ChunkAction::ProtocolDetected);
        }
        let ghost head = actions_model(out@);
        let ghost s0 = session@;
        let ghost n = packets@.len();
        assert(ps.take(0) =~= Seq::<PacketModel>::empty());
        assert(packets_model(packets@) =~= ps.skip(0));
        while packets.len() > 0
            invariant
                n == ps.len(),
                packets_model(packets@) == ps.skip(n - packets@.len()),
                packets@.len() <= n,
                (session@, actions_model(out@)) == ({
                    let (s1, a1) = packets_step(s0, ps.take(n - packets@.len()));
                    (s1, head + a1)
                }),
            decreases packets@.len(),
        {
            let ghost k = n - packets@.len();
            let ghost old_packets = packets@;
            assert(packets_model(old_packets)[0] == ps.skip(k)[0]);
            let p = packets.remove(0);
            assert(p == old_packets[0]);
            assert(p@ == ps[k]);
            assert(packets@ =~= old_packets.subrange(1, old_packets.len() as int));
            assert forall|j: int| 0 <= j < packets@.len() implies #[trigger] packets_model(packets@)[j] == ps.skip(k + 1)[j] by {
                assert(packets@[j] == old_packets[j + 1]);
                assert(packets_model(old_packets)[j + 1] == ps.skip(k)[j + 1]);
            }
            assert(packets_model(packets@) =~= ps.skip(k + 1));
            assert(ps.take(k + 1).drop_last() =~= ps.take(k));
            let ghost prev = actions_model(out@);
            packet_actions(p, session, &mut out);
            assert(actions_model(out@) =~= head + packets_step(s0, ps.take(k + 1)).1);
        }
        assert(ps.take(n as int) =~= ps);
        if parser == ParserKind::Auto && !any {
            let line = chunk_line(chunk);
            assert(ps.len() == 0);
            assert(packets_step(s0, ps).1 =~= Seq::<ChunkActionModel>::empty());
            let mut fresh: Vec<ChunkAction> = Vec::new();
            fresh.push(ChunkAction::Line { line, parser: ParserKind::Auto });
            assert(actions_model(fresh@) =~= seq![ChunkActionModel::Line(chunk_line_model(chunk@), ParserKind::Auto)]);
            return fresh;
        }
        if parser == ParserKind::Auto {
            assert(head =~= seq![ChunkActionModel::ProtocolDetected]);
        } else {
            assert(head =~= Seq::<ChunkActionModel>::empty());
            assert(actions_model(out@) =~= packets_step(s0, ps).1);
        }
        out
    } else {
        let line = chunk_line(chunk);
        out.push(ChunkAction::Line { line, parser });
        assert(actions_model(out@) =~= seq![ChunkActionModel::Line(chunk_line_model(chunk@), parser)]);
        out
    }
}

/// The handshake commands sent when the link comes up: with the BMI088
/// parser, the session's boot commands; with any other parser, none. The
/// session records what is sent.
pub fn connect_commands(parser: ParserKind, session: &mut Bmi088SessionState) -> (out: Vec<ChunkAction>)
    ensures
        parser == ParserKind::Bmi088 ==> ({
            let (s1, cmds) = boot_spec(old(session)@);
            &&& actions_model(out@) == send_actions(cmds)
            &&& final(session)@ == (SessionModel { phase: on_commands_spec(s1.phase, cmds), ..s1 })
        }),
        parser != ParserKind::Bmi088 ==> out@.len() == 0 && final(session)@ == old(session)@,
{
    let mut out: Vec<ChunkAction> = Vec::new();
    if bmi088_startup_enabled(parser) {
        let cmds = session.boot_commands();
        send_all(&cmds, session, &mut out);
        assert(actions_model(out@) =~= send_actions(cmds@));
    }
    out
}

/// The handshake commands resent after a chunk: with the BMI088 parser and
/// the schema still awaited, the session's retry commands; otherwise none.
/// The session records what is sent.
pub fn retry_commands(parser: ParserKind, session: &mut Bmi088SessionState) -> (out: Vec<ChunkAction>)
    ensures
        parser == ParserKind::Bmi088 && old(session)@.phase == Bmi088SessionPhase::AwaitingSchema ==> ({
            let cmds = schema_retry_spec(old(session)@);
            &&& actions_model(out@) == send_actions(cmds)
            &&& final(session)@ == (SessionModel { phase: on_commands_spec(old(session)@.phase, cmds), ..old(session)@ })
        }),
        !(parser == ParserKind::Bmi088 && old(session)@.phase == Bmi088SessionPhase::AwaitingSchema) ==> out@.len()
            == 0 && final(session)@ == old(session)@,
{
    let mut out: Vec<ChunkAction> = Vec::new();
    if bmi088_startup_enabled(parser) && session.phase() == Bmi088SessionPhase::AwaitingSchema {
        let cmds = session.schema_retry_commands();
        send_all(&cmds, session, &mut out);
        assert(actions_model(out@) =~= send_actions(cmds@));
    }
    out
}

/// What the loop does with a command taken from its queue.
#[derive(Debug)]
pub enum CommandAction {
    /// Write the bytes as they are.
    WriteRaw(Vec<u8>),
    /// Encode and write a host command, with its payload if it has one; the
    /// session records the command once it is written.
    SendHost { command: Bmi088HostCommand, payload: Option<Vec<u8>> },
}

/// What a queued command becomes. Under the BMI088 parser, bytes whose
/// lossy UTF-8 text names a host command (blanks and ASCII case aside) are
/// sent as that command; other bytes are written as they are. A host command
/// is sent with its payload.
pub open spec fn command_action_spec(parser: ParserKind, command: RuntimeCommand) -> CommandAction {
    match command {
        RuntimeCommand::Send { payload } => match command_from_text_spec(utf8_lossy(payload@)) {
            Some(c) if parser == ParserKind::Bmi088 => CommandAction::SendHost { command: c, payload: None },
            _ => CommandAction::WriteRaw(payload),
        },
        RuntimeCommand::SendBmi088 { command, payload } => CommandAction::SendHost { command, payload },
    }
}

/// Decides what to do with a command taken from the queue; see
/// `command_action_spec`.
pub fn command_action(parser: ParserKind, command: RuntimeCommand) -> (out: CommandAction)
    ensures
        out == command_action_spec(parser, command),
{
    match command {
        RuntimeCommand::Send { payload } => {
            if bmi088_startup_enabled(parser) {
                let text = lossy_text(payload.as_slice());
                match host_command_from_text(text.as_str()) {
                    Some(c) => CommandAction::SendHost { command: c, payload: None },
                    None => CommandAction::WriteRaw(payload),
                }
            } else {
                CommandAction::WriteRaw(payload)
            }
        },
        RuntimeCommand::SendBmi088 { command, payload } => CommandAction::SendHost { command, payload },
    }
}

/// Where the reader loop stands.
#[derive(Clone, Copy, Debug, PartialEq, Eq, Structural)]
pub enum RunPhase {
    /// Nothing published yet.
    Fresh,
    /// About to check for a stop and start a connection attempt.
    Ready,
    /// Waiting for the port of attempt `n` to open.
    Opening(u32),
    /// Reading from the port opened by attempt `n`.
    Reading(u32),
    /// Waiting to retry after attempt `n` failed.
    Waiting(u32),
    /// Stopped for good.
    Done,
}

/// What happened since the loop's last step.
#[derive(Clone, Copy, Debug, PartialEq, Eq, Structural)]
pub enum RunEvent {
    /// The loop checked the stop signal; `stop` is whether it was raised.
    Poll { stop: bool },
    /// The port opened.
    Opened,
    /// The port could not be opened.
    OpenFailed,
    /// Writing a queued command to the open port failed.
    LinkFailed,
    /// The pause before a retry ended; `interrupted` when a stop cut it short.
    Slept { interrupted: bool },
}

/// What the loop does next.
#[derive(Clone, Copy, Debug, PartialEq, Eq, Structural)]
pub enum RunAction {
    /// Publish a connection state with an attempt number; `stop_requested`
    /// marks a stop that was requested; `retry_ms` goes with a retry.
    Publish { state: crate::message::ConnectionState, attempt: u32, stop_requested: bool, retry_ms: Option<u64> },
    /// Open the port.
    OpenPort,
    /// Start a device session on the open port: fresh decoders, and the
    /// handshake of `connect_commands`.
    StartSession,
    /// Write the queued commands (`command_action`), then read a chunk and
    /// act on it (`chunk_actions`, then `retry_commands`).
    ReadChunk,
    /// Pause before retrying, checking the stop signal meanwhile.
    Sleep(u64),
    /// Leave the loop.
    Finish,
}

/// The loop's state: its phase, the attempts since the last success, and
/// the pause between attempts.
#[derive(Clone, Copy, Debug, PartialEq, Eq, Structural)]
pub struct RunState {
    pub phase: RunPhase,
    pub attempts: u32,
    pub retry_delay_ms: u64,
}

/// A loop that has done nothing yet.
pub fn run_start(retry_delay_ms: u64) -> (out: RunState)
    ensures
        out == (RunState { phase: RunPhase::Fresh, attempts: 0, retry_delay_ms }),
{
    RunState { phase: RunPhase::Fresh, attempts: 0, retry_delay_ms }
}

/// The actions of a stop at `attempt`.
pub open spec fn stop_actions(attempt: u32) -> Seq<RunAction> {
    seq![
        RunAction::Publish {
            state: crate::message::ConnectionState::Stopped,
            attempt,
            stop_requested: true,
            retry_ms: None,
        },
        RunAction::Finish,
    ]
}

/// The check at the top of the loop: stop, or start the next attempt.
pub open spec fn ready_step(st: RunState, stop: bool) -> (RunState, Seq<RunAction>) {
    if stop {
        (RunState { phase: RunPhase::Done, ..st }, stop_actions(0))
    } else {
        let n = (st.attempts + 1) as u32;
        (
            RunState { phase: RunPhase::Opening(n), attempts: n, ..st },
            seq![
                RunAction::Publish {
                    state: crate::message::ConnectionState::Connecting,
                    attempt: n,
                    stop_requested: false,
                    retry_ms: None,
                },
                RunAction::OpenPort,
            ],
        )
    }
}

/// A failed attempt `n`: publish `WaitingRetry` with the pause, and pause.
pub open spec fn retry_step(st: RunState, n: u32) -> (RunState, Seq<RunAction>) {
    (
        RunState { phase: RunPhase::Waiting(n), ..st },
        seq![
            RunAction::Publish {
                state: crate::message::ConnectionState::WaitingRetry,
                attempt: n,
                stop_requested: false,
                retry_ms: Some(st.retry_delay_ms),
            },
            RunAction::Sleep(st.retry_delay_ms),
        ],
    )
}

/// One step of the reader loop. It first publishes `Idle`; at the top of
/// each round a raised stop publishes `Stopped` (attempt 0) and ends the
/// loop, else the next attempt is announced and the port opened. An open
/// port resets the attempt count, publishes `Connected` and is read until a
/// stop or until writing to it fails; a port that failed to open or to take
/// a write publishes `WaitingRetry` with the pause and pauses,
/// and a stop during the pause ends the loop. Events that do not fit the
/// phase change nothing.
pub open spec fn run_step_spec(st: RunState, ev: RunEvent) -> (RunState, Seq<RunAction>) {
    match (st.phase, ev) {
        (RunPhase::Fresh, RunEvent::Poll { stop }) => {
            let (st1, acts) = ready_step(st, stop);
            (
                st1,
                seq![
                    RunAction::Publish {
                        state: crate::message::ConnectionState::Idle,
                        attempt: 0,
                        stop_requested: false,
                        retry_ms: None,
                    },
                ] + acts,
            )
        },
        (RunPhase::Ready, RunEvent::Poll { stop }) => ready_step(st, stop),
        (RunPhase::Opening(n), RunEvent::Opened) => (
            RunState { phase: RunPhase::Reading(n), attempts: 0, ..st },
            seq![
                RunAction::Publish {
                    state: crate::message::ConnectionState::Connected,
                    attempt: n,
                    stop_requested: false,
                    retry_ms: None,
                },
                RunAction::StartSession,
            ],
        ),
        (RunPhase::Opening(n), RunEvent::OpenFailed) => retry_step(st, n),
        (RunPhase::Reading(n), RunEvent::LinkFailed) => retry_step(st, n),
        (RunPhase::Reading(n), RunEvent::Poll { stop }) => if stop {
            (RunState { phase: RunPhase::Done, ..st }, stop_actions(n))
        } else {
            (st, seq![RunAction::ReadChunk])
        },
        (RunPhase::Waiting(n), RunEvent::Slept { interrupted }) => if interrupted {
            (RunState { phase: RunPhase::Done, ..st }, stop_actions(n))
        } else {
            (RunState { phase: RunPhase::Ready, ..st }, Seq::empty())
        },
        _ => (st, Seq::empty()),
    }
}

/// Whether starting the next attempt would overflow the attempt counter
/// (the count cannot go past `u32::MAX`).
pub open spec fn attempt_overflows(st: RunState, ev: RunEvent) -> bool {
    (st.phase == RunPhase::Fresh || st.phase == RunPhase::Ready) && ev == (RunEvent::Poll { stop: false })
        && st.attempts == u32::MAX
}

/// Whether `run_step` would overflow the attempt counter on this event.
pub fn run_step_overflows(st: RunState, ev: RunEvent) -> (r: bool)
    ensures
        r == attempt_overflows(st, ev),
{
    (st.phase == RunPhase::Fresh || st.phase == RunPhase::Ready) && ev == (RunEvent::Poll { stop: false })
        && st.attempts == u32::MAX
}

fn ready_actions(st: RunState, stop: bool) -> (out: (RunState, Vec<RunAction>))
    requires
        !stop ==> st.attempts < u32::MAX,
    ensures
        (out.0, out.1@) == ready_step(st, stop),
{
    let mut acts: Vec<RunAction> = Vec::new();
    if stop {
        acts.push(RunAction::Publish {
            state: crate::message::ConnectionState::Stopped,
            attempt: 0,
            stop_requested: true,
            retry_ms: None,
        });
        acts.push(RunAction::Finish);
        assert(acts@ =~= stop_actions(0));
        (RunState { phase: RunPhase::Done, ..st }, acts)
    } else {
        let n = st.attempts + 1;
        acts.push(RunAction::Publish {
            state: crate::message::ConnectionState::Connecting,
            attempt: n,
            stop_requested: false,
            retry_ms: None,
        });
        acts.push(RunAction::OpenPort);
        assert(acts@ =~= ready_step(st, stop).1);
        (RunState { phase: RunPhase::Opening(n), attempts: n, ..st }, acts)
    }
}

fn stop_vec(attempt: u32) -> (out: Vec<RunAction>)
    ensures
        out@ == stop_actions(attempt),
{
    let mut acts: Vec<RunAction> = Vec::new();
    acts.push(RunAction::Publish {
        state: crate::message::ConnectionState::Stopped,
        attempt,
        stop_requested: true,
        retry_ms: None,
    });
    acts.push(RunAction::Finish);
    assert(acts@ =~= stop_actions(attempt));
    acts
}

fn retry_vec(st: RunState, n: u32) -> (out: (RunState, Vec<RunAction>))
    ensures
        (out.0, out.1@) == retry_step(st, n),
{
    let mut acts: Vec<RunAction> = Vec::new();
    acts.push(RunAction::Publish {
        state: crate::message::ConnectionState::WaitingRetry,
        attempt: n,
        stop_requested: false,
        retry_ms: Some(st.retry_delay_ms),
    });
    acts.push(RunAction::Sleep(st.retry_delay_ms));
    assert(acts@ =~= retry_step(st, n).1);
    (RunState { phase: RunPhase::Waiting(n), ..st }, acts)
}

/// One step of the reader loop; see `run_step_spec`.
pub fn run_step(st: RunState, ev: RunEvent) -> (out: (RunState, Vec<RunAction>))
    requires
        !attempt_overflows(st, ev),
    ensures
        (out.0, out.1@) == run_step_spec(st, ev),
{
    match (st.phase, ev) {
        (RunPhase::Fresh, RunEvent::Poll { stop }) => {
            let (st1, rest) = ready_actions(st, stop);
            let mut acts: Vec<RunAction> = Vec::new();
            acts.push(RunAction::Publish {
                state: crate::message::ConnectionState::Idle,
                attempt: 0,
                stop_requested: false,
                retry_ms: None,
            });
            let mut rest = rest;
            acts.append(&mut rest);
            assert(acts@ =~= run_step_spec(st, ev).1);
            (st1, acts)
        },
        (RunPhase::Ready, RunEvent::Poll { stop }) => ready_actions(st, stop),
        (RunPhase::Opening(n), RunEvent::Opened) => {
            let mut acts: Vec<RunAction> = Vec::new();
            acts.push(RunAction::Publish {
                state: crate::message::ConnectionState::Connected,
                attempt: n,
                stop_requested: false,
                retry_ms: None,
            });
            acts.push(RunAction::StartSession);
            assert(acts@ =~= run_step_spec(st, ev).1);
            (RunState { phase: RunPhase::Reading(n), attempts: 0, ..st }, acts)
        },
        (RunPhase::Opening(n), RunEvent::OpenFailed) => retry_vec(st, n),
        (RunPhase::Reading(n), RunEvent::LinkFailed) => retry_vec(st, n),
        (RunPhase::Reading(n), RunEvent::Poll { stop }) => {
            if stop {
                (RunState { phase: RunPhase::Done, ..st }, stop_vec(n))
            } else {
                let mut acts: Vec<RunAction> = Vec::new();
                acts.push(RunAction::ReadChunk);
                assert(acts@ =~= seq![RunAction::ReadChunk]);
                (st, acts)
            }
        },
        (RunPhase::Waiting(n), RunEvent::Slept { interrupted }) => {
            if interrupted {
                (RunState { phase: RunPhase::Done, ..st }, stop_vec(n))
            } else {
                (RunState { phase: RunPhase::Ready, ..st }, Vec::new())
            }
        },
        _ => (st, Vec::new()),
    }
}

} // verus!
