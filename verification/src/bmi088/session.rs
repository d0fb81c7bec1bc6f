//! The host side of the handshake: request the schema, acknowledge it,
//! start streaming.

use super::models::{
    Bmi088Frame, Bmi088HostCommand, Bmi088IdentityFrame, Bmi088SchemaFrame, Bmi088SessionPhase,
    FrameModel, IdentityModel, SchemaModel,
};
use vstd::prelude::*;

verus! {

/// Handshake state of one device session.
#[derive(Debug)]
pub struct Bmi088SessionState {
    phase: Bmi088SessionPhase,
    identity: Option<Bmi088IdentityFrame>,
    schema: Option<Bmi088SchemaFrame>,
    boot_commands_sent: bool,
}

/// Abstract value of a session.
pub struct SessionModel {
    pub phase: Bmi088SessionPhase,
    pub identity: Option<IdentityModel>,
    pub schema: Option<SchemaModel>,
    pub boot_commands_sent: bool,
}

impl View for Bmi088SessionState {
    type V = SessionModel;

    closed spec fn view(&self) -> SessionModel {
        SessionModel {
            phase: self.phase,
            identity: match self.identity {
                Some(i) => Some(i@),
                None => None,
            },
            schema: match self.schema {
                Some(s) => Some(s@),
                None => None,
            },
            boot_commands_sent: self.boot_commands_sent,
        }
    }
}

/// A fresh session.
pub open spec fn initial_session() -> SessionModel {
    SessionModel {
        phase: Bmi088SessionPhase::AwaitingSchema,
        identity: None,
        schema: None,
        boot_commands_sent: false,
    }
}

/// The commands sent when the link comes up, and the session after: the
/// schema is requested once per session.
pub open spec fn boot_spec(s: SessionModel) -> (SessionModel, Seq<Bmi088HostCommand>) {
    if s.boot_commands_sent {
        (s, Seq::empty())
    } else {
        (
            SessionModel { boot_commands_sent: true, phase: Bmi088SessionPhase::AwaitingSchema, ..s },
            seq![Bmi088HostCommand::ReqSchema],
        )
    }
}

/// The commands to resend while the schema has not arrived.
pub open spec fn schema_retry_spec(s: SessionModel) -> Seq<Bmi088HostCommand> {
    if s.phase == Bmi088SessionPhase::AwaitingSchema {
        seq![Bmi088HostCommand::ReqSchema]
    } else {
        Seq::empty()
    }
}

/// The session after a device frame, and the commands to answer it with.
pub open spec fn on_frame_spec(s: SessionModel, frame: FrameModel) -> (SessionModel, Seq<Bmi088HostCommand>) {
    match frame {
        FrameModel::Identity(id) => (SessionModel { identity: Some(id), ..s }, Seq::empty()),
        FrameModel::ShellOutput(_) => (s, Seq::empty()),
        FrameModel::Schema(sc) => if s.phase == Bmi088SessionPhase::Streaming || s.phase
            == Bmi088SessionPhase::Stopped {
            (SessionModel { schema: Some(sc), ..s }, Seq::empty())
        } else {
            (
                SessionModel { schema: Some(sc), phase: Bmi088SessionPhase::AwaitingAck, ..s },
                seq![Bmi088HostCommand::Ack, Bmi088HostCommand::Start],
            )
        },
        FrameModel::Sample(_) => (SessionModel { phase: Bmi088SessionPhase::Streaming, ..s }, Seq::empty()),
    }
}

/// The phase after the host sends a command.
pub open spec fn on_command_spec(phase: Bmi088SessionPhase, command: Bmi088HostCommand) -> Bmi088SessionPhase {
    match command {
        Bmi088HostCommand::Ack => Bmi088SessionPhase::AwaitingStart,
        Bmi088HostCommand::Start => Bmi088SessionPhase::Streaming,
        Bmi088HostCommand::Stop => Bmi088SessionPhase::Stopped,
        Bmi088HostCommand::ReqSchema => Bmi088SessionPhase::AwaitingSchema,
        _ => phase,
    }
}

/// The phase after the host sends a list of commands in order.
pub open spec fn on_commands_spec(phase: Bmi088SessionPhase, commands: Seq<Bmi088HostCommand>) -> Bmi088SessionPhase
    decreases commands.len(),
{
    if commands.len() == 0 {
        phase
    } else {
        on_commands_spec(on_command_spec(phase, commands[0]), commands.drop_first())
    }
}

impl Bmi088SessionState {
    /// A fresh session, awaiting the schema.
    pub fn new() -> (out: Self)
        ensures
            out@ == initial_session(),
    {
        Bmi088SessionState {
            phase: Bmi088SessionPhase::AwaitingSchema,
            identity: None,
            schema: None,
            boot_commands_sent: false,
        }
    }

    /// The commands to send when the link comes up: a schema request, the
    /// first time only.
    pub fn boot_commands(&mut self) -> (out: Vec<Bmi088HostCommand>)
        ensures
            (final(self)@, out@) == boot_spec(old(self)@),
    {
        if self.boot_commands_sent {
            return Vec::new();
        }
        self.boot_commands_sent = true;
        self.phase = Bmi088SessionPhase::AwaitingSchema;
        let mut out = Vec::new();
        out.push(Bmi088HostCommand::ReqSchema);
        assert(out@ =~= seq![Bmi088HostCommand::ReqSchema]);
        out
    }

    /// The commands to resend while the schema has not arrived.
    pub fn schema_retry_commands(&self) -> (out: Vec<Bmi088HostCommand>)
        ensures
            out@ == schema_retry_spec(self@),
    {
        let mut out = Vec::new();
        if self.phase == Bmi088SessionPhase::AwaitingSchema {
            out.push(Bmi088HostCommand::ReqSchema);
        }
        assert(out@ =~= schema_retry_spec(self@));
        out
    }

    /// The handshake phase.
    pub fn phase(&self) -> (out: Bmi088SessionPhase)
        ensures
            out == self@.phase,
    {
        self.phase
    }

    /// The last schema received, if any.
    pub fn schema(&self) -> (out: Option<&Bmi088SchemaFrame>)
        ensures
            match out {
                Some(s) => self@.schema == Some(s@),
                None => self@.schema is None,
            },
    {
        self.schema.as_ref()
    }

    /// The last identity received, if any.
    pub fn identity(&self) -> (out: Option<&Bmi088IdentityFrame>)
        ensures
            match out {
                Some(i) => self@.identity == Some(i@),
                None => self@.identity is None,
            },
    {
        self.identity.as_ref()
    }

    /// Takes in a device frame and returns the commands that answer it.
    pub fn on_frame(&mut self, frame: &Bmi088Frame) -> (out: Vec<Bmi088HostCommand>)
        ensures
            (final(self)@, out@) == on_frame_spec(old(self)@, frame@),
    {
        match frame {
            Bmi088Frame::Identity(identity) => {
                self.identity = Some(identity.clone());
                Vec::new()
            },
            Bmi088Frame::ShellOutput(_) => Vec::new(),
            Bmi088Frame::Schema(schema) => {
                self.schema = Some(schema.clone());
                if self.phase == Bmi088SessionPhase::Streaming || self.phase
                    == Bmi088SessionPhase::Stopped {
                    return Vec::new();
                }
                self.phase = Bmi088SessionPhase::AwaitingAck;
                let mut out = Vec::new();
                out.push(Bmi088HostCommand::Ack);
                out.push(Bmi088HostCommand::Start);
                assert(out@ =~= seq![Bmi088HostCommand::Ack, Bmi088HostCommand::Start]);
                out
            },
            Bmi088Frame::Sample(_) => {
                self.phase = Bmi088SessionPhase::Streaming;
                Vec::new()
            },
        }
    }

    /// Records that the host sent a command.
    pub fn on_host_command(&mut self, command: Bmi088HostCommand)
        ensures
            final(self)@ == (SessionModel { phase: on_command_spec(old(self)@.phase, command), ..old(self)@ }),
    {
        self.phase = match command {
            Bmi088HostCommand::Ack => Bmi088SessionPhase::AwaitingStart,
            Bmi088HostCommand::Start => Bmi088SessionPhase::Streaming,
            Bmi088HostCommand::Stop => Bmi088SessionPhase::Stopped,
            Bmi088HostCommand::ReqSchema => Bmi088SessionPhase::AwaitingSchema,
            Bmi088HostCommand::ReqIdentity
            | Bmi088HostCommand::ReqTuning
            | Bmi088HostCommand::SetTuning
            | Bmi088HostCommand::ShellExec => self.phase,
        };
    }
}

impl Default for Bmi088SessionState {
    fn default() -> (out: Self)
        ensures
            out@ == initial_session(),
    {
        Self::new()
    }
}

/// The schema is requested once per session: a second boot sends nothing.
pub proof fn lemma_boot_once(s: SessionModel)
    ensures
        boot_spec(boot_spec(s).0).1.len() == 0,
        boot_spec(boot_spec(s).0).0 == boot_spec(s).0,
{
}

/// A fresh session that boots requests the schema, and keeps requesting it
/// until the schema arrives.
pub proof fn lemma_fresh_boot_requests_schema()
    ensures
        boot_spec(initial_session()).1 == seq![Bmi088HostCommand::ReqSchema],
        schema_retry_spec(boot_spec(initial_session()).0) == seq![Bmi088HostCommand::ReqSchema],
{
}

/// Answering a schema before streaming with the commands the session
/// returns brings the session to streaming, and then no schema retry is
/// sent.
pub proof fn lemma_schema_handshake(s: SessionModel, schema: SchemaModel)
    requires
        s.phase != Bmi088SessionPhase::Streaming,
        s.phase != Bmi088SessionPhase::Stopped,
    ensures
        ({
            let (after, commands) = on_frame_spec(s, FrameModel::Schema(schema));
            &&& commands == seq![Bmi088HostCommand::Ack, Bmi088HostCommand::Start]
            &&& after.schema == Some(schema)
            &&& on_commands_spec(after.phase, commands) == Bmi088SessionPhase::Streaming
            &&& schema_retry_spec(SessionModel { phase: on_commands_spec(after.phase, commands), ..after }).len() == 0
        }),
{
    let commands = seq![Bmi088HostCommand::Ack, Bmi088HostCommand::Start];
    assert(commands.drop_first().drop_first().len() == 0);
    reveal_with_fuel(on_commands_spec, 3);
}

/// A schema that arrives while streaming or stopped is cached but starts no
/// new handshake: no command is sent and the phase stays.
pub proof fn lemma_no_rehandshake(s: SessionModel, schema: SchemaModel)
    requires
        s.phase == Bmi088SessionPhase::Streaming || s.phase == Bmi088SessionPhase::Stopped,
    ensures
        on_frame_spec(s, FrameModel::Schema(schema)).1.len() == 0,
        on_frame_spec(s, FrameModel::Schema(schema)).0.phase == s.phase,
        on_frame_spec(s, FrameModel::Schema(schema)).0.schema == Some(schema),
{
}

} // verus!
