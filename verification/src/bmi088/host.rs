//! Host commands: their wire codes, labels and text forms.

use super::constants::{
    BMI088_CMD_ACK, BMI088_CMD_REQ_IDENTITY, BMI088_CMD_REQ_SCHEMA, BMI088_CMD_REQ_TUNING,
    BMI088_CMD_SET_TUNING, BMI088_CMD_SHELL_EXEC, BMI088_CMD_START, BMI088_CMD_STOP,
    BMI088_FRAME_TYPE_REQUEST,
};
use super::frame::{encode_frame, frame_bytes};
use super::models::Bmi088HostCommand;
use crate::text::{
    ascii_lower, ascii_lower_all, chars_eq_str, chars_of, is_ws, lower_chars, trim, trim_chars, trim_end,
    trim_start,
};
use vstd::prelude::*;

verus! {

/// The command byte of a host command.
pub open spec fn command_code(command: Bmi088HostCommand) -> u8 {
    match command {
        Bmi088HostCommand::Ack => 0x10,
        Bmi088HostCommand::Start => 0x11,
        Bmi088HostCommand::Stop => 0x12,
        Bmi088HostCommand::ReqSchema => 0x13,
        Bmi088HostCommand::ReqIdentity => 0x14,
        Bmi088HostCommand::ReqTuning => 0x26,
        Bmi088HostCommand::SetTuning => 0x27,
        Bmi088HostCommand::ShellExec => 0x28,
    }
}

/// The bytes of a host command request frame.
pub open spec fn host_command_frame(command: Bmi088HostCommand, seq: u8, payload: Seq<u8>) -> Seq<u8> {
    frame_bytes(0x01, command_code(command), seq, payload)
}

/// Encodes a host command with sequence number 0 and no payload.
pub fn encode_host_command(command: Bmi088HostCommand) -> (out: Vec<u8>)
    ensures
        out@ == host_command_frame(command, 0, Seq::empty()),
{
    encode_host_command_with_payload(command, &[])
}

/// Encodes a host command with no payload.
pub fn encode_host_command_with_seq(command: Bmi088HostCommand, seq: u8) -> (out: Vec<u8>)
    ensures
        out@ == host_command_frame(command, seq, Seq::empty()),
{
    encode_host_command_with_seq_and_payload(command, seq, &[])
}

/// Encodes a host command with sequence number 0.
pub fn encode_host_command_with_payload(command: Bmi088HostCommand, payload: &[u8]) -> (out: Vec<u8>)
    requires
        payload@.len() <= 255,
    ensures
        out@ == host_command_frame(command, 0, payload@),
{
    encode_host_command_with_seq_and_payload(command, 0, payload)
}

/// The command byte of a host command.
pub fn command_byte(command: Bmi088HostCommand) -> (out: u8)
    ensures
        out == command_code(command),
{
    match command {
        Bmi088HostCommand::Ack => BMI088_CMD_ACK,
        Bmi088HostCommand::Start => BMI088_CMD_START,
        Bmi088HostCommand::Stop => BMI088_CMD_STOP,
        Bmi088HostCommand::ReqSchema => BMI088_CMD_REQ_SCHEMA,
        Bmi088HostCommand::ReqIdentity => BMI088_CMD_REQ_IDENTITY,
        Bmi088HostCommand::ReqTuning => BMI088_CMD_REQ_TUNING,
        Bmi088HostCommand::SetTuning => BMI088_CMD_SET_TUNING,
        Bmi088HostCommand::ShellExec => BMI088_CMD_SHELL_EXEC,
    }
}

/// Encodes a host command request frame.
pub fn encode_host_command_with_seq_and_payload(
    command: Bmi088HostCommand,
    seq: u8,
    payload: &[u8],
) -> (out: Vec<u8>)
    requires
        payload@.len() <= 255,
    ensures
        out@ == host_command_frame(command, seq, payload@),
{
    encode_frame(BMI088_FRAME_TYPE_REQUEST, command_byte(command), seq, payload)
}

/// The label of a host command.
pub open spec fn label_spec(command: Bmi088HostCommand) -> Seq<char> {
    match command {
        Bmi088HostCommand::Ack => "ACK"@,
        Bmi088HostCommand::Start => "START"@,
        Bmi088HostCommand::Stop => "STOP"@,
        Bmi088HostCommand::ReqSchema => "REQ_SCHEMA"@,
        Bmi088HostCommand::ReqIdentity => "REQ_IDENTITY"@,
        Bmi088HostCommand::ReqTuning => "REQ_TUNING"@,
        Bmi088HostCommand::SetTuning => "SET_TUNING"@,
        Bmi088HostCommand::ShellExec => "SHELL_EXEC"@,
    }
}

/// The label of a host command.
pub fn host_command_label(command: &Bmi088HostCommand) -> (out: &'static str)
    ensures
        out@ == label_spec(*command),
{
    match command {
        Bmi088HostCommand::Ack => "ACK",
        Bmi088HostCommand::Start => "START",
        Bmi088HostCommand::Stop => "STOP",
        Bmi088HostCommand::ReqSchema => "REQ_SCHEMA",
        Bmi088HostCommand::ReqIdentity => "REQ_IDENTITY",
        Bmi088HostCommand::ReqTuning => "REQ_TUNING",
        Bmi088HostCommand::SetTuning => "SET_TUNING",
        Bmi088HostCommand::ShellExec => "SHELL_EXEC",
    }
}

/// The command a text names: its trimmed, ASCII-lower-cased form is the
/// lower-case form of a label.
pub open spec fn command_from_text_spec(text: Seq<char>) -> Option<Bmi088HostCommand> {
    let key = ascii_lower_all(trim(text));
    if key == "ack"@ {
        Some(Bmi088HostCommand::Ack)
    } else if key == "start"@ {
        Some(Bmi088HostCommand::Start)
    } else if key == "stop"@ {
        Some(Bmi088HostCommand::Stop)
    } else if key == "req_schema"@ {
        Some(Bmi088HostCommand::ReqSchema)
    } else if key == "req_identity"@ {
        Some(Bmi088HostCommand::ReqIdentity)
    } else if key == "req_tuning"@ {
        Some(Bmi088HostCommand::ReqTuning)
    } else if key == "set_tuning"@ {
        Some(Bmi088HostCommand::SetTuning)
    } else if key == "shell_exec"@ {
        Some(Bmi088HostCommand::ShellExec)
    } else {
        None
    }
}

/// Parses a host command from text, ignoring surrounding white space and
/// ASCII case.
pub fn host_command_from_text(text: &str) -> (out: Option<Bmi088HostCommand>)
    ensures
        out == command_from_text_spec(text@),
{
    let chars = chars_of(text);
    let trimmed = trim_chars(chars.as_slice());
    let key = lower_chars(trimmed.as_slice());
    let k = key.as_slice();
    if chars_eq_str(k, "ack") {
        Some(Bmi088HostCommand::Ack)
    } else if chars_eq_str(k, "start") {
        Some(Bmi088HostCommand::Start)
    } else if chars_eq_str(k, "stop") {
        Some(Bmi088HostCommand::Stop)
    } else if chars_eq_str(k, "req_schema") {
        Some(Bmi088HostCommand::ReqSchema)
    } else if chars_eq_str(k, "req_identity") {
        Some(Bmi088HostCommand::ReqIdentity)
    } else if chars_eq_str(k, "req_tuning") {
        Some(Bmi088HostCommand::ReqTuning)
    } else if chars_eq_str(k, "set_tuning") {
        Some(Bmi088HostCommand::SetTuning)
    } else if chars_eq_str(k, "shell_exec") {
        Some(Bmi088HostCommand::ShellExec)
    } else {
        None
    }
}

/// Parsing the label of any host command gives that command back.
pub proof fn lemma_label_parses_back(command: Bmi088HostCommand)
    ensures
        command_from_text_spec(label_spec(command)) == Some(command),
{
    reveal_strlit("ACK");
    reveal_strlit("START");
    reveal_strlit("STOP");
    reveal_strlit("REQ_SCHEMA");
    reveal_strlit("REQ_IDENTITY");
    reveal_strlit("REQ_TUNING");
    reveal_strlit("SET_TUNING");
    reveal_strlit("SHELL_EXEC");
    reveal_strlit("ack");
    reveal_strlit("start");
    reveal_strlit("stop");
    reveal_strlit("req_schema");
    reveal_strlit("req_identity");
    reveal_strlit("req_tuning");
    reveal_strlit("set_tuning");
    reveal_strlit("shell_exec");
    let l = label_spec(command);
    assert(trim(l) == l) by {
        assert(!crate::text::is_ws(l[0]));
        assert(!crate::text::is_ws(l.last()));
    }
    match command {
        Bmi088HostCommand::Ack => assert(ascii_lower_all(l) =~= "ack"@),
        Bmi088HostCommand::Start => {
            assert(ascii_lower_all(l) =~= "start"@);
            assert(ascii_lower_all(l) != "ack"@);
        },
        Bmi088HostCommand::Stop => {
            assert(ascii_lower_all(l) =~= "stop"@);
            assert(ascii_lower_all(l) != "ack"@);
            assert(ascii_lower_all(l) != "start"@);
        },
        Bmi088HostCommand::ReqSchema => {
            assert(ascii_lower_all(l) =~= "req_schema"@);
            assert(ascii_lower_all(l) != "ack"@);
            assert(ascii_lower_all(l) != "start"@);
            assert(ascii_lower_all(l) != "stop"@);
        },
        Bmi088HostCommand::ReqIdentity => {
            assert(ascii_lower_all(l) =~= "req_identity"@);
            assert(ascii_lower_all(l) != "ack"@);
            assert(ascii_lower_all(l) != "start"@);
            assert(ascii_lower_all(l) != "stop"@);
            assert(ascii_lower_all(l) != "req_schema"@);
        },
        Bmi088HostCommand::ReqTuning => {
            assert(ascii_lower_all(l) =~= "req_tuning"@);
            assert(ascii_lower_all(l) != "ack"@);
            assert(ascii_lower_all(l) != "start"@);
            assert(ascii_lower_all(l) != "stop"@);
            assert(ascii_lower_all(l)[4] != "req_schema"@[4]);
            assert(ascii_lower_all(l) != "req_identity"@);
        },
        Bmi088HostCommand::SetTuning => {
            assert(ascii_lower_all(l) =~= "set_tuning"@);
            assert(ascii_lower_all(l) != "ack"@);
            assert(ascii_lower_all(l) != "start"@);
            assert(ascii_lower_all(l) != "stop"@);
            assert(ascii_lower_all(l)[0] != "req_schema"@[0]);
            assert(ascii_lower_all(l) != "req_identity"@);
            assert(ascii_lower_all(l)[0] != "req_tuning"@[0]);
        },
        Bmi088HostCommand::ShellExec => {
            assert(ascii_lower_all(l) =~= "shell_exec"@);
            assert(ascii_lower_all(l) != "ack"@);
            assert(ascii_lower_all(l) != "start"@);
            assert(ascii_lower_all(l) != "stop"@);
            assert(ascii_lower_all(l)[0] != "req_schema"@[0]);
            assert(ascii_lower_all(l) != "req_identity"@);
            assert(ascii_lower_all(l)[0] != "req_tuning"@[0]);
            assert(ascii_lower_all(l)[1] != "set_tuning"@[1]);
        },
    }
}

/// What `trim_start` leaves starts with a non-blank, if anything.
proof fn lemma_trim_start_front(s: Seq<char>)
    ensures
        trim_start(s).len() == 0 || !is_ws(trim_start(s)[0]),
    decreases s.len(),
{
    if s.len() > 0 && is_ws(s[0]) {
        lemma_trim_start_front(s.drop_first());
    }
}

/// What `trim_end` leaves is a prefix of the text that ends with a
/// non-blank, if anything.
proof fn lemma_trim_end_prefix(s: Seq<char>)
    ensures
        trim_end(s).len() <= s.len(),
        trim_end(s) == s.take(trim_end(s).len() as int),
        trim_end(s).len() == 0 || !is_ws(trim_end(s).last()),
    decreases s.len(),
{
    if s.len() > 0 && is_ws(s.last()) {
        lemma_trim_end_prefix(s.drop_last());
        assert(s.drop_last().take(trim_end(s).len() as int) =~= s.take(trim_end(s).len() as int));
    } else {
        assert(s.take(s.len() as int) =~= s);
    }
}

/// Lower-casing keeps blanks blank and others not, and doing it twice is
/// doing it once.
proof fn lemma_lower_char(c: char)
    ensures
        is_ws(ascii_lower(c)) == is_ws(c),
        ascii_lower(ascii_lower(c)) == ascii_lower(c),
{
    if 'A' <= c <= 'Z' {
        assert((c as u32) + 32 <= 0x7A);
        assert(((c as u32 + 32) as char) as u32 == c as u32 + 32);
    }
}

/// Trimmed text, lower-cased, has nothing left to trim.
proof fn lemma_lower_trimmed(t: Seq<char>)
    ensures
        trim(ascii_lower_all(trim(t))) == ascii_lower_all(trim(t)),
        ascii_lower_all(ascii_lower_all(trim(t))) == ascii_lower_all(trim(t)),
{
    let u = trim_start(t);
    let r = trim(t);
    lemma_trim_start_front(t);
    lemma_trim_end_prefix(u);
    let l = ascii_lower_all(r);
    if r.len() > 0 {
        assert(r[0] == u[0]);
        lemma_lower_char(r[0]);
        lemma_lower_char(r.last());
        assert(l[0] == ascii_lower(r[0]));
        assert(l.last() == ascii_lower(r.last()));
    }
    assert(trim_start(l) == l);
    assert(trim_end(l) == l);
    assert forall|i: int| 0 <= i < l.len() implies #[trigger] ascii_lower_all(l)[i] == l[i] by {
        lemma_lower_char(r[i]);
    }
    assert(ascii_lower_all(l) =~= l);
}

/// Parsing ignores surrounding white space and ASCII case: a text names the
/// same command as its trimmed, lower-cased form.
pub proof fn lemma_parse_ignores_blanks_and_case(t: Seq<char>)
    ensures
        command_from_text_spec(ascii_lower_all(trim(t))) == command_from_text_spec(t),
{
    lemma_lower_trimmed(t);
}

} // verus!
