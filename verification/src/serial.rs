//! Line framing of the text traffic that shares the serial link with binary
//! frames.

use crate::message::{LinePayload, LinePayloadModel};
use crate::text::{lossy_text, utf8_lossy};
use vstd::prelude::*;

verus! {

/// Whether a framed line ended normally.
#[derive(Clone, Copy, Debug, PartialEq, Eq, Structural)]
pub enum FrameStatus {
    Complete,
    Overflow,
}

/// One line cut from the byte stream.
#[derive(Debug)]
pub struct FramedLine {
    pub payload: LinePayload,
    pub status: FrameStatus,
}

impl Clone for FramedLine {
    fn clone(&self) -> (out: Self)
        ensures
            out@ == self@,
    {
        FramedLine { payload: self.payload.clone(), status: self.status }
    }
}

/// Abstract value of a framed line.
pub struct FramedLineModel {
    pub payload: LinePayloadModel,
    pub status: FrameStatus,
}

impl View for FramedLine {
    type V = FramedLineModel;

    open spec fn view(&self) -> FramedLineModel {
        FramedLineModel { payload: self.payload@, status: self.status }
    }
}

/// The bytes of a line without its line ending: the `\n` is not part of it
/// and one `\r` before it is dropped.
pub open spec fn line_content(raw: Seq<u8>) -> Seq<u8> {
    if raw.len() > 0 && raw.last() == 13 {
        raw.drop_last()
    } else {
        raw
    }
}

/// The framed line made of the bytes received before a `\n`.
pub open spec fn complete_line(raw: Seq<u8>) -> FramedLineModel {
    let content = line_content(raw);
    FramedLineModel {
        payload: LinePayloadModel { text: utf8_lossy(content), raw: content },
        status: FrameStatus::Complete,
    }
}

/// Feeding bytes to a framer that holds `pending` unterminated bytes: the
/// bytes it then holds and the lines it emits.
pub open spec fn framer_push(pending: Seq<u8>, input: Seq<u8>) -> (Seq<u8>, Seq<FramedLineModel>)
    decreases input.len(),
{
    if input.len() == 0 {
        (pending, Seq::empty())
    } else if input[0] == 10 {
        let (p, lines) = framer_push(Seq::empty(), input.drop_first());
        (p, seq![complete_line(pending)] + lines)
    } else {
        framer_push(pending.push(input[0]), input.drop_first())
    }
}

/// Splits a byte stream into `\n`-terminated lines.
#[derive(Clone, Debug)]
pub struct LineFramer {
    pending: Vec<u8>,
}

impl View for LineFramer {
    type V = Seq<u8>;

    closed spec fn view(&self) -> Seq<u8> {
        self.pending@
    }
}

/// Emits the line held in `pending`.
fn emit_line(pending: &Vec<u8>) -> (out: FramedLine)
    ensures
        out@ == complete_line(pending@),
{
    let mut end = pending.len();
    if end > 0 && pending[end - 1] == 13 {
        end = end - 1;
    }
    let content = vstd::slice::slice_subrange(pending.as_slice(), 0, end);
    assert(content@ =~= line_content(pending@));
    let text = lossy_text(content);
    FramedLine {
        payload: LinePayload { text, raw: vstd::slice::slice_to_vec(content) },
        status: FrameStatus::Complete,
    }
}

impl LineFramer {
    /// A framer holding no bytes.
    pub fn new() -> (out: Self)
        ensures
            out@ == Seq::<u8>::empty(),
    {
        LineFramer { pending: Vec::new() }
    }

    /// Feeds bytes and returns the lines they complete.
    pub fn push(&mut self, input: &[u8]) -> (out: Vec<FramedLine>)
        ensures
            (final(self)@, out@.map_values(|l: FramedLine| l@)) == framer_push(old(self)@, input@),
    {
        let mut lines: Vec<FramedLine> = Vec::new();
        let mut i: usize = 0;
        assert(input@.skip(0) =~= input@);
        while i < input.len()
            invariant
                i <= input@.len(),
                ({
                    let (p, ls) = framer_push(self.pending@, input@.skip(i as int));
                    framer_push(old(self)@, input@) == (p, lines@.map_values(|l: FramedLine| l@) + ls)
                }),
            decreases input.len() - i,
        {
            let ghost rest = input@.skip(i as int);
            assert(rest.drop_first() =~= input@.skip(i + 1));
            if input[i] == 10 {
                let line = emit_line(&self.pending);
                let ghost before = lines@;
                lines.push(line);
                self.pending = Vec::new();
                proof {
                    let (p, ls) = framer_push(Seq::empty(), input@.skip(i + 1));
                    assert(lines@.map_values(|l: FramedLine| l@) =~= before.map_values(
                        |l: FramedLine| l@,
                    ).push(line@));
                    assert(before.map_values(|l: FramedLine| l@) + (seq![line@] + ls)
                        =~= lines@.map_values(|l: FramedLine| l@) + ls);
                    assert(self.pending@ =~= Seq::<u8>::empty());
                }
            } else {
                self.pending.push(input[i]);
            }
            i = i + 1;
        }
        assert(input@.skip(i as int) =~= Seq::<u8>::empty());
        assert(lines@.map_values(|l: FramedLine| l@) + Seq::<FramedLineModel>::empty() =~= lines@.map_values(
            |l: FramedLine| l@,
        ));
        lines
    }
}

/// The bytes written for a line of text: its UTF-8 bytes, and a `\n`
/// when a newline is asked for.
pub open spec fn text_payload(text: Seq<char>, append_newline: bool) -> Seq<u8> {
    if append_newline {
        vstd::utf8::encode_utf8(text).push(10)
    } else {
        vstd::utf8::encode_utf8(text)
    }
}

/// The bytes written for a line of text.
pub fn payload_bytes_for_text(text: &str, append_newline: bool) -> (out: Vec<u8>)
    ensures
        out@ == text_payload(text@, append_newline),
{
    let mut bytes = vstd::slice::slice_to_vec(text.as_bytes());
    if append_newline {
        bytes.push(10);
    }
    bytes
}

/// The bytes that a one-shot write sends.
pub fn payload_bytes(config: &crate::cli::SendConfig) -> (out: Vec<u8>)
    ensures
        out@ == text_payload(config.payload@, config.append_newline),
{
    payload_bytes_for_text(config.payload.as_str(), config.append_newline)
}

} // verus!
