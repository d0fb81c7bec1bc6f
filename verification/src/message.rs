//! Message envelopes shared by the runtime: sources, connection events,
//! line payloads and parser metadata.

use crate::text::owned;
pub use crate::fields::FieldMap;
use vstd::prelude::*;

verus! {

/// Kind of transport a message came from.
#[derive(Clone, Copy, Debug, PartialEq, Eq, Structural)]
pub enum TransportKind {
    Serial,
    Fake,
}

/// Where a message came from.
#[derive(Clone, Debug)]
pub struct MessageSource {
    pub transport: TransportKind,
    pub port: String,
    pub baud_rate: u32,
}

impl MessageSource {
    /// A serial-port source.
    pub fn serial(port: String, baud_rate: u32) -> (out: Self)
        ensures
            out.transport == TransportKind::Serial,
            out.port@ == port@,
            out.baud_rate == baud_rate,
    {
        MessageSource { transport: TransportKind::Serial, port, baud_rate }
    }

    /// A simulated source.
    pub fn fake(port: String, baud_rate: u32) -> (out: Self)
        ensures
            out.transport == TransportKind::Fake,
            out.port@ == port@,
            out.baud_rate == baud_rate,
    {
        MessageSource { transport: TransportKind::Fake, port, baud_rate }
    }
}

/// Connection lifecycle states.
#[derive(Clone, Copy, Debug, PartialEq, Eq, Structural)]
pub enum ConnectionState {
    Idle,
    Connecting,
    Connected,
    WaitingRetry,
    Stopped,
}

/// One connection lifecycle event.
#[derive(Clone, Debug)]
pub struct ConnectionEvent {
    pub state: ConnectionState,
    pub reason: Option<String>,
    pub attempt: u32,
    pub retry_delay_ms: Option<u64>,
}

/// Text of a line together with the raw bytes it came from.
#[derive(Debug)]
pub struct LinePayload {
    pub text: String,
    pub raw: Vec<u8>,
}

impl Clone for LinePayload {
    fn clone(&self) -> (out: Self)
        ensures
            out@ == self@,
    {
        LinePayload { text: self.text.clone(), raw: vstd::slice::slice_to_vec(self.raw.as_slice()) }
    }
}

/// Abstract value of a line payload.
pub struct LinePayloadModel {
    pub text: Seq<char>,
    pub raw: Seq<u8>,
}

impl View for LinePayload {
    type V = LinePayloadModel;

    open spec fn view(&self) -> LinePayloadModel {
        LinePayloadModel { text: self.text@, raw: self.raw@ }
    }
}

/// Direction of a line relative to the host.
#[derive(Clone, Copy, Debug, PartialEq, Eq, Structural)]
pub enum LineDirection {
    Rx,
    Tx,
}

/// One line travelling in one direction.
#[derive(Clone, Debug)]
pub struct LineEvent {
    pub direction: LineDirection,
    pub payload: LinePayload,
}

/// Outcome of running a line parser.
#[derive(Clone, Copy, Debug, Default, PartialEq, Eq, Structural)]
pub enum ParserStatus {
    #[default]
    Unparsed,
    Parsed,
    Malformed,
}

/// Metadata that a line parser attaches to a line.
#[derive(Clone, Debug, Default)]
pub struct ParserMeta {
    pub parser_name: Option<String>,
    pub status: ParserStatus,
    pub fields: FieldMap,
}

impl ParserMeta {
    /// Successful parse by `parser_name` with the given fields.
    pub fn parsed(parser_name: &str, fields: FieldMap) -> (out: Self)
        ensures
            out.parser_name matches Some(n) && n@ == parser_name@,
            out.status == ParserStatus::Parsed,
            out.fields@ == fields@,
    {
        ParserMeta { parser_name: Some(owned(parser_name)), status: ParserStatus::Parsed, fields }
    }

    /// Malformed input; the reason is stored under `error`.
    pub fn malformed(parser_name: Option<&str>, reason: &str) -> (out: Self)
        ensures
            match parser_name {
                Some(n) => out.parser_name matches Some(o) && o@ == n@,
                None => out.parser_name is None,
            },
            out.status == ParserStatus::Malformed,
            out.fields@ == Map::<Seq<char>, Seq<char>>::empty().insert("error"@, reason@),
    {
        let mut fields = FieldMap::new();
        fields.insert_str("error", owned(reason));
        let name = match parser_name {
            Some(n) => Some(owned(n)),
            None => None,
        };
        ParserMeta { parser_name: name, status: ParserStatus::Malformed, fields }
    }

    /// No parser recognised the line.
    pub fn unparsed() -> (out: Self)
        ensures
            out.parser_name is None,
            out.status == ParserStatus::Unparsed,
            out.fields@ == Map::<Seq<char>, Seq<char>>::empty(),
    {
        ParserMeta { parser_name: None, status: ParserStatus::Unparsed, fields: FieldMap::new() }
    }
}

/// What a line parser concluded about a line.
pub enum ParseOutcome {
    Unparsed,
    Malformed(Seq<char>),
    Parsed(Map<Seq<char>, Seq<char>>),
}

/// Whether `out` is the metadata of parser `name` for the outcome `o`.
pub open spec fn meta_is(out: ParserMeta, name: Seq<char>, o: ParseOutcome) -> bool {
    match o {
        ParseOutcome::Unparsed => {
            &&& out.parser_name is None
            &&& out.status == ParserStatus::Unparsed
            &&& out.fields@ == Map::<Seq<char>, Seq<char>>::empty()
        },
        ParseOutcome::Malformed(reason) => {
            &&& out.parser_name matches Some(n) && n@ == name
            &&& out.status == ParserStatus::Malformed
            &&& out.fields@ == Map::<Seq<char>, Seq<char>>::empty().insert("error"@, reason)
        },
        ParseOutcome::Parsed(m) => {
            &&& out.parser_name matches Some(n) && n@ == name
            &&& out.status == ParserStatus::Parsed
            &&& out.fields@ == m
        },
    }
}

} // verus!
