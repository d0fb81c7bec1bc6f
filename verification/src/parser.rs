//! Choosing the line parser for a framed line.

use vstd::prelude::*;
use crate::cli::ParserKind;
use crate::key_value_parser::{key_value_outcome, KEY_VALUE_PARSER_NAME};
use crate::measurement_parser::{measurement_outcome, MEASUREMENT_PARSER_NAME};
use crate::message::{meta_is, ParseOutcome, ParserMeta, ParserStatus};
use crate::serial::{FrameStatus, FramedLine};

verus! {

/// The metadata of an overflowed line.
pub open spec fn overflow_meta(out: ParserMeta) -> bool {
    &&& out.parser_name is None
    &&& out.status == ParserStatus::Malformed
    &&& out.fields@ == Map::<Seq<char>, Seq<char>>::empty().insert("error"@, "frame overflow"@)
}

/// Whether `out` is what the parser `kind` makes of a complete line with
/// the text `text`: `Auto` tries `key:value` first and falls back to the
/// measurement parser when that does not recognise the line; the binary
/// protocols leave text lines unparsed.
pub open spec fn text_meta(kind: ParserKind, text: Seq<char>, out: ParserMeta) -> bool {
    match kind {
        ParserKind::Auto => if !(key_value_outcome(text) is Unparsed) {
            meta_is(out, KEY_VALUE_PARSER_NAME@, key_value_outcome(text))
        } else {
            meta_is(out, MEASUREMENT_PARSER_NAME@, measurement_outcome(text))
        },
        ParserKind::Measurements => meta_is(out, MEASUREMENT_PARSER_NAME@, measurement_outcome(text)),
        ParserKind::KeyValue => meta_is(out, KEY_VALUE_PARSER_NAME@, key_value_outcome(text)),
        _ => meta_is(out, Seq::empty(), ParseOutcome::Unparsed),
    }
}

/// Parses one framed line with the chosen parser; an overflowed line is
/// malformed whatever the parser.
pub fn parse_framed_line(parser_kind: ParserKind, line: &FramedLine) -> (out: ParserMeta)
    ensures
        line.status == FrameStatus::Overflow ==> overflow_meta(out),
        line.status == FrameStatus::Complete ==> text_meta(parser_kind, line.payload.text@, out),
{
    if line.status == FrameStatus::Overflow {
        return ParserMeta::malformed(None, "frame overflow");
    }
    match parser_kind {
        ParserKind::Auto => {
            let key_value = crate::key_value_parser::parse_line(line.payload.text.as_str());
            if key_value.status != ParserStatus::Unparsed {
                return key_value;
            }
            crate::measurement_parser::parse_line(line.payload.text.as_str())
        },
        ParserKind::Measurements => crate::measurement_parser::parse_line(
            line.payload.text.as_str(),
        ),
        ParserKind::KeyValue => crate::key_value_parser::parse_line(line.payload.text.as_str()),
        _ => ParserMeta::unparsed(),
    }
}

} // verus!
