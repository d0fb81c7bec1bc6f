//! Lines and parser metadata as the user interface shows them.

use vstd::prelude::*;
use crate::fields::{pairs_map, text_pairs, FieldMap};
use crate::message::{LineDirection, ParserMeta, ParserStatus};
use crate::text::{owned, str_eq};

verus! {

/// Line directions as the user interface names them.
#[derive(Clone, Copy, Debug, PartialEq, Eq, Structural)]
pub enum UiLineDirection {
    Rx,
    Tx,
}

/// Parser outcomes as the user interface names them.
#[derive(Clone, Copy, Debug, PartialEq, Eq, Structural)]
pub enum UiParserStatus {
    Unparsed,
    Parsed,
    Malformed,
}

/// Parser metadata with the field names the user interface expects.
#[derive(Clone, Debug)]
pub struct UiParserMeta {
    pub parser_name: Option<String>,
    pub status: UiParserStatus,
    pub fields: FieldMap,
}

/// A line as the user interface shows it.
#[derive(Clone, Debug)]
pub struct UiLinePayload {
    pub direction: UiLineDirection,
    pub text: String,
    pub raw_length: usize,
    pub raw: Vec<u8>,
}

/// The user-interface name of a line direction.
pub open spec fn ui_direction(v: LineDirection) -> UiLineDirection {
    match v {
        LineDirection::Rx => UiLineDirection::Rx,
        LineDirection::Tx => UiLineDirection::Tx,
    }
}

/// The user-interface name of a parser outcome.
pub open spec fn ui_status(v: ParserStatus) -> UiParserStatus {
    match v {
        ParserStatus::Unparsed => UiParserStatus::Unparsed,
        ParserStatus::Parsed => UiParserStatus::Parsed,
        ParserStatus::Malformed => UiParserStatus::Malformed,
    }
}

impl From<LineDirection> for UiLineDirection {
    fn from(value: LineDirection) -> (out: Self) {
        match value {
            LineDirection::Rx => UiLineDirection::Rx,
            LineDirection::Tx => UiLineDirection::Tx,
        }
    }
}

impl vstd::std_specs::convert::FromSpecImpl<LineDirection> for UiLineDirection {
    open spec fn obeys_from_spec() -> bool {
        true
    }

    open spec fn from_spec(v: LineDirection) -> Self {
        ui_direction(v)
    }
}

impl From<ParserStatus> for UiParserStatus {
    fn from(value: ParserStatus) -> (out: Self) {
        match value {
            ParserStatus::Unparsed => UiParserStatus::Unparsed,
            ParserStatus::Parsed => UiParserStatus::Parsed,
            ParserStatus::Malformed => UiParserStatus::Malformed,
        }
    }
}

impl vstd::std_specs::convert::FromSpecImpl<ParserStatus> for UiParserStatus {
    open spec fn obeys_from_spec() -> bool {
        true
    }

    open spec fn from_spec(v: ParserStatus) -> Self {
        ui_status(v)
    }
}

/// The user-interface name of a parser field: the three snake-case names
/// the parsers write become camel case, others stay.
pub open spec fn normalized_key(key: Seq<char>) -> Seq<char> {
    if key == "channel_id"@ {
        "channelId"@
    } else if key == "numeric_value"@ {
        "numericValue"@
    } else if key == "field_count"@ {
        "fieldCount"@
    } else {
        key
    }
}

/// Renames a parser field for the user interface.
pub fn normalize_parser_key(key: &str) -> (out: String)
    ensures
        out@ == normalized_key(key@),
{
    if str_eq(key, "channel_id") {
        owned("channelId")
    } else if str_eq(key, "numeric_value") {
        owned("numericValue")
    } else if str_eq(key, "field_count") {
        owned("fieldCount")
    } else {
        owned(key)
    }
}

/// The pairs with their keys renamed.
pub open spec fn renamed_pairs(p: Seq<(Seq<char>, Seq<char>)>) -> Seq<(Seq<char>, Seq<char>)> {
    p.map_values(|e: (Seq<char>, Seq<char>)| (normalized_key(e.0), e.1))
}

impl UiParserMeta {
    /// The metadata with its field names renamed for the user interface;
    /// when two names become one, the later in key order wins.
    pub fn from_meta(value: ParserMeta) -> (out: Self)
        ensures
            out.parser_name == value.parser_name,
            out.status == ui_status(value.status),
            out.fields@ == pairs_map(renamed_pairs(value.fields.pairs())),
    {
        let entries = value.fields.entries();
        let mut fields = FieldMap::new();
        let mut i: usize = 0;
        while i < entries.len()
            invariant
                i <= entries.len(),
                text_pairs(entries@) == value.fields.pairs(),
                fields@ == pairs_map(renamed_pairs(text_pairs(entries@).take(i as int))),
            decreases entries.len() - i,
        {
            let key = normalize_parser_key(entries[i].0.as_str());
            fields.insert(key, entries[i].1.clone());
            assert(renamed_pairs(text_pairs(entries@).take(i + 1)).drop_last() =~= renamed_pairs(
                text_pairs(entries@).take(i as int),
            ));
            i = i + 1;
        }
        assert(text_pairs(entries@).take(entries.len() as int) =~= text_pairs(entries@));
        UiParserMeta {
            parser_name: value.parser_name,
            status: UiParserStatus::from(value.status),
            fields,
        }
    }
}

} // verus!
