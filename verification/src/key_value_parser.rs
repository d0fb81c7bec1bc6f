//! The `key:value` line parser.

use vstd::prelude::*;
use crate::message::{meta_is, FieldMap, ParseOutcome, ParserMeta};
use crate::text::{
    chars_of, first_index, is_ws, lemma_first_index_at, lemma_trim_keeps, split_once, split_once_chars,
    string_from_chars, trim, trim_chars,
};

verus! {

/// The name this parser reports.
pub const KEY_VALUE_PARSER_NAME: &'static str = "key_value";

/// A character allowed in a key: an ASCII letter or digit, `_`, `-` or `.`.
pub open spec fn is_key_char(c: char) -> bool {
    ('a' <= c <= 'z') || ('A' <= c <= 'Z') || ('0' <= c <= '9') || c == '_' || c == '-' || c == '.'
}

/// Whether every character of a key is allowed.
pub open spec fn valid_key(s: Seq<char>) -> bool {
    forall|i: int| 0 <= i < s.len() ==> is_key_char(#[trigger] s[i])
}

/// Whether every character of a key is allowed.
pub fn is_valid_key(value: &[char]) -> (r: bool)
    ensures
        r == valid_key(value@),
{
    let mut i: usize = 0;
    while i < value.len()
        invariant
            i <= value.len(),
            forall|j: int| 0 <= j < i ==> is_key_char(#[trigger] value@[j]),
        decreases value.len() - i,
    {
        let c = value[i];
        if !(('a' <= c && c <= 'z') || ('A' <= c && c <= 'Z') || ('0' <= c && c <= '9') || c == '_'
            || c == '-' || c == '.') {
            return false;
        }
        i = i + 1;
    }
    true
}

/// What the parser concludes about a line: the trimmed text split at its
/// first `:`, both sides trimmed, the key checked.
pub open spec fn key_value_outcome(line: Seq<char>) -> ParseOutcome {
    let t = trim(line);
    if t.len() == 0 {
        ParseOutcome::Unparsed
    } else {
        match split_once(t, ':') {
            None => ParseOutcome::Unparsed,
            Some((k, v)) => {
                let key = trim(k);
                let value = trim(v);
                if key.len() == 0 || value.len() == 0 {
                    ParseOutcome::Malformed("missing key or value"@)
                } else if !valid_key(key) {
                    ParseOutcome::Malformed("invalid channel id"@)
                } else {
                    ParseOutcome::Parsed(
                        Map::empty().insert("channel_id"@, key).insert("value"@, value),
                    )
                }
            },
        }
    }
}

/// Parses a `key:value` line (without its line ending).
pub fn parse_line(line: &str) -> (out: ParserMeta)
    ensures
        meta_is(out, KEY_VALUE_PARSER_NAME@, key_value_outcome(line@)),
{
    let chars = chars_of(line);
    let trimmed = trim_chars(chars.as_slice());
    if trimmed.len() == 0 {
        return ParserMeta::unparsed();
    }
    let (k, v) = match split_once_chars(trimmed.as_slice(), ':') {
        Some(p) => p,
        None => {
            return ParserMeta::unparsed();
        },
    };
    let key = trim_chars(k.as_slice());
    let value = trim_chars(v.as_slice());
    if key.len() == 0 || value.len() == 0 {
        return ParserMeta::malformed(Some(KEY_VALUE_PARSER_NAME), "missing key or value");
    }
    if !is_valid_key(key.as_slice()) {
        return ParserMeta::malformed(Some(KEY_VALUE_PARSER_NAME), "invalid channel id");
    }
    let mut fields = FieldMap::new();
    fields.insert_str("channel_id", string_from_chars(key.as_slice()));
    fields.insert_str("value", string_from_chars(value.as_slice()));
    ParserMeta::parsed(KEY_VALUE_PARSER_NAME, fields)
}

/// Whether a character is an ASCII letter or digit, `_`, `-` or `.`.
pub open spec fn ascii_word_char(c: char) -> bool {
    ('0' <= c <= '9') || ('a' <= c <= 'z') || ('A' <= c <= 'Z') || c == '.' || c == '-' || c == '_'
}

/// Every key made of ASCII letters, digits, `_`, `-` and `.` is valid.
pub proof fn lemma_word_keys_are_valid(key: Seq<char>)
    requires
        forall|i: int| 0 <= i < key.len() ==> ascii_word_char(#[trigger] key[i]),
    ensures
        valid_key(key),
{
}

/// A line `key:value`, with a non-empty key of ASCII letters, digits, `_`,
/// `-` and `.`, and a non-empty value that neither starts nor ends with
/// white space, parses to that channel and that value.
pub proof fn lemma_word_key_line_parses(key: Seq<char>, value: Seq<char>)
    requires
        key.len() > 0,
        forall|i: int| 0 <= i < key.len() ==> ascii_word_char(#[trigger] key[i]),
        value.len() > 0,
        !is_ws(value[0]),
        !is_ws(value.last()),
    ensures
        key_value_outcome(key + seq![':'] + value) == ParseOutcome::Parsed(
            Map::<Seq<char>, Seq<char>>::empty().insert("channel_id"@, key).insert("value"@, value),
        ),
{
    let line = key + seq![':'] + value;
    assert(ascii_word_char(key[0]) && ascii_word_char(key.last()));
    assert(line[0] == key[0]);
    assert(line.last() == value.last());
    lemma_trim_keeps(line);
    lemma_trim_keeps(key);
    lemma_trim_keeps(value);
    assert forall|x: int| 0 <= x < key.len() implies line[x] != ':' by {
        assert(line[x] == key[x]);
        assert(ascii_word_char(key[x]));
    }
    lemma_first_index_at(line, ':', 0, key.len() as int);
    assert(line.take(key.len() as int) =~= key);
    assert(line.skip(key.len() as int + 1) =~= value);
    lemma_word_keys_are_valid(key);
}

} // verus!
