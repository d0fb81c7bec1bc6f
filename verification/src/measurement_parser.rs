//! The parser of common text telemetry lines such as
//! `temp=21.5C OK` or `ts:12 accel_x:0.5 g`.

use vstd::prelude::*;
use crate::decimal::{decimal, float_text, format_u64, is_float_text};
use crate::key_value_parser::{ascii_word_char, is_valid_key, lemma_word_keys_are_valid, valid_key};
use crate::message::{meta_is, FieldMap, ParseOutcome, ParserMeta};
use crate::text::{
    chars_eq_str, chars_of, is_whitespace, is_ws, lemma_first_index_at, lemma_trim_keeps, split_once,
    split_once_chars, string_from_chars, trim, trim_chars,
};

verus! {

/// The name this parser reports.
pub const MEASUREMENT_PARSER_NAME: &'static str = "measurements";

/// A separator between tokens: a comma or white space.
pub open spec fn is_sep(c: char) -> bool {
    c == ',' || is_ws(c)
}

/// Splits at separators from position `i` on; `cur` is the token being
/// read and `acc` the tokens finished before it. Empty tokens are dropped.
pub open spec fn tok_scan(s: Seq<char>, i: int, cur: Seq<char>, acc: Seq<Seq<char>>) -> Seq<
    Seq<char>,
>
    decreases s.len() - i,
{
    if i < 0 || i >= s.len() {
        if cur.len() > 0 {
            acc.push(cur)
        } else {
            acc
        }
    } else if is_sep(s[i]) {
        tok_scan(
            s,
            i + 1,
            Seq::empty(),
            if cur.len() > 0 {
                acc.push(cur)
            } else {
                acc
            },
        )
    } else {
        tok_scan(s, i + 1, cur.push(s[i]), acc)
    }
}

/// The non-empty tokens of a text, split at commas and white space.
pub open spec fn tokens(s: Seq<char>) -> Seq<Seq<char>> {
    tok_scan(s, 0, Seq::empty(), Seq::empty())
}

/// The text of a list of character vectors.
pub open spec fn texts(v: Seq<Vec<char>>) -> Seq<Seq<char>> {
    v.map_values(|t: Vec<char>| t@)
}

/// Splits a text into its non-empty tokens.
pub fn split_tokens(s: &[char]) -> (out: Vec<Vec<char>>)
    ensures
        texts(out@) == tokens(s@),
{
    let mut acc: Vec<Vec<char>> = Vec::new();
    let mut cur: Vec<char> = Vec::new();
    let mut i: usize = 0;
    assert(texts(acc@) =~= Seq::<Seq<char>>::empty());
    assert(cur@ =~= Seq::<char>::empty());
    while i < s.len()
        invariant
            i <= s.len(),
            tokens(s@) == tok_scan(s@, i as int, cur@, texts(acc@)),
        decreases s.len() - i,
    {
        if s[i] == ',' || is_whitespace(s[i]) {
            if cur.len() > 0 {
                let ghost before = acc@;
                let mut done: Vec<char> = Vec::new();
                std::mem::swap(&mut done, &mut cur);
                acc.push(done);
                assert(texts(acc@) =~= texts(before).push(done@));
            }
            assert(cur@ =~= Seq::<char>::empty());
        } else {
            cur.push(s[i]);
        }
        i = i + 1;
    }
    if cur.len() > 0 {
        let ghost before = acc@;
        let ghost cur_text = cur@;
        acc.push(cur);
        assert(texts(acc@) =~= texts(before).push(cur_text));
    }
    acc
}

/// The key and value of a token: split at its first `=`, or else at its
/// first `:`.
pub open spec fn split_pair(t: Seq<char>) -> Option<(Seq<char>, Seq<char>)> {
    match split_once(t, '=') {
        Some(p) => Some(p),
        None => split_once(t, ':'),
    }
}

/// A character allowed in a unit: an ASCII letter, `%`, `/`, `_` or `-`.
pub open spec fn is_unit_char(c: char) -> bool {
    ('a' <= c <= 'z') || ('A' <= c <= 'Z') || c == '%' || c == '/' || c == '_' || c == '-'
}

/// Whether a token can be a unit.
pub open spec fn unit_token(s: Seq<char>) -> bool {
    forall|i: int| 0 <= i < s.len() ==> is_unit_char(#[trigger] s[i])
}

/// Whether a token is a status word.
pub open spec fn status_token(s: Seq<char>) -> bool {
    s == "OK"@ || s == "WARN"@ || s == "ERR"@ || s == "ERROR"@ || s == "FAIL"@ || s == "FAILED"@
        || s == "ALARM"@
}

/// Whether a key names a timestamp.
pub open spec fn timestamp_key(s: Seq<char>) -> bool {
    s == "ts"@ || s == "time"@ || s == "timestamp"@
}

/// What the parser has gathered from the tokens read so far.
pub struct MeasureScan {
    pub pairs: Seq<(Seq<char>, Seq<char>)>,
    pub unit: Option<Seq<char>>,
    pub status: Option<Seq<char>>,
}

/// Reads one token: a pair is kept; before the first pair other tokens are
/// ignored; after it one unit (when there is exactly one pair) and one
/// status word may follow; anything else is malformed.
pub open spec fn measure_step(t: Seq<char>, st: MeasureScan) -> Result<MeasureScan, Seq<char>> {
    match split_pair(t) {
        Some((k, v)) => if k.len() == 0 || v.len() == 0 {
            Err("missing key or value"@)
        } else if !valid_key(k) {
            Err("invalid field name"@)
        } else {
            Ok(MeasureScan { pairs: st.pairs.push((k, v)), ..st })
        },
        None => if st.pairs.len() == 0 {
            Ok(st)
        } else if st.pairs.len() == 1 && st.unit is None && !status_token(t) && unit_token(t) {
            Ok(MeasureScan { unit: Some(t), ..st })
        } else if st.status is None && status_token(t) {
            Ok(MeasureScan { status: Some(t), ..st })
        } else {
            Err("unexpected trailing token"@)
        },
    }
}

/// Reads the tokens from position `i` on.
pub open spec fn measure_scan(toks: Seq<Seq<char>>, i: int, st: MeasureScan) -> Result<
    MeasureScan,
    Seq<char>,
>
    decreases toks.len() - i,
{
    if i < 0 || i >= toks.len() {
        Ok(st)
    } else {
        match measure_step(toks[i], st) {
            Ok(next) => measure_scan(toks, i + 1, next),
            Err(e) => Err(e),
        }
    }
}

/// The length of the longest non-empty prefix of at most `k` characters
/// that `str::parse::<f64>` accepts, or 0.
pub open spec fn float_prefix(v: Seq<char>, k: int) -> int
    decreases k,
{
    if k < 1 {
        0
    } else if float_text(v.take(k)) {
        k
    } else {
        float_prefix(v, k - 1)
    }
}

/// The number at the start of a value and the unit after it: the longest
/// prefix that reads as a float, and the trimmed rest, which must be empty
/// or a unit.
pub open spec fn split_numeric(v: Seq<char>) -> (Option<Seq<char>>, Option<Seq<char>>) {
    let k = float_prefix(v, v.len() as int);
    if k == 0 {
        (None, None)
    } else {
        let suffix = trim(v.skip(k));
        if suffix.len() == 0 {
            (Some(v.take(k)), None)
        } else if unit_token(suffix) {
            (Some(v.take(k)), Some(suffix))
        } else {
            (None, None)
        }
    }
}

/// The position of the first pair from `i` on whose key is no timestamp,
/// or 0.
pub open spec fn primary_from(pairs: Seq<(Seq<char>, Seq<char>)>, i: int) -> int
    decreases pairs.len() - i,
{
    if i < 0 || i >= pairs.len() {
        0
    } else if !timestamp_key(pairs[i].0) {
        i
    } else {
        primary_from(pairs, i + 1)
    }
}

/// Writes `field.<key>` for every pair, and `timestamp` for timestamp keys.
pub open spec fn pair_fields(m: Map<Seq<char>, Seq<char>>, pairs: Seq<(Seq<char>, Seq<char>)>) -> Map<
    Seq<char>,
    Seq<char>,
>
    decreases pairs.len(),
{
    if pairs.len() == 0 {
        m
    } else {
        let before = pair_fields(m, pairs.drop_last());
        let (k, v) = pairs.last();
        let with_field = before.insert("field."@ + k, v);
        if timestamp_key(k) {
            with_field.insert("timestamp"@, v)
        } else {
            with_field
        }
    }
}

/// The fields of a parsed line.
pub open spec fn measure_fields(st: MeasureScan) -> Map<Seq<char>, Seq<char>> {
    let m0 = Map::<Seq<char>, Seq<char>>::empty().insert("field_count"@, decimal(st.pairs.len()));
    let m1 = match st.status {
        Some(s) => m0.insert("status"@, s),
        None => m0,
    };
    let m2 = pair_fields(m1, st.pairs);
    let (pk, pv) = st.pairs[primary_from(st.pairs, 0)];
    let m3 = m2.insert("channel_id"@, pk).insert("value"@, pv);
    let (num, embedded) = split_numeric(pv);
    let m4 = match num {
        Some(n) => m3.insert("numeric_value"@, n),
        None => m3,
    };
    let unit = match st.unit {
        Some(u) => Some(u),
        None => embedded,
    };
    match unit {
        Some(u) => m4.insert("unit"@, u),
        None => m4,
    }
}

/// What the parser concludes about a line.
pub open spec fn measurement_outcome(line: Seq<char>) -> ParseOutcome {
    let t = trim(line);
    if t.len() == 0 {
        ParseOutcome::Unparsed
    } else {
        match measure_scan(
            tokens(t),
            0,
            MeasureScan { pairs: Seq::empty(), unit: None, status: None },
        ) {
            Err(reason) => ParseOutcome::Malformed(reason),
            Ok(st) => if st.pairs.len() == 0 {
                ParseOutcome::Unparsed
            } else {
                ParseOutcome::Parsed(measure_fields(st))
            },
        }
    }
}

/// Whether a token can be a unit.
pub fn is_unit_token(token: &[char]) -> (r: bool)
    ensures
        r == unit_token(token@),
{
    let mut i: usize = 0;
    while i < token.len()
        invariant
            i <= token.len(),
            forall|j: int| 0 <= j < i ==> is_unit_char(#[trigger] token@[j]),
        decreases token.len() - i,
    {
        let c = token[i];
        if !(('a' <= c && c <= 'z') || ('A' <= c && c <= 'Z') || c == '%' || c == '/' || c == '_'
            || c == '-') {
            return false;
        }
        i = i + 1;
    }
    true
}

/// Whether a token is a status word.
pub fn is_status_token(token: &[char]) -> (r: bool)
    ensures
        r == status_token(token@),
{
    chars_eq_str(token, "OK") || chars_eq_str(token, "WARN") || chars_eq_str(token, "ERR")
        || chars_eq_str(token, "ERROR") || chars_eq_str(token, "FAIL") || chars_eq_str(
        token,
        "FAILED",
    ) || chars_eq_str(token, "ALARM")
}

/// Whether a key names a timestamp.
pub fn is_timestamp_key(key: &[char]) -> (r: bool)
    ensures
        r == timestamp_key(key@),
{
    chars_eq_str(key, "ts") || chars_eq_str(key, "time") || chars_eq_str(key, "timestamp")
}

/// Splits a token into key and value at its first `=`, or else its first
/// `:`.
pub fn split_token_pair(token: &[char]) -> (r: Option<(Vec<char>, Vec<char>)>)
    ensures
        match split_pair(token@) {
            Some((k, v)) => r matches Some((x, y)) && x@ == k && y@ == v,
            None => r is None,
        },
{
    match split_once_chars(token, '=') {
        Some(p) => Some(p),
        None => split_once_chars(token, ':'),
    }
}

/// Splits a value into its leading number and the unit after it.
pub fn split_numeric_value(value: &[char]) -> (r: (Option<Vec<char>>, Option<Vec<char>>))
    ensures
        opt_chars(r.0) == split_numeric(value@).0,
        opt_chars(r.1) == split_numeric(value@).1,
{
    let mut k: usize = value.len();
    while k > 0
        invariant
            k <= value.len(),
            float_prefix(value@, value@.len() as int) == float_prefix(value@, k as int),
        ensures
            k <= value.len(),
            float_prefix(value@, value@.len() as int) == float_prefix(value@, k as int),
            k > 0 ==> float_text(value@.take(k as int)),
        decreases k,
    {
        let prefix = vstd::slice::slice_subrange(value, 0, k);
        assert(prefix@ =~= value@.take(k as int));
        if is_float_text(prefix) {
            break;
        }
        k = k - 1;
    }
    if k == 0 {
        return (None, None);
    }
    let number = vstd::slice::slice_to_vec(vstd::slice::slice_subrange(value, 0, k));
    assert(number@ =~= value@.take(k as int));
    let rest = vstd::slice::slice_subrange(value, k, value.len());
    assert(rest@ =~= value@.skip(k as int));
    let suffix = trim_chars(rest);
    if suffix.len() == 0 {
        return (Some(number), None);
    }
    if is_unit_token(suffix.as_slice()) {
        return (Some(number), Some(suffix));
    }
    (None, None)
}

/// The text of a list of pairs.
pub open spec fn pairs_text(v: Seq<(Vec<char>, Vec<char>)>) -> Seq<(Seq<char>, Seq<char>)> {
    v.map_values(|p: (Vec<char>, Vec<char>)| (p.0@, p.1@))
}

/// The text of an optional character vector.
pub open spec fn opt_chars(o: Option<Vec<char>>) -> Option<Seq<char>> {
    match o {
        Some(v) => Some(v@),
        None => None,
    }
}

/// The position of the primary pair: the first whose key is no timestamp,
/// or the first pair.
pub fn select_primary_pair(pairs: &[(Vec<char>, Vec<char>)]) -> (r: usize)
    requires
        pairs.len() > 0,
    ensures
        r == primary_from(pairs_text(pairs@), 0),
        r < pairs.len(),
{
    let ghost model = pairs_text(pairs@);
    let mut i: usize = 0;
    while i < pairs.len()
        invariant
            i <= pairs.len(),
            model == pairs_text(pairs@),
            primary_from(model, 0) == primary_from(model, i as int),
        decreases pairs.len() - i,
    {
        assert(model[i as int].0 == pairs@[i as int].0@);
        if !is_timestamp_key(pairs[i].0.as_slice()) {
            return i;
        }
        i = i + 1;
    }
    0
}

/// A string made of a prefix and characters.
fn prefixed(prefix: &str, rest: &[char]) -> (out: String)
    ensures
        out@ == prefix@ + rest@,
{
    let mut s = crate::text::owned(prefix);
    s.append(string_from_chars(rest).as_str());
    s
}

/// Builds the fields of a parsed line.
fn build_fields(
    pairs: &Vec<(Vec<char>, Vec<char>)>,
    unit: Option<Vec<char>>,
    status: Option<Vec<char>>,
) -> (out: FieldMap)
    requires
        pairs.len() > 0,
    ensures
        out@ == measure_fields(
            MeasureScan { pairs: pairs_text(pairs@), unit: opt_chars(unit), status: opt_chars(status) },
        ),
{
    let ghost st = MeasureScan {
        pairs: pairs_text(pairs@),
        unit: opt_chars(unit),
        status: opt_chars(status),
    };
    let mut fields = FieldMap::new();
    fields.insert_str("field_count", format_u64(pairs.len() as u64));
    match status {
        Some(s) => {
            fields.insert_str("status", string_from_chars(s.as_slice()));
        },
        None => {},
    }
    let ghost m1 = fields@;
    let mut j: usize = 0;
    assert(pairs_text(pairs@).take(0) =~= Seq::<(Seq<char>, Seq<char>)>::empty());
    while j < pairs.len()
        invariant
            j <= pairs.len(),
            fields@ == pair_fields(m1, pairs_text(pairs@).take(j as int)),
        decreases pairs.len() - j,
    {
        let key = pairs[j].0.as_slice();
        let value = pairs[j].1.as_slice();
        fields.insert(prefixed("field.", key), string_from_chars(value));
        if is_timestamp_key(key) {
            fields.insert_str("timestamp", string_from_chars(value));
        }
        assert(pairs_text(pairs@).take(j + 1).drop_last() =~= pairs_text(pairs@).take(j as int));
        j = j + 1;
    }
    assert(pairs_text(pairs@).take(pairs.len() as int) =~= pairs_text(pairs@));
    let p = select_primary_pair(pairs.as_slice());
    let pk = pairs[p].0.as_slice();
    let pv = pairs[p].1.as_slice();
    fields.insert_str("channel_id", string_from_chars(pk));
    fields.insert_str("value", string_from_chars(pv));
    let (numeric, embedded) = split_numeric_value(pv);
    match numeric {
        Some(n) => {
            fields.insert_str("numeric_value", string_from_chars(n.as_slice()));
        },
        None => {},
    }
    let unit = match unit {
        Some(u) => Some(u),
        None => embedded,
    };
    match unit {
        Some(u) => {
            fields.insert_str("unit", string_from_chars(u.as_slice()));
        },
        None => {},
    }
    fields
}

/// Parses one telemetry line (without its line ending).
pub fn parse_line(line: &str) -> (out: ParserMeta)
    ensures
        meta_is(out, MEASUREMENT_PARSER_NAME@, measurement_outcome(line@)),
{
    let chars = chars_of(line);
    let trimmed = trim_chars(chars.as_slice());
    if trimmed.len() == 0 {
        return ParserMeta::unparsed();
    }
    let toks = split_tokens(trimmed.as_slice());
    let ghost tm = texts(toks@);
    let ghost init = MeasureScan { pairs: Seq::empty(), unit: None, status: None };
    let mut pairs: Vec<(Vec<char>, Vec<char>)> = Vec::new();
    let mut unit: Option<Vec<char>> = None;
    let mut status: Option<Vec<char>> = None;
    let mut i: usize = 0;
    assert(pairs_text(pairs@) =~= Seq::<(Seq<char>, Seq<char>)>::empty());
    while i < toks.len()
        invariant
            i <= toks.len(),
            tm == texts(toks@),
            tm == tokens(trim(line@)),
            init == (MeasureScan { pairs: Seq::empty(), unit: None, status: None }),
            measure_scan(tm, 0, init) == measure_scan(
                tm,
                i as int,
                MeasureScan {
                    pairs: pairs_text(pairs@),
                    unit: opt_chars(unit),
                    status: opt_chars(status),
                },
            ),
        decreases toks.len() - i,
    {
        let t = toks[i].as_slice();
        assert(tm[i as int] == t@);
        match split_token_pair(t) {
            Some((k, v)) => {
                if k.len() == 0 || v.len() == 0 {
                    return ParserMeta::malformed(
                        Some(MEASUREMENT_PARSER_NAME),
                        "missing key or value",
                    );
                }
                if !is_valid_key(k.as_slice()) {
                    return ParserMeta::malformed(
                        Some(MEASUREMENT_PARSER_NAME),
                        "invalid field name",
                    );
                }
                let ghost before = pairs@;
                let ghost pair_text = (k@, v@);
                pairs.push((k, v));
                assert(pairs_text(pairs@) =~= pairs_text(before).push(pair_text));
            },
            None => {
                if pairs.len() == 0 {
                } else if pairs.len() == 1 && unit.is_none() && !is_status_token(t)
                    && is_unit_token(t) {
                    unit = Some(vstd::slice::slice_to_vec(t));
                } else if status.is_none() && is_status_token(t) {
                    status = Some(vstd::slice::slice_to_vec(t));
                } else {
                    return ParserMeta::malformed(
                        Some(MEASUREMENT_PARSER_NAME),
                        "unexpected trailing token",
                    );
                }
            },
        }
        i = i + 1;
    }
    if pairs.len() == 0 {
        return ParserMeta::unparsed();
    }
    let fields = build_fields(&pairs, unit, status);
    ParserMeta::parsed(MEASUREMENT_PARSER_NAME, fields)
}

/// A run of non-separators joins the token being read.
proof fn lemma_tok_run(s: Seq<char>, i: int, j: int, cur: Seq<char>, acc: Seq<Seq<char>>)
    requires
        0 <= i <= j <= s.len(),
        forall|x: int| i <= x < j ==> !is_sep(#[trigger] s[x]),
    ensures
        tok_scan(s, i, cur, acc) == tok_scan(s, j, cur + s.subrange(i, j), acc),
    decreases j - i,
{
    if i < j {
        lemma_tok_run(s, i + 1, j, cur.push(s[i]), acc);
        assert(cur.push(s[i]) + s.subrange(i + 1, j) =~= cur + s.subrange(i, j));
    } else {
        assert(cur + s.subrange(i, i) =~= cur);
    }
}

/// Two non-empty words joined by a comma are two tokens.
proof fn lemma_two_tokens(a: Seq<char>, b: Seq<char>)
    requires
        a.len() > 0,
        b.len() > 0,
        forall|x: int| 0 <= x < a.len() ==> !is_sep(#[trigger] a[x]),
        forall|x: int| 0 <= x < b.len() ==> !is_sep(#[trigger] b[x]),
    ensures
        tokens(a + seq![','] + b) == seq![a, b],
{
    let s = a + seq![','] + b;
    let n = a.len() as int;
    assert forall|x: int| 0 <= x < n implies !is_sep(#[trigger] s[x]) by {
        assert(s[x] == a[x]);
    }
    lemma_tok_run(s, 0, n, Seq::empty(), Seq::empty());
    assert(Seq::<char>::empty() + s.subrange(0, n) =~= a);
    assert(s[n] == ',');
    assert forall|x: int| n + 1 <= x < s.len() implies !is_sep(#[trigger] s[x]) by {
        assert(s[x] == b[x - n - 1]);
    }
    lemma_tok_run(s, n + 1, s.len() as int, Seq::empty(), seq![a]);
    assert(Seq::<char>::empty() + s.subrange(n + 1, s.len() as int) =~= b);
    assert(seq![a].push(b) =~= seq![a, b]);
}

/// A token `key=value` whose key holds no `=`: that key and that value.
proof fn lemma_split_at_equals(key: Seq<char>, value: Seq<char>)
    requires
        forall|x: int| 0 <= x < key.len() ==> key[x] != '=',
    ensures
        split_pair(key + seq!['='] + value) == Some((key, value)),
{
    let t = key + seq!['='] + value;
    assert forall|x: int| 0 <= x < key.len() implies t[x] != '=' by {
        assert(t[x] == key[x]);
    }
    lemma_first_index_at(t, '=', 0, key.len() as int);
    assert(t.take(key.len() as int) =~= key);
    assert(t.skip(key.len() as int + 1) =~= value);
}

/// A line `tk=T,key=value`, where `tk` is a timestamp key (`ts`, `time` or
/// `timestamp`), gives the timestamp `T`, and the channel is `key` with
/// value `value`: a timestamp pair is never the primary one. `T` and `value`
/// are non-empty and hold no comma or white space; `key` is a non-empty word
/// of ASCII letters, digits, `_`, `-` and `.`, and not a timestamp key.
pub proof fn lemma_timestamp_pair_is_not_the_channel(
    tk: Seq<char>,
    t: Seq<char>,
    key: Seq<char>,
    value: Seq<char>,
)
    requires
        tk == "ts"@ || tk == "time"@ || tk == "timestamp"@,
        t.len() > 0,
        forall|x: int| 0 <= x < t.len() ==> t[x] != ',' && !is_ws(#[trigger] t[x]),
        key.len() > 0,
        forall|x: int| 0 <= x < key.len() ==> ascii_word_char(#[trigger] key[x]),
        key != "ts"@,
        key != "time"@,
        key != "timestamp"@,
        value.len() > 0,
        forall|x: int| 0 <= x < value.len() ==> value[x] != ',' && !is_ws(#[trigger] value[x]),
    ensures
        ({
            let line = tk + seq!['='] + t + seq![','] + key + seq!['='] + value;
            &&& measurement_outcome(line) is Parsed
            &&& measurement_outcome(line)->Parsed_0.contains_key("timestamp"@)
            &&& measurement_outcome(line)->Parsed_0["timestamp"@] == t
            &&& measurement_outcome(line)->Parsed_0["channel_id"@] == key
            &&& measurement_outcome(line)->Parsed_0["value"@] == value
        }),
{
    reveal_strlit("timestamp");
    reveal_strlit("ts");
    reveal_strlit("time");
    reveal_strlit("field.");
    reveal_strlit("channel_id");
    reveal_strlit("value");
    reveal_strlit("numeric_value");
    reveal_strlit("unit");
    reveal_strlit("field_count");
    reveal_strlit("status");
    let ts = "timestamp"@;
    assert(forall|x: int| 0 <= x < tk.len() ==> 'a' <= #[trigger] tk[x] <= 'z');
    assert(tk.len() >= 2 && tk[0] == 't');
    let a = tk + seq!['='] + t;
    let b = key + seq!['='] + value;
    let line = tk + seq!['='] + t + seq![','] + key + seq!['='] + value;
    assert(line =~= a + seq![','] + b);
    assert forall|x: int| 0 <= x < a.len() implies !is_sep(#[trigger] a[x]) by {
        if x < tk.len() {
            assert(a[x] == tk[x]);
        } else if x > tk.len() {
            assert(a[x] == t[x - tk.len() - 1]);
        }
    }
    assert forall|x: int| 0 <= x < b.len() implies !is_sep(#[trigger] b[x]) by {
        if x < key.len() {
            assert(b[x] == key[x]);
            assert(ascii_word_char(key[x]));
        } else if x > key.len() {
            assert(b[x] == value[x - key.len() - 1]);
        }
    }
    assert(line[0] == 't');
    assert(line.last() == value.last());
    lemma_trim_keeps(line);
    lemma_two_tokens(a, b);
    assert forall|x: int| 0 <= x < tk.len() implies tk[x] != '=' by {}
    lemma_split_at_equals(tk, t);
    assert forall|x: int| 0 <= x < key.len() implies key[x] != '=' by {
        assert(ascii_word_char(key[x]));
    }
    lemma_split_at_equals(key, value);
    lemma_word_keys_are_valid(key);
    assert(valid_key(tk));
    let toks = seq![a, b];
    let init = MeasureScan { pairs: Seq::empty(), unit: None, status: None };
    let st1 = MeasureScan { pairs: init.pairs.push((tk, t)), ..init };
    let st2 = MeasureScan { pairs: st1.pairs.push((key, value)), ..st1 };
    assert(measure_step(a, init) == Ok::<MeasureScan, Seq<char>>(st1));
    assert(measure_step(b, st1) == Ok::<MeasureScan, Seq<char>>(st2));
    assert(measure_scan(toks, 2, st2) == Ok::<MeasureScan, Seq<char>>(st2));
    assert(measure_scan(toks, 1, st1) == Ok::<MeasureScan, Seq<char>>(st2));
    assert(measure_scan(toks, 0, init) == Ok::<MeasureScan, Seq<char>>(st2));
    let pairs = st2.pairs;
    assert(pairs =~= seq![(tk, t), (key, value)]);
    assert(timestamp_key(tk));
    assert(!timestamp_key(key));
    assert(primary_from(pairs, 1) == 1);
    assert(primary_from(pairs, 0) == 1);
    let m1 = Map::<Seq<char>, Seq<char>>::empty().insert("field_count"@, decimal(2));
    assert(pairs.drop_last() =~= seq![(tk, t)]);
    let fk = "field."@ + key;
    assert(fk[0] == 'f');
    assert(fk != ts);
    let one = seq![(tk, t)];
    assert(one.drop_last() =~= Seq::<(Seq<char>, Seq<char>)>::empty());
    assert(one.last() == (tk, t));
    assert(pair_fields(m1, one.drop_last()) == m1);
    assert(pair_fields(m1, one) == m1.insert("field."@ + tk, t).insert(ts, t));
    let m2 = pair_fields(m1, pairs);
    assert(m2 == pair_fields(m1, one).insert(fk, value));
    assert(m2.contains_key(ts) && m2[ts] == t);
    assert(pairs[1] == (key, value));
    let m3 = m2.insert("channel_id"@, key).insert("value"@, value);
    assert(ts.len() == 9 && "numeric_value"@.len() == 13 && "unit"@.len() == 4);
    assert(ts != "channel_id"@ && ts != "value"@ && ts != "numeric_value"@ && ts != "unit"@);
    assert(m3.contains_key(ts) && m3[ts] == t);
    assert("channel_id"@.len() == 10 && "value"@.len() == 5);
    assert("channel_id"@ != "value"@);
    assert(m3["channel_id"@] == key && m3["value"@] == value);
    let f = measure_fields(st2);
    assert(f.contains_key(ts) && f[ts] == t);
    assert(f["channel_id"@] == key);
    assert(f["value"@] == value);
    assert(trim(line) == line);
    assert(tokens(trim(line)) == toks);
    assert(measurement_outcome(line) == ParseOutcome::Parsed(f));
}

} // verus!
