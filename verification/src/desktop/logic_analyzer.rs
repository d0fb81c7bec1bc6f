//! The logic-analyzer capture through `sigrok-cli`: reading its scan
//! output, building its command line, and reading the waveform it writes.

use vstd::prelude::*;
use crate::decimal::{decimal, float_text, format_u64, is_float_text};
use crate::desktop::model::{
    LogicAnalyzerCaptureRequest, LogicAnalyzerCaptureResult, LogicAnalyzerCaptureState, LogicAnalyzerDevice,
    LogicAnalyzerSessionState, LogicAnalyzerStatus,
};
use crate::text::{
    ascii_lower_all, chars_eq_str, chars_of, chars_start_with, is_whitespace, join, join_strings,
    lines, lossy_text, lower_chars, owned, split_lines, starts_with, string_from_chars,
    strings_model, trim, trim_chars, trim_matches, trim_matches_chars, utf8_lossy,
};

verus! {

/// Splits a CSV line from position `i` on: `cur` is the field being read,
/// `q` whether a quoted part is open, `acc` the finished fields. A doubled
/// quote inside quotes stands for one quote; each field is trimmed.
pub open spec fn csv_scan(s: Seq<char>, i: int, cur: Seq<char>, q: bool, acc: Seq<Seq<char>>) -> Seq<
    Seq<char>,
>
    decreases s.len() - i,
{
    if i < 0 || i >= s.len() {
        acc.push(trim(cur))
    } else if s[i] == '"' {
        if q && i + 1 < s.len() && s[i + 1] == '"' {
            csv_scan(s, i + 2, cur.push('"'), q, acc)
        } else {
            csv_scan(s, i + 1, cur, !q, acc)
        }
    } else if s[i] == ',' && !q {
        csv_scan(s, i + 1, Seq::empty(), q, acc.push(trim(cur)))
    } else {
        csv_scan(s, i + 1, cur.push(s[i]), q, acc)
    }
}

/// The fields of a CSV line.
pub open spec fn csv_fields(s: Seq<char>) -> Seq<Seq<char>> {
    csv_scan(s, 0, Seq::empty(), false, Seq::empty())
}

/// Splits a CSV line into its trimmed fields.
pub fn split_csv_line(line: &[char]) -> (out: Vec<String>)
    ensures
        strings_model(out@) == csv_fields(line@),
{
    let mut fields: Vec<String> = Vec::new();
    let mut current: Vec<char> = Vec::new();
    let mut in_quotes = false;
    let mut i: usize = 0;
    assert(strings_model(fields@) =~= Seq::<Seq<char>>::empty());
    assert(current@ =~= Seq::<char>::empty());
    while i < line.len()
        invariant
            i <= line.len(),
            csv_fields(line@) == csv_scan(line@, i as int, current@, in_quotes, strings_model(fields@)),
        decreases line.len() - i,
    {
        let c = line[i];
        if c == '"' {
            if in_quotes && i + 1 < line.len() && line[i + 1] == '"' {
                current.push('"');
                i = i + 2;
            } else {
                in_quotes = !in_quotes;
                i = i + 1;
            }
        } else if c == ',' && !in_quotes {
            let t = trim_chars(current.as_slice());
            let field = string_from_chars(t.as_slice());
            let ghost before = fields@;
            fields.push(field);
            assert(strings_model(fields@) =~= strings_model(before).push(trim(current@)));
            current = Vec::new();
            assert(current@ =~= Seq::<char>::empty());
            i = i + 1;
        } else {
            current.push(c);
            i = i + 1;
        }
    }
    let t = trim_chars(current.as_slice());
    let field = string_from_chars(t.as_slice());
    let ghost before = fields@;
    fields.push(field);
    assert(strings_model(fields@) =~= strings_model(before).push(trim(current@)));
    fields
}

/// A value without surrounding white space, double quotes and single
/// quotes, in that order.
pub open spec fn cleaned(v: Seq<char>) -> Seq<char> {
    trim_matches(trim_matches(trim(v), '"'), '\'')
}

fn clean(v: &[char]) -> (out: Vec<char>)
    ensures
        out@ == cleaned(v@),
{
    let t = trim_chars(v);
    let q = trim_matches_chars(t.as_slice(), '"');
    trim_matches_chars(q.as_slice(), '\'')
}

/// The label of a channel column: the cleaned header, or `D` and the
/// column's position when nothing is left.
pub open spec fn fallback_label(v: Seq<char>, index: int) -> Seq<char> {
    if cleaned(v).len() == 0 {
        seq!['D'] + decimal(index as nat)
    } else {
        cleaned(v)
    }
}

/// The label of a channel column: the cleaned header, or `D<index>`.
pub fn normalize_fallback_label(value: &[char], index: usize) -> (out: String)
    ensures
        out@ == fallback_label(value@, index as int),
{
    let c = clean(value);
    if c.len() == 0 {
        let mut s = owned("D");
        s.append(format_u64(index as u64).as_str());
        proof {
            reveal_strlit("D");
        }
        assert(s@ =~= seq!['D'] + decimal(index as nat));
        s
    } else {
        string_from_chars(c.as_slice())
    }
}

/// Whether a cleaned, lower-cased header names a time or index column.
pub open spec fn non_channel_header(lower: Seq<char>) -> bool {
    lower == "time"@ || lower == "timestamp"@ || lower == "sample"@ || lower == "index"@
}

/// The label of a header that names a channel, or `None`.
pub open spec fn channel_label(v: Seq<char>) -> Option<Seq<char>> {
    let c = cleaned(v);
    if c.len() == 0 || non_channel_header(ascii_lower_all(c)) {
        None
    } else {
        Some(fallback_label(c, 0))
    }
}

/// The label of a header that names a channel: empty headers and time or
/// index columns name none.
pub fn normalize_channel_label(value: &[char]) -> (out: Option<String>)
    ensures
        match channel_label(value@) {
            Some(l) => out matches Some(s) && s@ == l,
            None => out is None,
        },
{
    let c = clean(value);
    if c.len() == 0 {
        return None;
    }
    let lower = lower_chars(c.as_slice());
    if chars_eq_str(lower.as_slice(), "time") || chars_eq_str(lower.as_slice(), "timestamp")
        || chars_eq_str(lower.as_slice(), "sample") || chars_eq_str(lower.as_slice(), "index") {
        return None;
    }
    Some(normalize_fallback_label(c.as_slice(), 0))
}

/// The level of one sample as text can give it: high, low, unknown, or a
/// number whose comparison with one half decides.
#[derive(Clone, Debug, PartialEq, Eq)]
pub enum LogicLevel {
    High,
    Low,
    Unknown,
    Numeric(String),
}

/// Abstract value of a sample level.
pub enum LevelModel {
    High,
    Low,
    Unknown,
    Numeric(Seq<char>),
}

impl View for LogicLevel {
    type V = LevelModel;

    open spec fn view(&self) -> LevelModel {
        match self {
            LogicLevel::High => LevelModel::High,
            LogicLevel::Low => LevelModel::Low,
            LogicLevel::Unknown => LevelModel::Unknown,
            LogicLevel::Numeric(s) => LevelModel::Numeric(s@),
        }
    }
}

/// The level a CSV value gives: `1`, `true`, `high` and `0`, `false`, `low`
/// in any case; empty, `x`, `z`, `-` and `nan` are unknown; other text that
/// reads as a float is a number, and anything else is unknown.
pub open spec fn level_of(v: Seq<char>) -> LevelModel {
    let l = ascii_lower_all(cleaned(v));
    if l == "1"@ || l == "true"@ || l == "high"@ {
        LevelModel::High
    } else if l == "0"@ || l == "false"@ || l == "low"@ {
        LevelModel::Low
    } else if l.len() == 0 || l == "x"@ || l == "z"@ || l == "-"@ || l == "nan"@ {
        LevelModel::Unknown
    } else if float_text(l) {
        LevelModel::Numeric(l)
    } else {
        LevelModel::Unknown
    }
}

/// Reads the level of one CSV value.
pub fn parse_logic_level(value: &[char]) -> (out: LogicLevel)
    ensures
        out@ == level_of(value@),
{
    let c = clean(value);
    let l = lower_chars(c.as_slice());
    let ls = l.as_slice();
    if chars_eq_str(ls, "1") || chars_eq_str(ls, "true") || chars_eq_str(ls, "high") {
        LogicLevel::High
    } else if chars_eq_str(ls, "0") || chars_eq_str(ls, "false") || chars_eq_str(ls, "low") {
        LogicLevel::Low
    } else if l.len() == 0 || chars_eq_str(ls, "x") || chars_eq_str(ls, "z") || chars_eq_str(
        ls,
        "-",
    ) || chars_eq_str(ls, "nan") {
        LogicLevel::Unknown
    } else if is_float_text(ls) {
        LogicLevel::Numeric(string_from_chars(ls))
    } else {
        LogicLevel::Unknown
    }
}

/// The warning shown when a capture finished but its file could not be
/// read.
pub fn format_capture_warning(error: &str) -> (out: String)
    ensures
        out@ == "capture completed, but waveform parsing failed: "@ + error@,
{
    let mut s = owned("capture completed, but waveform parsing failed: ");
    s.append(error);
    s
}

/// A character that a shell word may hold without quoting.
pub open spec fn is_shell_safe(c: char) -> bool {
    ('a' <= c <= 'z') || ('A' <= c <= 'Z') || ('0' <= c <= '9') || c == '_' || c == '.' || c == '/'
        || c == ':' || c == '-'
}

/// The text with each `'` written as `'\''`.
pub open spec fn escape_quotes(s: Seq<char>) -> Seq<char>
    decreases s.len(),
{
    if s.len() == 0 {
        Seq::empty()
    } else if s.last() == '\'' {
        escape_quotes(s.drop_last()) + seq!['\'', '\\', '\'', '\'']
    } else {
        escape_quotes(s.drop_last()).push(s.last())
    }
}

/// A value as one shell word: `''` when empty, as it is when every
/// character is safe, else in single quotes.
pub open spec fn shell_word(v: Seq<char>) -> Seq<char> {
    if v.len() == 0 {
        seq!['\'', '\'']
    } else if forall|i: int| 0 <= i < v.len() ==> is_shell_safe(#[trigger] v[i]) {
        v
    } else {
        seq!['\''] + escape_quotes(v) + seq!['\'']
    }
}

/// Quotes a value for a POSIX shell.
pub fn shell_escape(value: &str) -> (out: String)
    ensures
        out@ == shell_word(value@),
{
    let v = chars_of(value);
    if v.len() == 0 {
        let q: Vec<char> = vec!['\'', '\''];
        assert(q@ =~= seq!['\'', '\'']);
        return string_from_chars(q.as_slice());
    }
    let mut safe = true;
    let mut i: usize = 0;
    while i < v.len()
        invariant
            i <= v.len(),
            safe == forall|j: int| 0 <= j < i ==> is_shell_safe(#[trigger] v@[j]),
        decreases v.len() - i,
    {
        let c = v[i];
        let ok = ('a' <= c && c <= 'z') || ('A' <= c && c <= 'Z') || ('0' <= c && c <= '9') || c
            == '_' || c == '.' || c == '/' || c == ':' || c == '-';
        if !ok {
            safe = false;
        }
        i = i + 1;
    }
    if safe {
        return owned(value);
    }
    let mut out: Vec<char> = vec!['\''];
    let mut k: usize = 0;
    assert(v@.take(0) =~= Seq::<char>::empty());
    while k < v.len()
        invariant
            k <= v.len(),
            out@ =~= seq!['\''] + escape_quotes(v@.take(k as int)),
        decreases v.len() - k,
    {
        assert(v@.take(k + 1).drop_last() =~= v@.take(k as int));
        if v[k] == '\'' {
            out.push('\'');
            out.push('\\');
            out.push('\'');
            out.push('\'');
        } else {
            out.push(v[k]);
        }
        k = k + 1;
    }
    assert(v@.take(v.len() as int) =~= v@);
    out.push('\'');
    string_from_chars(out.as_slice())
}

/// The arguments of a capture: device, sample count, CSV output to the
/// path, then the sample rate and the channels when given.
pub open spec fn capture_args(
    device_ref: Seq<char>,
    sample_count: u32,
    samplerate_hz: Option<u64>,
    channels: Seq<Seq<char>>,
    output_path: Seq<char>,
) -> Seq<Seq<char>> {
    let base = seq![
        "-d"@,
        device_ref,
        "--samples"@,
        decimal(sample_count as nat),
        "-O"@,
        "csv"@,
        "-o"@,
        output_path,
    ];
    let with_rate = match samplerate_hz {
        Some(hz) => base + seq!["-c"@, "samplerate="@ + decimal(hz as nat)],
        None => base,
    };
    if channels.len() > 0 {
        with_rate + seq!["-C"@, join(channels, ","@)]
    } else {
        with_rate
    }
}

/// The arguments of `sigrok-cli` for a capture request.
pub fn build_capture_args(request: &LogicAnalyzerCaptureRequest, output_path: &str) -> (out: Vec<
    String,
>)
    ensures
        strings_model(out@) == capture_args(
            request.device_ref@,
            request.sample_count,
            request.samplerate_hz,
            strings_model(request.channels@),
            output_path@,
        ),
{
    let mut parts: Vec<String> = Vec::new();
    parts.push(owned("-d"));
    parts.push(request.device_ref.clone());
    parts.push(owned("--samples"));
    parts.push(format_u64(request.sample_count as u64));
    parts.push(owned("-O"));
    parts.push(owned("csv"));
    parts.push(owned("-o"));
    parts.push(owned(output_path));
    let ghost base = strings_model(parts@);
    match request.samplerate_hz {
        Some(hz) => {
            parts.push(owned("-c"));
            let mut s = owned("samplerate=");
            s.append(format_u64(hz).as_str());
            parts.push(s);
        },
        None => {},
    }
    let ghost with_rate = strings_model(parts@);
    if request.channels.len() > 0 {
        parts.push(owned("-C"));
        parts.push(join_strings(request.channels.as_slice(), ","));
        assert(strings_model(parts@) =~= with_rate + seq!["-C"@, join(strings_model(request.channels@), ","@)]);
    }
    assert(strings_model(parts@) =~= capture_args(
        request.device_ref@,
        request.sample_count,
        request.samplerate_hz,
        strings_model(request.channels@),
        output_path@,
    ));
    parts
}

/// The shell words of the executable and its arguments.
pub open spec fn command_words(executable: Seq<char>, args: Seq<Seq<char>>) -> Seq<Seq<char>> {
    seq![shell_word(executable)] + args.map_values(|a: Seq<char>| shell_word(a))
}

/// The command line of a capture, quoted for a shell.
pub fn format_capture_command(executable: &str, args: &[String]) -> (out: String)
    ensures
        out@ == join(command_words(executable@, strings_model(args@)), " "@),
{
    let mut parts: Vec<String> = Vec::new();
    parts.push(shell_escape(executable));
    let mut i: usize = 0;
    while i < args.len()
        invariant
            i <= args.len(),
            strings_model(parts@) =~= command_words(executable@, strings_model(args@.take(i as int))),
        decreases args.len() - i,
    {
        let w = shell_escape(args[i].as_str());
        let ghost before = parts@;
        parts.push(w);
        let ghost m = strings_model(args@.take(i as int));
        assert(strings_model(args@.take(i + 1)) =~= m.push(args@[i as int]@));
        assert(command_words(executable@, m.push(args@[i as int]@)) =~= command_words(executable@, m).push(shell_word(args@[i as int]@)));
        assert(strings_model(parts@) =~= strings_model(before).push(w@));
        i = i + 1;
    }
    assert(args@.take(args.len() as int) =~= args@);
    join_strings(parts.as_slice(), " ")
}

/// The command line of a capture request, quoted for a shell.
pub fn build_capture_command(
    executable: &str,
    request: &LogicAnalyzerCaptureRequest,
    output_path: &str,
) -> (out: String)
    ensures
        out@ == join(
            command_words(
                executable@,
                capture_args(
                    request.device_ref@,
                    request.sample_count,
                    request.samplerate_hz,
                    strings_model(request.channels@),
                    output_path@,
                ),
            ),
            " "@,
        ),
{
    let args = build_capture_args(request, output_path);
    format_capture_command(executable, args.as_slice())
}

/// The text of a program's output and error streams: the error text
/// follows on a new line when it holds more than white space.
pub open spec fn combined_output(stdout: Seq<u8>, stderr: Seq<u8>) -> Seq<char> {
    let out = utf8_lossy(stdout);
    let err = utf8_lossy(stderr);
    if trim(err).len() == 0 {
        out
    } else if out.len() == 0 {
        err
    } else {
        out + seq!['\n'] + err
    }
}

/// Joins the text of a program's output and error streams.
pub fn combine_output(stdout: &[u8], stderr: &[u8]) -> (out: String)
    ensures
        out@ == combined_output(stdout@, stderr@),
{
    let mut output = lossy_text(stdout);
    let stderr_text = lossy_text(stderr);
    let ec = chars_of(stderr_text.as_str());
    let et = trim_chars(ec.as_slice());
    if et.len() > 0 {
        let oc = chars_of(output.as_str());
        if oc.len() > 0 {
            let nl: Vec<char> = vec!['\n'];
            output.append(string_from_chars(nl.as_slice()).as_str());
        }
        output.append(stderr_text.as_str());
    }
    output
}

/// The position of the last `c` before position `end`, or -1.
pub open spec fn last_index(s: Seq<char>, c: char, end: int) -> int
    decreases end,
{
    if end <= 0 {
        -1
    } else if s[end - 1] == c {
        end - 1
    } else {
        last_index(s, c, end - 1)
    }
}

/// The device that one line of `sigrok-cli --scan` describes: the name
/// before the last `[`, and the reference between it and the next `]`.
pub open spec fn device_of_line(line: Seq<char>) -> Option<(Seq<char>, Seq<char>)> {
    let open = last_index(line, '[', line.len() as int);
    if open < 0 {
        None
    } else {
        let close = crate::text::first_index(line, ']', open);
        if close < 0 {
            None
        } else {
            let reference = trim(line.subrange(open + 1, close));
            let name = trim(cleaned(line.take(open)));
            Some(
                (
                    reference,
                    if name.len() == 0 {
                        reference
                    } else {
                        name
                    },
                ),
            )
        }
    }
}

proof fn lemma_last_index_range(s: Seq<char>, c: char, end: int)
    requires
        end <= s.len(),
    ensures
        last_index(s, c, end) == -1 || (0 <= last_index(s, c, end) < end && s[last_index(
            s,
            c,
            end,
        )] == c),
    decreases end,
{
    if end > 0 && s[end - 1] != c {
        lemma_last_index_range(s, c, end - 1);
    }
}

/// Whether a device's driver is its reference.
pub open spec fn driver_is_reference(d: LogicAnalyzerDevice) -> bool {
    d.driver matches Some(x) && x@ == d.reference@
}

/// Whether `d` is the device read from `line` with the given reference and
/// name: its driver is the reference, it lists no channels and no note,
/// and it keeps the line.
pub open spec fn device_is(
    d: LogicAnalyzerDevice,
    reference: Seq<char>,
    name: Seq<char>,
    line: Seq<char>,
) -> bool {
    &&& d.reference@ == reference
    &&& d.name@ == name
    &&& driver_is_reference(d)
    &&& d.channels@.len() == 0
    &&& d.note is None
    &&& d.raw_line matches Some(r) && r@ == line
}

/// Reads one device line of `sigrok-cli --scan`.
pub fn parse_device_line(line: &[char]) -> (out: Option<LogicAnalyzerDevice>)
    ensures
        match device_of_line(line@) {
            Some((reference, name)) => out matches Some(d) && device_is(d, reference, name, line@),
            None => out is None,
        },
{
    let mut open = line.len();
    while open > 0 && line[open - 1] != '['
        invariant
            open <= line.len(),
            last_index(line@, '[', line.len() as int) == last_index(line@, '[', open as int),
        decreases open,
    {
        open = open - 1;
    }
    if open == 0 {
        return None;
    }
    let open = open - 1;
    proof {
        lemma_last_index_range(line@, '[', line.len() as int);
    }
    let mut close = open;
    while close < line.len() && line[close] != ']'
        invariant
            open <= close <= line.len(),
            crate::text::first_index(line@, ']', open as int) == crate::text::first_index(
                line@,
                ']',
                close as int,
            ),
        decreases line.len() - close,
    {
        close = close + 1;
    }
    if close == line.len() {
        return None;
    }
    let inner = vstd::slice::slice_subrange(line, open + 1, close);
    let reference = trim_chars(inner);
    let before = vstd::slice::slice_subrange(line, 0, open);
    assert(before@ =~= line@.take(open as int));
    let c = clean(before);
    let name = trim_chars(c.as_slice());
    let reference_text = string_from_chars(reference.as_slice());
    Some(
        LogicAnalyzerDevice {
            reference: reference_text.clone(),
            name: if name.len() == 0 {
                reference_text.clone()
            } else {
                string_from_chars(name.as_slice())
            },
            driver: Some(reference_text),
            channels: Vec::new(),
            note: None,
            raw_line: Some(string_from_chars(line)),
        },
    )
}

/// Whether a trimmed scan line is a header rather than a device.
pub open spec fn scan_header(t: Seq<char>) -> bool {
    t.len() == 0 || starts_with(t, "Sigrok"@) || starts_with(t, "Found "@)
}

/// The devices of the lines of a scan output from position `i` on.
pub open spec fn scan_devices(ls: Seq<Seq<char>>, i: int) -> Seq<(Seq<char>, Seq<char>, Seq<char>)>
    decreases ls.len() - i,
{
    if i < 0 || i >= ls.len() {
        Seq::empty()
    } else {
        let t = trim(ls[i]);
        if !scan_header(t) && device_of_line(t) is Some {
            let (r, n) = device_of_line(t)->0;
            seq![(r, n, t)] + scan_devices(ls, i + 1)
        } else {
            scan_devices(ls, i + 1)
        }
    }
}

/// The reference, name and line of each device.
pub open spec fn devices_text(d: Seq<LogicAnalyzerDevice>) -> Seq<(Seq<char>, Seq<char>, Seq<char>)> {
    d.map_values(
        |x: LogicAnalyzerDevice|
            (
                x.reference@,
                x.name@,
                match x.raw_line {
                    Some(r) => r@,
                    None => Seq::empty(),
                },
            ),
    )
}

/// Reads the devices that `sigrok-cli --scan` listed, skipping blank and
/// header lines.
pub fn parse_scan_output(output: &str) -> (out: Vec<LogicAnalyzerDevice>)
    ensures
        devices_text(out@) == scan_devices(lines(output@), 0),
        forall|i: int| 0 <= i < out@.len() ==> driver_is_reference(#[trigger] out@[i]),
{
    let chars = chars_of(output);
    let ls = split_lines(chars.as_slice());
    let ghost lm = crate::text::char_texts(ls@);
    let mut devices: Vec<LogicAnalyzerDevice> = Vec::new();
    let mut i: usize = 0;
    assert(devices_text(devices@) =~= Seq::<(Seq<char>, Seq<char>, Seq<char>)>::empty());
    while i < ls.len()
        invariant
            i <= ls.len(),
            lm == crate::text::char_texts(ls@),
            lm == lines(output@),
            scan_devices(lm, 0) == devices_text(devices@) + scan_devices(lm, i as int),
            forall|j: int| 0 <= j < devices@.len() ==> driver_is_reference(#[trigger] devices@[j]),
        decreases ls.len() - i,
    {
        let t = trim_chars(ls[i].as_slice());
        assert(lm[i as int] == ls@[i as int]@);
        let header = t.len() == 0 || chars_start_with(t.as_slice(), "Sigrok") || chars_start_with(
            t.as_slice(),
            "Found ",
        );
        if !header {
            match parse_device_line(t.as_slice()) {
                Some(device) => {
                    let ghost before = devices@;
                    let ghost entry = (device.reference@, device.name@, t@);
                    devices.push(device);
                    assert(devices_text(devices@) =~= devices_text(before).push(entry));
                    assert(devices_text(devices@) + scan_devices(lm, i + 1) =~= devices_text(before)
                        + (seq![entry] + scan_devices(lm, i + 1)));
                },
                None => {},
            }
        }
        i = i + 1;
    }
    assert(devices_text(devices@) + scan_devices(lm, ls.len() as int) =~= devices_text(devices@));
    devices
}

/// Whether some device has the reference.
pub open spec fn has_device(devices: Seq<LogicAnalyzerDevice>, reference: Seq<char>) -> bool {
    exists|i: int| 0 <= i < devices.len() && (#[trigger] devices[i]).reference@ == reference
}

/// Whether some device has the reference.
pub fn device_present(devices: &[LogicAnalyzerDevice], reference: &str) -> (r: bool)
    ensures
        r == has_device(devices@, reference@),
{
    let mut i: usize = 0;
    while i < devices.len()
        invariant
            i <= devices.len(),
            forall|j: int| 0 <= j < i ==> (#[trigger] devices@[j]).reference@ != reference@,
        decreases devices.len() - i,
    {
        if crate::text::str_eq(devices[i].reference.as_str(), reference) {
            return true;
        }
        i = i + 1;
    }
    false
}

/// The device to keep selected after a scan: the one selected before when
/// it is still there, else the first device, else none.
pub fn select_device_ref(current: Option<String>, devices: &[LogicAnalyzerDevice]) -> (out: Option<
    String,
>)
    ensures
        match current {
            Some(c) if has_device(devices@, c@) => out == Some(c),
            _ => if devices@.len() > 0 {
                out matches Some(r) && r@ == devices@[0].reference@
            } else {
                out is None
            },
        },
{
    match current {
        Some(c) => {
            if device_present(devices, c.as_str()) {
                return Some(c);
            }
        },
        None => {},
    }
    if devices.len() > 0 {
        Some(devices[0].reference.clone())
    } else {
        None
    }
}

/// Why a capture request cannot start, if it cannot: a device reference
/// must be given and must be among the scanned devices.
pub open spec fn capture_request_problem(
    devices: Seq<LogicAnalyzerDevice>,
    device_ref: Seq<char>,
) -> Option<Seq<char>> {
    if trim(device_ref).len() == 0 {
        Some("device_ref is required"@)
    } else if !has_device(devices, device_ref) {
        Some("device '"@ + device_ref + "' is not present in the current sigrok scan"@)
    } else {
        None
    }
}

/// Checks a capture request against the last scan.
pub fn check_capture_request(status: &LogicAnalyzerStatus, request: &LogicAnalyzerCaptureRequest) -> (out: Option<String>)
    ensures
        match capture_request_problem(status.devices@, request.device_ref@) {
            Some(m) => out matches Some(s) && s@ == m,
            None => out is None,
        },
{
    let rc = chars_of(request.device_ref.as_str());
    let rt = trim_chars(rc.as_slice());
    if rt.len() == 0 {
        return Some(owned("device_ref is required"));
    }
    if !device_present(status.devices.as_slice(), request.device_ref.as_str()) {
        let mut s = owned("device '");
        s.append(request.device_ref.as_str());
        s.append("' is not present in the current sigrok scan");
        return Some(s);
    }
    None
}

/// The lines that hold more than white space.
pub open spec fn nonblank(ls: Seq<Seq<char>>) -> Seq<Seq<char>>
    decreases ls.len(),
{
    if ls.len() == 0 {
        Seq::empty()
    } else if trim(ls.last()).len() > 0 {
        nonblank(ls.drop_last()).push(ls.last())
    } else {
        nonblank(ls.drop_last())
    }
}

/// The channel columns that the header names, from column `i` on.
pub open spec fn header_columns(h: Seq<Seq<char>>, i: int) -> Seq<(int, Seq<char>)>
    decreases h.len() - i,
{
    if i < 0 || i >= h.len() {
        Seq::empty()
    } else {
        match channel_label(h[i]) {
            Some(l) => seq![(i, l)] + header_columns(h, i + 1),
            None => header_columns(h, i + 1),
        }
    }
}

/// The channel columns: those the header names, or, when it names none
/// and has more than one column, every column after the first.
pub open spec fn columns(h: Seq<Seq<char>>) -> Seq<(int, Seq<char>)> {
    let named = header_columns(h, 0);
    if named.len() == 0 && h.len() > 1 {
        Seq::new((h.len() - 1) as nat, |j: int| (j + 1, fallback_label(h[j + 1], j + 1)))
    } else {
        named
    }
}

/// Whether every field of a row is blank.
pub open spec fn blank_row(f: Seq<Seq<char>>) -> bool {
    forall|i: int| 0 <= i < f.len() ==> trim(#[trigger] f[i]).len() == 0
}

/// The fields of the data lines that hold a value.
pub open spec fn data_rows(ls: Seq<Seq<char>>) -> Seq<Seq<Seq<char>>>
    decreases ls.len(),
{
    if ls.len() == 0 {
        Seq::empty()
    } else if !blank_row(csv_fields(ls.last())) {
        data_rows(ls.drop_last()).push(csv_fields(ls.last()))
    } else {
        data_rows(ls.drop_last())
    }
}

/// The level of a row in a column; a missing field is unknown.
pub open spec fn level_at(row: Seq<Seq<char>>, idx: int) -> LevelModel {
    if 0 <= idx < row.len() {
        level_of(row[idx])
    } else {
        LevelModel::Unknown
    }
}

/// The sample count and the labelled samples of each channel that a CSV
/// capture gives; without data rows the channels are empty and the count
/// is the one requested.
pub open spec fn waveform(text: Seq<char>, fallback_count: nat) -> (nat, Seq<(Seq<char>, Seq<LevelModel>)>) {
    let ls = nonblank(lines(text));
    if ls.len() == 0 {
        (0, Seq::empty())
    } else {
        let cols = columns(csv_fields(ls[0]));
        let rows = data_rows(ls.drop_first());
        if rows.len() == 0 {
            (fallback_count, Seq::new(cols.len(), |c: int| (cols[c].1, Seq::<LevelModel>::empty())))
        } else {
            (
                rows.len(),
                Seq::new(
                    cols.len(),
                    |c: int| (cols[c].1, Seq::new(rows.len(), |r: int| level_at(rows[r], cols[c].0))),
                ),
            )
        }
    }
}

/// The samples of one channel of a capture.
#[derive(Clone, Debug)]
pub struct ParsedChannel {
    pub label: String,
    pub samples: Vec<LogicLevel>,
}

/// A capture read from its CSV file.
#[derive(Clone, Debug)]
pub struct ParsedWaveform {
    pub sample_count: usize,
    pub channels: Vec<ParsedChannel>,
}

/// The levels of a list of samples.
pub open spec fn levels(v: Seq<LogicLevel>) -> Seq<LevelModel> {
    v.map_values(|l: LogicLevel| l@)
}

impl View for ParsedWaveform {
    type V = (nat, Seq<(Seq<char>, Seq<LevelModel>)>);

    open spec fn view(&self) -> (nat, Seq<(Seq<char>, Seq<LevelModel>)>) {
        (
            self.sample_count as nat,
            self.channels@.map_values(|c: ParsedChannel| (c.label@, levels(c.samples@))),
        )
    }
}

/// The text of a list of columns.
pub open spec fn columns_text(v: Seq<(usize, String)>) -> Seq<(int, Seq<char>)> {
    v.map_values(|c: (usize, String)| (c.0 as int, c.1@))
}

/// The text of a list of rows.
pub open spec fn rows_text(v: Seq<Vec<String>>) -> Seq<Seq<Seq<char>>> {
    v.map_values(|r: Vec<String>| strings_model(r@))
}

fn header_channel_columns(header: &Vec<String>) -> (cols: Vec<(usize, String)>)
    ensures
        columns_text(cols@) == columns(strings_model(header@)),
        forall|c: int| 0 <= c < cols@.len() ==> (#[trigger] cols@[c]).0 < header@.len(),
{
    let ghost h = strings_model(header@);
    let mut cols: Vec<(usize, String)> = Vec::new();
    let mut i: usize = 0;
    assert(columns_text(cols@) =~= Seq::<(int, Seq<char>)>::empty());
    while i < header.len()
        invariant
            i <= header.len(),
            h == strings_model(header@),
            header_columns(h, 0) == columns_text(cols@) + header_columns(h, i as int),
            forall|c: int| 0 <= c < cols@.len() ==> (#[trigger] cols@[c]).0 < header@.len(),
        decreases header.len() - i,
    {
        let hc = chars_of(header[i].as_str());
        assert(h[i as int] == hc@);
        match normalize_channel_label(hc.as_slice()) {
            Some(label) => {
                let ghost before = cols@;
                let ghost entry = (i as int, label@);
                cols.push((i, label));
                assert(columns_text(cols@) =~= columns_text(before).push(entry));
                assert(columns_text(cols@) + header_columns(h, i + 1) =~= columns_text(before) + (
                seq![entry] + header_columns(h, i + 1)));
            },
            None => {},
        }
        i = i + 1;
    }
    assert(columns_text(cols@) + header_columns(h, header.len() as int) =~= columns_text(cols@));
    if cols.len() == 0 && header.len() > 1 {
        let mut j: usize = 1;
        let ghost target = Seq::new(
            (h.len() - 1) as nat,
            |j: int| (j + 1, fallback_label(h[j + 1], j + 1)),
        );
        while j < header.len()
            invariant
                1 <= j <= header.len(),
                h == strings_model(header@),
                target == Seq::new((h.len() - 1) as nat, |j: int| (j + 1, fallback_label(h[j + 1], j + 1))),
                columns_text(cols@) =~= target.take(j - 1),
                forall|c: int| 0 <= c < cols@.len() ==> (#[trigger] cols@[c]).0 < header@.len(),
            decreases header.len() - j,
        {
            let hc = chars_of(header[j].as_str());
            assert(h[j as int] == hc@);
            let label = normalize_fallback_label(hc.as_slice(), j);
            let ghost before = cols@;
            let ghost entry = (j as int, label@);
            cols.push((j, label));
            assert(columns_text(cols@) =~= columns_text(before).push(entry));
            assert(target.take(j as int) =~= target.take(j - 1).push(entry));
            j = j + 1;
        }
        assert(target.take(header.len() - 1) =~= target);
    }
    cols
}

fn blank_fields(fields: &Vec<String>) -> (r: bool)
    ensures
        r == blank_row(strings_model(fields@)),
{
    let mut i: usize = 0;
    while i < fields.len()
        invariant
            i <= fields.len(),
            forall|j: int| 0 <= j < i ==> trim(#[trigger] strings_model(fields@)[j]).len() == 0,
        decreases fields.len() - i,
    {
        let fc = chars_of(fields[i].as_str());
        let t = trim_chars(fc.as_slice());
        assert(strings_model(fields@)[i as int] == fc@);
        if t.len() > 0 {
            return false;
        }
        i = i + 1;
    }
    true
}

/// Reads the CSV file that `sigrok-cli -O csv` writes: the first non-blank
/// line names the columns, each later line with a value is one sample.
pub fn parse_waveform_csv(text: &str, fallback_sample_count: usize) -> (out: ParsedWaveform)
    ensures
        out@ == waveform(text@, fallback_sample_count as nat),
{
    let chars = chars_of(text);
    let all = split_lines(chars.as_slice());
    let ghost lm = crate::text::char_texts(all@);
    let mut nb: Vec<Vec<char>> = Vec::new();
    let mut i: usize = 0;
    assert(all@.take(0) =~= Seq::<Vec<char>>::empty());
    while i < all.len()
        invariant
            i <= all.len(),
            lm == crate::text::char_texts(all@),
            crate::text::char_texts(nb@) == nonblank(lm.take(i as int)),
        decreases all.len() - i,
    {
        let t = trim_chars(all[i].as_slice());
        assert(lm.take(i + 1).drop_last() =~= lm.take(i as int));
        assert(lm[i as int] == all@[i as int]@);
        if t.len() > 0 {
            let line = all[i].clone();
            let ghost before = nb@;
            nb.push(line);
            assert(crate::text::char_texts(nb@) =~= crate::text::char_texts(before).push(lm[i as int]));
        }
        i = i + 1;
    }
    assert(lm.take(all.len() as int) =~= lm);
    let ghost ls = nonblank(lines(text@));
    assert(crate::text::char_texts(nb@) == ls);
    if nb.len() == 0 {
        let out = ParsedWaveform { sample_count: 0, channels: Vec::new() };
        assert(out@.1 =~= Seq::<(Seq<char>, Seq<LevelModel>)>::empty());
        return out;
    }
    let header = split_csv_line(nb[0].as_slice());
    assert(ls[0] == nb@[0]@);
    let cols = header_channel_columns(&header);
    let ghost cm = columns(csv_fields(ls[0]));
    assert(columns_text(cols@) == cm);
    let mut rows: Vec<Vec<String>> = Vec::new();
    let mut k: usize = 1;
    let ghost rest = ls.drop_first();
    assert(rest.take(0) =~= Seq::<Seq<char>>::empty());
    while k < nb.len()
        invariant
            1 <= k <= nb.len(),
            crate::text::char_texts(nb@) == ls,
            rest == ls.drop_first(),
            rows_text(rows@) == data_rows(rest.take(k - 1)),
        decreases nb.len() - k,
    {
        let fields = split_csv_line(nb[k].as_slice());
        assert(rest[k - 1] == nb@[k as int]@);
        assert(rest.take(k as int).drop_last() =~= rest.take(k - 1));
        if !blank_fields(&fields) {
            let ghost before = rows@;
            let ghost frow = strings_model(fields@);
            rows.push(fields);
            assert(rows_text(rows@) =~= rows_text(before).push(frow));
        }
        k = k + 1;
    }
    assert(rest.take(nb.len() - 1) =~= rest);
    let ghost rm = data_rows(rest);
    assert(rows_text(rows@) == rm);
    let mut channels: Vec<ParsedChannel> = Vec::new();
    let mut c: usize = 0;
    let ghost target = waveform(text@, fallback_sample_count as nat).1;
    while c < cols.len()
        invariant
            c <= cols.len(),
            columns_text(cols@) == cm,
            rows_text(rows@) == rm,
            cm == columns(csv_fields(ls[0])),
            rm == data_rows(ls.drop_first()),
            ls == nonblank(lines(text@)),
            ls.len() > 0,
            target == waveform(text@, fallback_sample_count as nat).1,
            channels@.map_values(|ch: ParsedChannel| (ch.label@, levels(ch.samples@))) =~= target.take(
                c as int,
            ),
            target.len() == cm.len(),
        decreases cols.len() - c,
    {
        let idx = cols[c].0;
        let mut samples: Vec<LogicLevel> = Vec::new();
        if rows.len() > 0 {
            let mut r: usize = 0;
            while r < rows.len()
                invariant
                    r <= rows.len(),
                    rows_text(rows@) == rm,
                    c < cm.len(),
                    idx as int == cm[c as int].0,
                    levels(samples@) =~= Seq::new(rm.len(), |r: int| level_at(rm[r], cm[c as int].0)).take(
                        r as int,
                    ),
                decreases rows.len() - r,
            {
                let level = if idx < rows[r].len() {
                    let fc = chars_of(rows[r][idx].as_str());
                    assert(rm[r as int][idx as int] == fc@);
                    parse_logic_level(fc.as_slice())
                } else {
                    LogicLevel::Unknown
                };
                assert(rm[r as int].len() == rows@[r as int]@.len());
                let ghost before = samples@;
                samples.push(level);
                assert(levels(samples@) =~= levels(before).push(level@));
                r = r + 1;
            }
        }
        let label = cols[c].1.clone();
        assert(label@ == cm[c as int].1);
        let ghost before = channels@;
        let ch = ParsedChannel { label, samples };
        let ghost entry = (ch.label@, levels(ch.samples@));
        proof {
            if rm.len() == 0 {
                assert(levels(ch.samples@) =~= Seq::<LevelModel>::empty());
            } else {
                assert(levels(ch.samples@) =~= Seq::new(rm.len(), |r: int| level_at(rm[r], cm[c as int].0)));
            }
            assert(entry == target[c as int]);
        }
        channels.push(ch);
        assert(channels@.map_values(|ch: ParsedChannel| (ch.label@, levels(ch.samples@))) =~= before.map_values(
            |ch: ParsedChannel| (ch.label@, levels(ch.samples@)),
        ).push(entry));
        c = c + 1;
    }
    let sample_count = if rows.len() == 0 {
        fallback_sample_count
    } else {
        rows.len()
    };
    let out = ParsedWaveform { sample_count, channels };
    assert(out@.1 =~= target);
    out
}

/// The environment variable that names the `sigrok-cli` executable.
pub const SIGROK_ENV: &'static str = "EADAI_SIGROK_CLI";

/// The executable used when the environment names none.
pub const DEFAULT_SIGROK_BIN: &'static str = "sigrok-cli";

/// The executable to run: the one the environment names when it holds
/// more than white space, else `sigrok-cli`.
pub fn resolve_sigrok_cli(env_value: Option<String>) -> (out: Option<String>)
    ensures
        out matches Some(exe) && exe@ == match env_value {
            Some(v) => if trim(v@).len() > 0 {
                v@
            } else {
                DEFAULT_SIGROK_BIN@
            },
            None => DEFAULT_SIGROK_BIN@,
        },
{
    match env_value {
        Some(v) => {
            let vc = chars_of(v.as_str());
            let t = trim_chars(vc.as_slice());
            if t.len() > 0 {
                Some(v)
            } else {
                Some(owned(DEFAULT_SIGROK_BIN))
            }
        },
        None => Some(owned(DEFAULT_SIGROK_BIN)),
    }
}

/// The name of the file a capture writes, from the time it started.
pub fn capture_file_name(now_ms: u64) -> (out: String)
    ensures
        out@ == "eadai-sigrok-"@ + decimal(now_ms as nat) + ".csv"@,
{
    let mut s = owned("eadai-sigrok-");
    s.append(format_u64(now_ms).as_str());
    s.append(".csv");
    s
}

/// Whether an optional string holds the text.
pub open spec fn text_is(o: Option<String>, text: Seq<char>) -> bool {
    o matches Some(x) && x@ == text
}

/// Whether two statuses agree on the scan fields.
pub open spec fn same_devices(a: LogicAnalyzerStatus, b: LogicAnalyzerStatus) -> bool {
    &&& a.devices == b.devices
    &&& a.selected_device_ref == b.selected_device_ref
    &&& a.scan_output == b.scan_output
    &&& a.last_scan_at_ms == b.last_scan_at_ms
}

/// Whether two statuses agree on the capture fields.
pub open spec fn same_capture(a: LogicAnalyzerStatus, b: LogicAnalyzerStatus) -> bool {
    &&& a.active_capture == b.active_capture
    &&& a.last_capture == b.last_capture
    &&& a.capture_plan == b.capture_plan
}

/// A scan starts: the session is scanning and the last error is cleared.
pub fn begin_scan(status: &mut LogicAnalyzerStatus)
    ensures
        final(status).session_state == LogicAnalyzerSessionState::Scanning,
        final(status).last_error is None,
        final(status).available == old(status).available,
        final(status).executable == old(status).executable,
        same_devices(*final(status), *old(status)),
        same_capture(*final(status), *old(status)),
        final(status).linux_first_note == old(status).linux_first_note,
{
    status.session_state = LogicAnalyzerSessionState::Scanning;
    status.last_error = None;
}

/// No `sigrok-cli` could be found: nothing is available and nothing is
/// listed.
pub fn mark_sigrok_missing(status: &mut LogicAnalyzerStatus)
    ensures
        !final(status).available,
        final(status).executable is None,
        final(status).devices@.len() == 0,
        final(status).selected_device_ref is None,
        final(status).scan_output is None,
        final(status).session_state == LogicAnalyzerSessionState::Unavailable,
        final(status).last_error matches Some(e) && e@
            == "sigrok-cli not found on PATH or via EADAI_SIGROK_CLI"@,
        final(status).last_scan_at_ms == old(status).last_scan_at_ms,
        same_capture(*final(status), *old(status)),
        final(status).linux_first_note == old(status).linux_first_note,
{
    status.available = false;
    status.executable = None;
    status.devices = Vec::new();
    status.selected_device_ref = None;
    status.scan_output = None;
    status.session_state = LogicAnalyzerSessionState::Unavailable;
    status.last_error = Some(owned("sigrok-cli not found on PATH or via EADAI_SIGROK_CLI"));
}

/// A scan ran and printed `scan_output`: its devices are listed, the
/// selection is kept when possible, and a failed run keeps its output as
/// the error.
pub fn apply_scan_output(
    status: &mut LogicAnalyzerStatus,
    executable: String,
    scan_output: String,
    success: bool,
    now_ms: u64,
)
    ensures
        final(status).available,
        final(status).executable == Some(executable),
        devices_text(final(status).devices@) == scan_devices(lines(scan_output@), 0),
        match old(status).selected_device_ref {
            Some(c) if has_device(final(status).devices@, c@) => final(status).selected_device_ref
                == Some(c),
            _ => if final(status).devices@.len() > 0 {
                final(status).selected_device_ref matches Some(r) && r@
                    == final(status).devices@[0].reference@
            } else {
                final(status).selected_device_ref is None
            },
        },
        final(status).scan_output == Some(scan_output),
        final(status).last_scan_at_ms == Some(now_ms),
        success ==> final(status).last_error is None,
        !success ==> text_is(final(status).last_error, scan_output@),
        final(status).session_state == LogicAnalyzerSessionState::Ready,
        same_capture(*final(status), *old(status)),
        final(status).linux_first_note == old(status).linux_first_note,
{
    status.executable = Some(executable);
    let devices = parse_scan_output(scan_output.as_str());
    let previous = match &status.selected_device_ref {
        Some(r) => Some(r.clone()),
        None => None,
    };
    let selected = select_device_ref(previous, devices.as_slice());
    status.available = true;
    status.devices = devices;
    status.selected_device_ref = selected;
    status.last_scan_at_ms = Some(now_ms);
    status.last_error = if success {
        None
    } else {
        Some(scan_output.clone())
    };
    status.scan_output = Some(scan_output);
    status.session_state = LogicAnalyzerSessionState::Ready;
}

/// `sigrok-cli` could not be run: nothing is available and the error says
/// why.
pub fn apply_scan_failure(status: &mut LogicAnalyzerStatus, executable: String, error: &str)
    ensures
        !final(status).available,
        final(status).executable == Some(executable),
        final(status).devices@.len() == 0,
        final(status).selected_device_ref is None,
        final(status).scan_output is None,
        final(status).session_state == LogicAnalyzerSessionState::Error,
        final(status).last_error matches Some(e) && e@ == "failed to execute sigrok-cli: "@
            + error@,
        final(status).last_scan_at_ms == old(status).last_scan_at_ms,
        same_capture(*final(status), *old(status)),
        final(status).linux_first_note == old(status).linux_first_note,
{
    status.executable = Some(executable);
    status.available = false;
    status.devices = Vec::new();
    status.selected_device_ref = None;
    status.scan_output = None;
    status.session_state = LogicAnalyzerSessionState::Error;
    let mut message = owned("failed to execute sigrok-cli: ");
    message.append(error);
    status.last_error = Some(message);
}

/// A capture was asked for but no `sigrok-cli` is known.
pub fn mark_capture_unavailable(status: &mut LogicAnalyzerStatus)
    ensures
        !final(status).available,
        final(status).session_state == LogicAnalyzerSessionState::Unavailable,
        final(status).last_error matches Some(e) && e@ == "sigrok-cli not available"@,
        final(status).executable == old(status).executable,
        same_devices(*final(status), *old(status)),
        same_capture(*final(status), *old(status)),
        final(status).linux_first_note == old(status).linux_first_note,
{
    status.available = false;
    status.session_state = LogicAnalyzerSessionState::Unavailable;
    status.last_error = Some(owned("sigrok-cli not available"));
}

/// A capture request was refused with `message`.
pub fn reject_capture(status: &mut LogicAnalyzerStatus, message: String)
    ensures
        final(status).session_state == LogicAnalyzerSessionState::Error,
        final(status).last_error == Some(message),
        final(status).available == old(status).available,
        final(status).executable == old(status).executable,
        same_devices(*final(status), *old(status)),
        same_capture(*final(status), *old(status)),
        final(status).linux_first_note == old(status).linux_first_note,
{
    status.session_state = LogicAnalyzerSessionState::Error;
    status.last_error = Some(message);
}

/// A capture process started: its device is selected and the capture is
/// shown as running.
pub fn apply_capture_started(
    status: &mut LogicAnalyzerStatus,
    device_ref: String,
    pid: u32,
    started_at_ms: u64,
    command: String,
    output_path: String,
)
    ensures
        final(status).available,
        final(status).selected_device_ref == Some(device_ref),
        final(status).active_capture matches Some(c) && c.pid == pid && c.started_at_ms
            == started_at_ms && c.command@ == command@ && c.output_path == output_path,
        final(status).capture_plan == Some(command),
        final(status).session_state == LogicAnalyzerSessionState::Capturing,
        final(status).last_error is None,
        final(status).executable == old(status).executable,
        final(status).devices == old(status).devices,
        final(status).last_capture == old(status).last_capture,
        final(status).scan_output == old(status).scan_output,
        final(status).last_scan_at_ms == old(status).last_scan_at_ms,
        final(status).linux_first_note == old(status).linux_first_note,
{
    status.available = true;
    status.selected_device_ref = Some(device_ref);
    status.active_capture = Some(
        LogicAnalyzerCaptureState { pid, started_at_ms, command: command.clone(), output_path },
    );
    status.capture_plan = Some(command);
    status.session_state = LogicAnalyzerSessionState::Capturing;
    status.last_error = None;
}

/// Stop was asked for while no capture ran.
pub fn stop_without_capture(status: &mut LogicAnalyzerStatus)
    ensures
        final(status).session_state == LogicAnalyzerSessionState::Idle,
        final(status).active_capture is None,
        final(status).available == old(status).available,
        final(status).executable == old(status).executable,
        final(status).last_error == old(status).last_error,
        final(status).last_capture == old(status).last_capture,
        final(status).capture_plan == old(status).capture_plan,
        same_devices(*final(status), *old(status)),
        final(status).linux_first_note == old(status).linux_first_note,
{
    status.session_state = LogicAnalyzerSessionState::Idle;
    status.active_capture = None;
}

/// A capture was stopped: its command stays as the plan, and its result
/// is shown, or the warning for a result that could not be read.
pub fn apply_capture_stopped(
    status: &mut LogicAnalyzerStatus,
    command: String,
    result: Result<LogicAnalyzerCaptureResult, String>,
)
    ensures
        final(status).session_state == LogicAnalyzerSessionState::Idle,
        final(status).active_capture is None,
        final(status).capture_plan == Some(command),
        match result {
            Ok(r) => final(status).last_capture == Some(r) && final(status).last_error is None,
            Err(e) => final(status).last_capture is None && text_is(
                final(status).last_error,
                "capture completed, but waveform parsing failed: "@ + e@,
            ),
        },
        final(status).available == old(status).available,
        final(status).executable == old(status).executable,
        same_devices(*final(status), *old(status)),
        final(status).linux_first_note == old(status).linux_first_note,
{
    status.session_state = LogicAnalyzerSessionState::Stopping;
    status.active_capture = None;
    status.capture_plan = Some(command);
    status.last_error = None;
    match result {
        Ok(r) => {
            status.last_capture = Some(r);
        },
        Err(e) => {
            status.last_error = Some(format_capture_warning(e.as_str()));
            status.last_capture = None;
        },
    }
    status.session_state = LogicAnalyzerSessionState::Idle;
}

/// The capture process ended by itself: on success its result replaces
/// the last one (or the warning for an unreadable result is shown); the
/// session is ready after success and in error after failure.
pub fn apply_capture_finished(
    status: &mut LogicAnalyzerStatus,
    success: bool,
    result: Option<Result<LogicAnalyzerCaptureResult, String>>,
)
    requires
        success == result is Some,
    ensures
        final(status).active_capture is None,
        final(status).session_state == if success {
            LogicAnalyzerSessionState::Ready
        } else {
            LogicAnalyzerSessionState::Error
        },
        match result {
            Some(Ok(r)) => final(status).last_capture == Some(r) && final(status).last_error
                == old(status).last_error,
            Some(Err(e)) => final(status).last_capture is None && text_is(
                final(status).last_error,
                "capture completed, but waveform parsing failed: "@ + e@,
            ),
            None => final(status).last_capture == old(status).last_capture && final(status).last_error
                == old(status).last_error,
        },
        final(status).capture_plan == old(status).capture_plan,
        final(status).available == old(status).available,
        final(status).executable == old(status).executable,
        same_devices(*final(status), *old(status)),
        final(status).linux_first_note == old(status).linux_first_note,
{
    match result {
        Some(Ok(r)) => {
            status.last_capture = Some(r);
        },
        Some(Err(e)) => {
            status.last_error = Some(format_capture_warning(e.as_str()));
            status.last_capture = None;
        },
        None => {},
    }
    status.active_capture = None;
    status.session_state = if success {
        LogicAnalyzerSessionState::Ready
    } else {
        LogicAnalyzerSessionState::Error
    };
}

} // verus!
