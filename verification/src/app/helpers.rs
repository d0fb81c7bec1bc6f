//! Small helpers of the runtime: the payload of a written line, byte
//! previews for logs, and the pacing of the reconnect wait.

use vstd::prelude::*;
use crate::bmi088_diag::hex_join;
use crate::message::LinePayload;
use crate::text::{lossy_text, owned, string_from_chars, utf8_lossy};
use super::RETRY_SLEEP_SLICE_MS;

verus! {

/// The bytes without their trailing line-end bytes (`\n` and `\r`).
pub open spec fn strip_line_end(s: Seq<u8>) -> Seq<u8>
    decreases s.len(),
{
    if s.len() > 0 && (s.last() == 10 || s.last() == 13) {
        strip_line_end(s.drop_last())
    } else {
        s
    }
}

/// The line that a write of `payload` shows: the bytes without trailing
/// line ends, and their lossy UTF-8 text.
pub fn outbound_payload(payload: &[u8]) -> (out: LinePayload)
    ensures
        out.raw@ == strip_line_end(payload@),
        out.text@ == utf8_lossy(strip_line_end(payload@)),
{
    let mut end = payload.len();
    assert(payload@.take(end as int) =~= payload@);
    while end > 0 && (payload[end - 1] == 10 || payload[end - 1] == 13)
        invariant
            end <= payload.len(),
            strip_line_end(payload@) == strip_line_end(payload@.take(end as int)),
        decreases end,
    {
        assert(payload@.take(end as int).drop_last() =~= payload@.take(end - 1));
        end = end - 1;
    }
    assert(payload@.take(end as int) =~= payload@.subrange(0, end as int));
    let raw = vstd::slice::slice_to_vec(vstd::slice::slice_subrange(payload, 0, end));
    let text = lossy_text(raw.as_slice());
    LinePayload { text, raw }
}

/// The preview of at most `max_len` bytes, followed by ` ...` when bytes
/// were left out.
pub open spec fn hex_preview_text(bytes: Seq<u8>, max_len: int) -> Seq<char> {
    if bytes.len() > max_len {
        hex_join(bytes.take(max_len)) + " ..."@
    } else {
        hex_join(bytes)
    }
}

/// Upper-case hexadecimal pairs of the first `max_len` bytes.
pub fn hex_preview(bytes: &[u8], max_len: usize) -> (out: String)
    ensures
        out@ == hex_preview_text(bytes@, max_len as int),
{
    let n = if bytes.len() > max_len {
        max_len
    } else {
        bytes.len()
    };
    let mut chars: Vec<char> = Vec::new();
    let mut i: usize = 0;
    while i < n
        invariant
            i <= n <= bytes.len(),
            chars@ == hex_join(bytes@.take(i as int)),
        decreases n - i,
    {
        if i > 0 {
            chars.push(' ');
        }
        chars.push(crate::bmi088_diag::hex_char(bytes[i] / 16));
        chars.push(crate::bmi088_diag::hex_char(bytes[i] % 16));
        assert(bytes@.take(i + 1).drop_last() =~= bytes@.take(i as int));
        proof {
            if i == 0 {
                assert(chars@ =~= crate::bmi088_diag::hex_byte(bytes@[0]));
            } else {
                assert(chars@ =~= hex_join(bytes@.take(i as int)) + seq![' ']
                    + crate::bmi088_diag::hex_byte(bytes@[i as int]));
            }
        }
        i = i + 1;
    }
    let mut out = string_from_chars(chars.as_slice());
    if bytes.len() > max_len {
        out.append(" ...");
    } else {
        assert(bytes@.take(n as int) =~= bytes@);
    }
    out
}

/// How long to sleep next while `remaining_ms` of a wait are left: at most
/// one slice, so that a stop request is seen soon.
pub fn next_sleep_slice(remaining_ms: u64) -> (ms: u64)
    ensures
        ms == if remaining_ms < RETRY_SLEEP_SLICE_MS {
            remaining_ms
        } else {
            RETRY_SLEEP_SLICE_MS
        },
{
    if remaining_ms < RETRY_SLEEP_SLICE_MS {
        remaining_ms
    } else {
        RETRY_SLEEP_SLICE_MS
    }
}

} // verus!
