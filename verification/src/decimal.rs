//! Decimal text for unsigned integers: parsing with the grammar of
//! `str::parse` and formatting as `Display` writes them.

use vstd::prelude::*;

verus! {

/// Whether a character is an ASCII decimal digit.
pub open spec fn is_digit(c: char) -> bool {
    '0' <= c <= '9'
}

/// The value of an ASCII decimal digit.
pub open spec fn digit_value(c: char) -> int {
    (c as int) - ('0' as int)
}

/// Whether every character of a sequence is an ASCII decimal digit.
pub open spec fn all_digits(s: Seq<char>) -> bool {
    forall|i: int| 0 <= i < s.len() ==> is_digit(#[trigger] s[i])
}

/// The number that a sequence of decimal digits denotes.
pub open spec fn digits_value(s: Seq<char>) -> int
    decreases s.len(),
{
    if s.len() == 0 {
        0
    } else {
        digits_value(s.drop_last()) * 10 + digit_value(s.last())
    }
}

/// The digits after an optional leading `+`.
pub open spec fn unsigned_body(s: Seq<char>) -> Seq<char> {
    if s.len() > 0 && s[0] == '+' {
        s.drop_first()
    } else {
        s
    }
}

/// The number that `str::parse` reads for an unsigned integer type, before
/// the type's range is applied: an optional `+` and then one or more
/// decimal digits.
pub open spec fn parse_unsigned(s: Seq<char>) -> Option<int> {
    let d = unsigned_body(s);
    if d.len() > 0 && all_digits(d) {
        Some(digits_value(d))
    } else {
        None
    }
}

/// The number read from `s` when it lies in `0..=max`.
pub open spec fn parse_bounded(s: Seq<char>, max: int) -> Option<int> {
    match parse_unsigned(s) {
        Some(v) => if v <= max {
            Some(v)
        } else {
            None
        },
        None => None,
    }
}

/// The character of a decimal digit.
pub open spec fn digit_char(d: int) -> char {
    (d + ('0' as int)) as char
}

/// The shortest decimal text of a natural number, as `Display` writes it.
pub open spec fn decimal(n: nat) -> Seq<char>
    decreases n,
{
    if n < 10 {
        seq![digit_char(n as int)]
    } else {
        decimal(n / 10).push(digit_char((n % 10) as int))
    }
}

proof fn lemma_digits_nonneg(s: Seq<char>)
    requires
        all_digits(s),
    ensures
        digits_value(s) >= 0,
    decreases s.len(),
{
    if s.len() > 0 {
        assert(is_digit(s[s.len() - 1]));
        lemma_digits_nonneg(s.drop_last());
    }
}

proof fn lemma_prefix_not_larger(s: Seq<char>, i: int)
    requires
        all_digits(s),
        0 <= i <= s.len(),
    ensures
        digits_value(s.take(i)) <= digits_value(s),
    decreases s.len(),
{
    if i < s.len() {
        assert(is_digit(s[s.len() - 1]));
        assert(s.drop_last().take(i) =~= s.take(i));
        lemma_prefix_not_larger(s.drop_last(), i);
        lemma_digits_nonneg(s.drop_last());
    } else {
        assert(s.take(i) =~= s);
    }
}

/// Reads an unsigned decimal number that must not exceed `max`.
fn parse_with_max(s: &str, max: u64) -> (r: Option<u64>)
    ensures
        match r {
            Some(x) => parse_bounded(s@, max as int) == Some(x as int),
            None => parse_bounded(s@, max as int) is None,
        },
{
    let chars = crate::text::chars_of(s);
    let mut start: usize = 0;
    if chars.len() > 0 && chars[0] == '+' {
        start = 1;
    }
    let ghost body = unsigned_body(s@);
    assert(body =~= chars@.skip(start as int));
    if start >= chars.len() {
        return None;
    }
    let mut acc: u64 = 0;
    let mut i: usize = start;
    assert(body.take(0) =~= Seq::<char>::empty());
    while i < chars.len()
        invariant
            start <= i <= chars.len(),
            body =~= chars@.skip(start as int),
            body == unsigned_body(s@),
            chars@ == s@,
            forall|j: int| 0 <= j < i - start ==> is_digit(#[trigger] body[j]),
            acc as int == digits_value(body.take(i - start)),
            acc <= max,
        decreases chars.len() - i,
    {
        let c = chars[i];
        if !('0' <= c && c <= '9') {
            assert(!is_digit(body[i - start]));
            return None;
        }
        let d: u64 = (c as u64) - ('0' as u64);
        assert(body.take(i - start + 1).drop_last() =~= body.take(i - start));
        if d > max || acc > (max - d) / 10 {
            proof {
                assert(forall|j: int| 0 <= j < i - start + 1 ==> is_digit(#[trigger] body[j]));
                let t = body.take(i - start + 1);
                assert(digits_value(t) == acc * 10 + d);
                if d <= max {
                    assert(acc * 10 + d > max) by (nonlinear_arith)
                        requires
                            acc > (max - d) / 10,
                            d <= max,
                    ;
                }
                if all_digits(body) {
                    lemma_prefix_not_larger(body, i - start + 1);
                }
            }
            return None;
        }
        assert(acc * 10 + d <= max) by (nonlinear_arith)
            requires
                acc <= (max - d) / 10,
                d <= max,
        ;
        acc = acc * 10 + d;
        i = i + 1;
    }
    assert(body.take(i - start) =~= body);
    Some(acc)
}

/// Reads a `u64` as `str::parse::<u64>` does.
pub fn parse_u64(s: &str) -> (r: Option<u64>)
    ensures
        match r {
            Some(x) => parse_bounded(s@, u64::MAX as int) == Some(x as int),
            None => parse_bounded(s@, u64::MAX as int) is None,
        },
{
    parse_with_max(s, u64::MAX)
}

/// Reads a `u32` as `str::parse::<u32>` does.
pub fn parse_u32(s: &str) -> (r: Option<u32>)
    ensures
        match r {
            Some(x) => parse_bounded(s@, u32::MAX as int) == Some(x as int),
            None => parse_bounded(s@, u32::MAX as int) is None,
        },
{
    match parse_with_max(s, 0xffff_ffff) {
        Some(v) => Some(v as u32),
        None => None,
    }
}

/// Reads a `usize` as `str::parse::<usize>` does.
pub fn parse_usize(s: &str) -> (r: Option<usize>)
    ensures
        match r {
            Some(x) => parse_bounded(s@, usize::MAX as int) == Some(x as int),
            None => parse_bounded(s@, usize::MAX as int) is None,
        },
{
    match parse_with_max(s, usize::MAX as u64) {
        Some(v) => Some(v as usize),
        None => None,
    }
}

/// The character of a decimal digit.
pub fn digit_to_char(d: u64) -> (c: char)
    requires
        d < 10,
    ensures
        c == digit_char(d as int),
{
    let b: u8 = (d as u8) + 48;
    b as char
}

/// Appends the decimal text of `n` to `out`.
pub fn push_decimal(out: &mut Vec<char>, n: u64)
    ensures
        final(out)@ == old(out)@ + decimal(n as nat),
    decreases n,
{
    if n >= 10 {
        push_decimal(out, n / 10);
    }
    out.push(digit_to_char(n % 10));
}

/// The decimal text of `n`, as `n.to_string()` writes it.
pub fn format_u64(n: u64) -> (out: String)
    ensures
        out@ == decimal(n as nat),
{
    let mut chars: Vec<char> = Vec::new();
    push_decimal(&mut chars, n);
    assert(chars@ =~= decimal(n as nat));
    crate::text::string_from_chars(chars.as_slice())
}

/// The decimal text of an integer, with a leading `-` when negative.
pub open spec fn signed_decimal(v: int) -> Seq<char> {
    if v < 0 {
        seq!['-'] + decimal((-v) as nat)
    } else {
        decimal(v as nat)
    }
}

/// The decimal text of `v`, as `v.to_string()` writes it.
pub fn format_i64(v: i64) -> (out: String)
    ensures
        out@ == signed_decimal(v as int),
{
    let mut chars: Vec<char> = Vec::new();
    if v < 0 {
        chars.push('-');
        let magnitude: u64 = if v == i64::MIN {
            0x8000_0000_0000_0000
        } else {
            (-v) as u64
        };
        push_decimal(&mut chars, magnitude);
        assert(chars@ =~= seq!['-'] + decimal((-v) as nat));
    } else {
        push_decimal(&mut chars, v as u64);
        assert(chars@ =~= decimal(v as nat));
    }
    crate::text::string_from_chars(chars.as_slice())
}

/// The sequence without one leading `+` or `-`.
pub open spec fn drop_sign(s: Seq<char>) -> Seq<char> {
    if s.len() > 0 && (s[0] == '+' || s[0] == '-') {
        s.drop_first()
    } else {
        s
    }
}

/// The position of the first `e` or `E`, or the length when there is none.
pub open spec fn exponent_mark(s: Seq<char>, i: int) -> int
    decreases s.len() - i,
{
    if i < 0 || i >= s.len() {
        s.len() as int
    } else if s[i] == 'e' || s[i] == 'E' {
        i
    } else {
        exponent_mark(s, i + 1)
    }
}

/// Digits with at most one `.` among them and at least one digit.
pub open spec fn mantissa_text(m: Seq<char>) -> bool {
    let d = crate::text::first_index(m, '.', 0);
    if d < 0 {
        m.len() > 0 && all_digits(m)
    } else {
        all_digits(m.take(d)) && all_digits(m.skip(d + 1)) && (d > 0 || m.len() > d + 1)
    }
}

/// A number in decimal notation with an optional exponent.
pub open spec fn decimal_number_text(b: Seq<char>) -> bool {
    let e = exponent_mark(b, 0);
    mantissa_text(b.take(e)) && (e >= b.len() || (drop_sign(b.skip(e + 1)).len() > 0 && all_digits(
        drop_sign(b.skip(e + 1)),
    )))
}

/// Whether `str::parse::<f64>` accepts a text: an optional sign and then
/// `inf`, `infinity` or `nan` in any case, or a decimal number such as
/// `12`, `1.`, `.5` or `2.5E-3`.
pub open spec fn float_text(s: Seq<char>) -> bool {
    let b = drop_sign(s);
    let l = crate::text::ascii_lower_all(b);
    l == "inf"@ || l == "infinity"@ || l == "nan"@ || decimal_number_text(b)
}

/// Whether every character is a decimal digit.
pub fn digits_only(s: &[char]) -> (r: bool)
    ensures
        r == all_digits(s@),
{
    let mut i: usize = 0;
    while i < s.len()
        invariant
            i <= s.len(),
            forall|j: int| 0 <= j < i ==> is_digit(#[trigger] s@[j]),
        decreases s.len() - i,
    {
        if !('0' <= s[i] && s[i] <= '9') {
            return false;
        }
        i = i + 1;
    }
    true
}

fn sign_len(s: &[char]) -> (n: usize)
    ensures
        s@.skip(n as int) == drop_sign(s@),
        n <= s.len(),
{
    if s.len() > 0 && (s[0] == '+' || s[0] == '-') {
        assert(s@.skip(1) =~= s@.drop_first());
        1
    } else {
        assert(s@.skip(0) =~= s@);
        0
    }
}

fn find_exponent(s: &[char]) -> (e: usize)
    ensures
        e == exponent_mark(s@, 0),
        e <= s.len(),
{
    let mut i: usize = 0;
    while i < s.len()
        invariant
            i <= s.len(),
            exponent_mark(s@, 0) == exponent_mark(s@, i as int),
        decreases s.len() - i,
    {
        if s[i] == 'e' || s[i] == 'E' {
            return i;
        }
        i = i + 1;
    }
    s.len()
}

fn is_mantissa(m: &[char]) -> (r: bool)
    ensures
        r == mantissa_text(m@),
{
    match crate::text::split_once_chars(m, '.') {
        None => m.len() > 0 && digits_only(m),
        Some((a, b)) => {
            assert(crate::text::first_index(m@, '.', 0) == a@.len()) by {
                crate::text::lemma_first_index_range(m@, '.', 0);
            }
            digits_only(a.as_slice()) && digits_only(b.as_slice()) && (a.len() > 0 || b.len() > 0)
        },
    }
}

/// Whether `str::parse::<f64>` accepts the text.
pub fn is_float_text(s: &[char]) -> (r: bool)
    ensures
        r == float_text(s@),
{
    let k = sign_len(s);
    let b = vstd::slice::slice_subrange(s, k, s.len());
    assert(b@ =~= drop_sign(s@));
    let l = crate::text::lower_chars(b);
    if crate::text::chars_eq_str(l.as_slice(), "inf") || crate::text::chars_eq_str(
        l.as_slice(),
        "infinity",
    ) || crate::text::chars_eq_str(l.as_slice(), "nan") {
        return true;
    }
    let e = find_exponent(b);
    let m = vstd::slice::slice_subrange(b, 0, e);
    assert(m@ =~= b@.take(e as int));
    if !is_mantissa(m) {
        return false;
    }
    if e >= b.len() {
        return true;
    }
    let x = vstd::slice::slice_subrange(b, e + 1, b.len());
    assert(x@ =~= b@.skip(e + 1));
    let j = sign_len(x);
    let y = vstd::slice::slice_subrange(x, j, x.len());
    assert(y@ =~= drop_sign(x@));
    y.len() > 0 && digits_only(y)
}

pub proof fn lemma_decimal_digits(n: nat)
    ensures
        decimal(n).len() > 0,
        all_digits(decimal(n)),
        digits_value(decimal(n)) == n,
    decreases n,
{
    if n < 10 {
        let d = decimal(n);
        assert(d.drop_last() =~= Seq::<char>::empty());
        assert(digit_char(n as int) as int == n + 48);
        assert(('0' as int) == 48);
        assert(digit_value(d.last()) == n);
        assert(digits_value(d) == digits_value(d.drop_last()) * 10 + digit_value(d.last()));
    } else {
        lemma_decimal_digits(n / 10);
        let d = decimal(n);
        assert(d.drop_last() =~= decimal(n / 10));
        assert(digit_char((n % 10) as int) as int == n % 10 + 48);
        assert(('0' as int) == 48);
        assert(digit_value(d.last()) == n % 10);
        assert(digits_value(d) == digits_value(d.drop_last()) * 10 + digit_value(d.last()));
        assert((n / 10) * 10 + n % 10 == n);
        assert(forall|i: int| 0 <= i < d.len() ==> is_digit(#[trigger] d[i])) by {
            assert forall|i: int| 0 <= i < d.len() implies is_digit(#[trigger] d[i]) by {
                if i < d.len() - 1 {
                    assert(d[i] == decimal(n / 10)[i]);
                }
            }
        }
    }
}

/// Reading back what `format_u64` writes gives the number again.
pub proof fn lemma_decimal_parses_back(n: nat)
    ensures
        parse_unsigned(decimal(n)) == Some(n as int),
{
    lemma_decimal_digits(n);
    let d = decimal(n);
    assert(is_digit(d[0]));
    assert(unsigned_body(d) == d);
}

} // verus!
