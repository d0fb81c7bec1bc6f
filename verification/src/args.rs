//! Pieces shared by the command-line parsers: reading the value after a
//! flag, reading numbers, and the texts of usage errors.

use vstd::prelude::*;
use crate::decimal::{parse_bounded, parse_u32, parse_u64, parse_usize};
use crate::error::AppError;
use crate::text::owned;

verus! {

/// The text of the arguments.
pub open spec fn args_model(args: Seq<String>) -> Seq<Seq<char>> {
    args.map_values(|s: String| s@)
}

/// Error text for a flag whose value is missing.
pub open spec fn missing_value_text(flag: Seq<char>, usage: Seq<char>) -> Seq<char> {
    "Missing value for "@ + flag + "\n\n"@ + usage
}

/// Error text for a flag whose value is not a number of the flag's type.
pub open spec fn invalid_number_text(flag: Seq<char>, value: Seq<char>, usage: Seq<char>) -> Seq<
    char,
> {
    "Invalid numeric value for "@ + flag + ": "@ + value + "\n\n"@ + usage
}

/// Reads a number flag's value, or gives the error text under `usage`.
pub open spec fn number_or_error_with(flag: Seq<char>, value: Seq<char>, max: int, usage: Seq<char>) -> Result<
    int,
    Seq<char>,
> {
    match parse_bounded(value, max) {
        Some(n) => Ok(n),
        None => Err(invalid_number_text(flag, value, usage)),
    }
}

/// Error text for an argument that is no known flag.
pub open spec fn unknown_flag_text(arg: Seq<char>, usage: Seq<char>) -> Seq<char> {
    "Unknown flag: "@ + arg + "\n\n"@ + usage
}

/// Error text for a required flag that was not given.
pub open spec fn missing_flag_text(flag: Seq<char>, usage: Seq<char>) -> Seq<char> {
    "Missing required flag: "@ + flag + "\n\n"@ + usage
}

/// Joins `a`, a blank line and `b` into a usage error.
pub fn usage_error(a: String, b: &str) -> (e: AppError)
    ensures
        e matches AppError::Usage(m) && m@ == a@ + "\n\n"@ + b@,
{
    let mut s = a;
    s.append("\n\n");
    s.append(b);
    AppError::Usage(s)
}

/// Moves past a flag and returns the argument after it.
pub fn next_value(values: &[String], index: &mut usize, flag: &str, usage: &str) -> (r: Result<
    String,
    AppError,
>)
    requires
        *old(index) < values.len(),
    ensures
        *final(index) == *old(index) + 1,
        *final(index) < values.len() ==> (r matches Ok(v) && v@ == values@[*final(index) as int]@),
        *final(index) >= values.len() ==> (r matches Err(AppError::Usage(m)) && m@
            == missing_value_text(flag@, usage@)),
{
    *index = *index + 1;
    if *index < values.len() {
        Ok(values[*index].clone())
    } else {
        let mut s = owned("Missing value for ");
        s.append(flag);
        Err(usage_error(s, usage))
    }
}

/// The error for a value that is not a number.
fn invalid_number(value: &str, flag: &str, usage: &str) -> (e: AppError)
    ensures
        e matches AppError::Usage(m) && m@ == invalid_number_text(flag@, value@, usage@),
{
    let mut s = owned("Invalid numeric value for ");
    s.append(flag);
    s.append(": ");
    s.append(value);
    usage_error(s, usage)
}

/// Reads the `u32` value of a flag.
pub fn parse_u32_value(value: &str, flag: &str, usage: &str) -> (r: Result<u32, AppError>)
    ensures
        match parse_bounded(value@, u32::MAX as int) {
            Some(v) => r matches Ok(x) && x as int == v,
            None => r matches Err(AppError::Usage(m)) && m@ == invalid_number_text(
                flag@,
                value@,
                usage@,
            ),
        },
{
    match parse_u32(value) {
        Some(v) => Ok(v),
        None => Err(invalid_number(value, flag, usage)),
    }
}

/// Reads the `u64` value of a flag.
pub fn parse_u64_value(value: &str, flag: &str, usage: &str) -> (r: Result<u64, AppError>)
    ensures
        match parse_bounded(value@, u64::MAX as int) {
            Some(v) => r matches Ok(x) && x as int == v,
            None => r matches Err(AppError::Usage(m)) && m@ == invalid_number_text(
                flag@,
                value@,
                usage@,
            ),
        },
{
    match parse_u64(value) {
        Some(v) => Ok(v),
        None => Err(invalid_number(value, flag, usage)),
    }
}

/// Reads the `usize` value of a flag.
pub fn parse_usize_value(value: &str, flag: &str, usage: &str) -> (r: Result<usize, AppError>)
    ensures
        match parse_bounded(value@, usize::MAX as int) {
            Some(v) => r matches Ok(x) && x as int == v,
            None => r matches Err(AppError::Usage(m)) && m@ == invalid_number_text(
                flag@,
                value@,
                usage@,
            ),
        },
{
    match parse_usize(value) {
        Some(v) => Ok(v),
        None => Err(invalid_number(value, flag, usage)),
    }
}

/// The error for an unknown argument.
pub fn unknown_flag(arg: &str, usage: &str) -> (e: AppError)
    ensures
        e matches AppError::Usage(m) && m@ == unknown_flag_text(arg@, usage@),
{
    let mut s = owned("Unknown flag: ");
    s.append(arg);
    usage_error(s, usage)
}

/// The error for a required flag that is missing.
pub fn missing_flag(flag: &str, usage: &str) -> (e: AppError)
    ensures
        e matches AppError::Usage(m) && m@ == missing_flag_text(flag@, usage@),
{
    let mut s = owned("Missing required flag: ");
    s.append(flag);
    usage_error(s, usage)
}

} // verus!
