//! Input handling of the desktop control center: previews of long texts and
//! the numeric settings typed by the user.
use vstd::prelude::*;

use crate::demo::hdt_knowledge::{sanitize, sanitize_v};
use crate::demo::overlay::{truncate_chars, truncated_v};
use crate::text::{chars_of, parse_u32, parse_u32_chars, parse_u64, parse_u64_chars, push_str, string_of, trim, trim_chars};

verus! {

/// A one-line preview: whitespace runs collapsed to single spaces, then cut
/// to `max_chars` characters with an ellipsis.
pub fn compact_preview(text: &str, max_chars: usize) -> (r: String)
    ensures
        r@ == truncated_v(sanitize_v(text@), max_chars as nat),
{
    let normalized = sanitize(text);
    truncate_chars(normalized.as_str(), max_chars)
}

/// The message shown when the setting `name` is not a valid integer.
pub open spec fn not_integer_message(name: Seq<char>) -> Seq<char> {
    name + " 不是有效整数"@
}

fn not_integer(name: &str) -> (r: String)
    ensures
        r@ == not_integer_message(name@),
{
    let mut m = chars_of(name);
    push_str(&mut m, " 不是有效整数");
    string_of(&m)
}

/// The setting `name` read as a `u32`, surrounding whitespace ignored.
pub fn parse_u32_setting(value: &str, name: &str) -> (r: Result<u32, String>)
    ensures
        match r {
            Ok(v) => parse_u32(trim(value@)) == Some(v as int),
            Err(m) => parse_u32(trim(value@)) is None && m@ == not_integer_message(name@),
        },
{
    match parse_u32_chars(&trim_chars(&chars_of(value))) {
        Some(v) => Ok(v),
        None => Err(not_integer(name)),
    }
}

/// The setting `name` read as a `u64`, surrounding whitespace ignored.
pub fn parse_u64_setting(value: &str, name: &str) -> (r: Result<u64, String>)
    ensures
        match r {
            Ok(v) => parse_u64(trim(value@)) == Some(v as int),
            Err(m) => parse_u64(trim(value@)) is None && m@ == not_integer_message(name@),
        },
{
    match parse_u64_chars(&trim_chars(&chars_of(value))) {
        Some(v) => Ok(v),
        None => Err(not_integer(name)),
    }
}

} // verus!
