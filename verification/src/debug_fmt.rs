//! std's `Debug` rendering of the values that logs and reports print with
//! `{:?}`.
use vstd::prelude::*;

use crate::harness::power::event::opt_view;
use crate::text::{int_text, push_str, string_of, strs_view, u64_text, i64_text, chars_of};

verus! {

/// `format!("{:?}", o)` of an optional text.
pub uninterp spec fn debug_text(o: Option<Seq<char>>) -> Seq<char>;

/// `format!("{:?}", o)` of an `Option<String>`: std's Debug rendering,
/// quotes and escapes included. The contract names the result as a function
/// of the value alone; it does not spell the escaping out.
#[verifier::external_body]
pub(crate) fn debug_opt_string(o: &Option<String>) -> (r: String)
    ensures
        r@ == debug_text(opt_view(*o)),
{
    format!("{:?}", o)
}

/// `format!("{:?}", v)` of a list of texts.
pub uninterp spec fn debug_strs(items: Seq<Seq<char>>) -> Seq<char>;

/// `format!("{:?}", ..)` of a `Vec<String>`: std's Debug rendering of the
/// list, each text quoted and escaped. The contract names the result as a
/// function of the texts alone; it does not spell the escaping out.
#[verifier::external_body]
pub(crate) fn debug_string_list(v: &Vec<String>) -> (r: String)
    ensures
        r@ == debug_strs(strs_view(v@)),
{
    format!("{:?}", v)
}

/// `{:?}` of an optional integer: `Some(n)` or `None`.
pub open spec fn debug_int(o: Option<int>) -> Seq<char> {
    match o {
        Some(v) => "Some("@ + int_text(v) + ")"@,
        None => "None"@,
    }
}

pub open spec fn wide_i32(o: Option<i32>) -> Option<int> {
    match o {
        Some(v) => Some(v as int),
        None => None,
    }
}

pub open spec fn wide_u8(o: Option<u8>) -> Option<int> {
    match o {
        Some(v) => Some(v as int),
        None => None,
    }
}

/// `{}` of a `bool`.
pub open spec fn bool_text(b: bool) -> Seq<char> {
    if b {
        "true"@
    } else {
        "false"@
    }
}

/// `{:?}` of an optional flag.
pub open spec fn debug_bool(o: Option<bool>) -> Seq<char> {
    match o {
        Some(b) => "Some("@ + bool_text(b) + ")"@,
        None => "None"@,
    }
}

pub fn push_i64(out: &mut Vec<char>, v: i64)
    ensures
        final(out)@ == old(out)@ + int_text(v as int),
{
    let t = i64_text(v);
    push_str(out, t.as_str());
}

pub fn push_debug_int(out: &mut Vec<char>, o: Option<i64>)
    ensures
        final(out)@ == old(out)@ + debug_int(
            match o {
                Some(v) => Some(v as int),
                None => None,
            },
        ),
{
    match o {
        Some(v) => {
            push_str(out, "Some(");
            push_i64(out, v);
            push_str(out, ")");
        },
        None => push_str(out, "None"),
    }
}

pub fn push_debug_i32(out: &mut Vec<char>, o: Option<i32>)
    ensures
        final(out)@ == old(out)@ + debug_int(wide_i32(o)),
{
    push_debug_int(
        out,
        match o {
            Some(v) => Some(v as i64),
            None => None,
        },
    );
}

pub fn push_debug_u8(out: &mut Vec<char>, o: Option<u8>)
    ensures
        final(out)@ == old(out)@ + debug_int(wide_u8(o)),
{
    push_debug_int(
        out,
        match o {
            Some(v) => Some(v as i64),
            None => None,
        },
    );
}

pub fn push_bool(out: &mut Vec<char>, b: bool)
    ensures
        final(out)@ == old(out)@ + bool_text(b),
{
    if b {
        push_str(out, "true");
    } else {
        push_str(out, "false");
    }
}

pub fn push_debug_bool(out: &mut Vec<char>, o: Option<bool>)
    ensures
        final(out)@ == old(out)@ + debug_bool(o),
{
    match o {
        Some(b) => {
            push_str(out, "Some(");
            push_bool(out, b);
            push_str(out, ")");
        },
        None => push_str(out, "None"),
    }
}

} // verus!
