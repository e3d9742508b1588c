//! The lobby's tribes as HDT's HearthMirror reports them. The Power log stays
//! the record of the match; this only adds the client-visible tribe pool. The
//! query itself runs outside; here is the provider's DLL and the reading of
//! what the query printed.

use vstd::prelude::*;

use crate::harness::card_catalog::normalize_tribe;
use crate::harness::monitor::named_tribes;
use crate::text::{chars_eq, chars_of, set_insert, strictly_sorted, string_of, strs_view, subrange, trim, trim_chars};

verus! {

#[verifier::external_type_specification]
#[verifier::external_body]
pub struct ExJsonError(serde_json::Error);

/// Why the lobby's tribes could not be read.
#[derive(Debug)]
pub enum AvailableTribesError {
    Io(String),
    HearthMirrorNotFound,
    PowerShellFailed(String),
    Json(serde_json::Error),
    UnsupportedPlatform,
}

/// The strings of `raw` read as a JSON array of strings, as
/// `serde_json::from_str::<Vec<String>>` gives them; `None` where it fails.
pub uninterp spec fn json_string_array(raw: Seq<char>) -> Option<Seq<Seq<char>>>;

/// The string of `raw` read as one JSON string, as
/// `serde_json::from_str::<String>` gives it; `None` where it fails.
pub uninterp spec fn json_string(raw: Seq<char>) -> Option<Seq<char>>;

/// Calls `serde_json::from_str::<Vec<String>>`. Claimed: the result depends on
/// `raw` alone, and is `Ok` with the array's strings exactly where
/// `json_string_array` is `Some` of them.
#[verifier::external_body]
fn parse_json_strings(raw: &str) -> (r: Result<Vec<String>, serde_json::Error>)
    ensures
        match r {
            Ok(v) => json_string_array(raw@) == Some(strs_view(v@)),
            Err(_) => json_string_array(raw@) is None,
        },
{
    serde_json::from_str::<Vec<String>>(raw)
}

/// Calls `serde_json::from_str::<String>`. Claimed: the result depends on
/// `raw` alone, and is `Ok` with the string exactly where `json_string` is
/// `Some` of it.
#[verifier::external_body]
fn parse_json_string(raw: &str) -> (r: Result<String, serde_json::Error>)
    ensures
        match r {
            Ok(s) => json_string(raw@) == Some(s@),
            Err(_) => json_string(raw@) is None,
        },
{
    serde_json::from_str::<String>(raw)
}

/// The tribes that the reported values name, normalized, sorted and without
/// repeats; `None` when they name none.
pub fn tribes_from_values(values: &Vec<String>) -> (r: Option<Vec<String>>)
    ensures
        match r {
            Some(v) => strictly_sorted(strs_view(v@)) && strs_view(v@).to_set() == named_tribes(strs_view(values@))
                && v@.len() > 0,
            None => named_tribes(strs_view(values@)) == Set::<Seq<char>>::empty(),
        },
{
    let ghost vals = strs_view(values@);
    let mut out: Vec<String> = Vec::new();
    let mut i: usize = 0;
    assert(strs_view(out@).to_set() =~= Set::<Seq<char>>::empty());
    assert(named_tribes(vals.take(0)) =~= Set::<Seq<char>>::empty());
    while i < values.len()
        invariant
            i <= values@.len(),
            vals == strs_view(values@),
            strictly_sorted(strs_view(out@)),
            strs_view(out@).to_set() == named_tribes(vals.take(i as int)),
        decreases values@.len() - i,
    {
        let ghost pre = vals.take(i as int);
        let ghost next = vals.take(i + 1);
        match normalize_tribe(values[i].as_str()) {
            Some(t) => set_insert(&mut out, t),
            None => {},
        }
        proof {
            assert(next =~= pre.push(vals[i as int]));
            assert(named_tribes(next) =~= named_tribes(pre).union(
                match crate::harness::card_catalog::spec_normalize_tribe(vals[i as int]) {
                    Some(t) => set![t],
                    None => Set::empty(),
                },
            )) by {
                assert forall|t: Seq<char>| named_tribes(next).contains(t) implies named_tribes(pre).contains(t)
                    || crate::harness::card_catalog::spec_normalize_tribe(vals[i as int]) == Some(t) by {
                    let k = choose|k: int|
                        0 <= k < next.len() && crate::harness::card_catalog::spec_normalize_tribe(#[trigger] next[k])
                            == Some(t);
                    if k < pre.len() {
                        assert(pre[k] == next[k]);
                    }
                }
                assert forall|t: Seq<char>| named_tribes(pre).contains(t) implies named_tribes(next).contains(t) by {
                    let k = choose|k: int|
                        0 <= k < pre.len() && crate::harness::card_catalog::spec_normalize_tribe(#[trigger] pre[k])
                            == Some(t);
                    assert(next[k] == pre[k]);
                }
                if let Some(t) = crate::harness::card_catalog::spec_normalize_tribe(vals[i as int]) {
                    assert(named_tribes(next).contains(t)) by {
                        assert(crate::harness::card_catalog::spec_normalize_tribe(next[i as int]) == Some(t));
                    }
                }
            }
        }
        i += 1;
    }
    assert(vals.take(i as int) =~= vals);
    if out.len() == 0 {
        assert(strs_view(out@).to_set() =~= Set::<Seq<char>>::empty());
        None
    } else {
        Some(out)
    }
}

/// `s` without its leading byte order marks.
pub open spec fn strip_boms(s: Seq<char>) -> Seq<char>
    decreases s.len(),
{
    if s.len() > 0 && s[0] == '\u{feff}' {
        strip_boms(s.skip(1))
    } else {
        s
    }
}

fn strip_boms_exec(s: &Vec<char>) -> (r: Vec<char>)
    ensures
        r@ == strip_boms(s@),
{
    let mut i: usize = 0;
    assert(s@.skip(0) =~= s@);
    while i < s.len() && s[i] == '\u{feff}'
        invariant
            i <= s@.len(),
            strip_boms(s@.skip(i as int)) == strip_boms(s@),
        decreases s@.len() - i,
    {
        assert(s@.skip(i as int).skip(1) =~= s@.skip(i + 1));
        i += 1;
    }
    let n = s.len();
    let r = subrange(s, i, n);
    assert(r@ =~= s@.skip(i as int));
    r
}

/// The text the query printed, trimmed and without leading byte order marks.
pub open spec fn query_payload(stdout: Seq<char>) -> Seq<char> {
    strip_boms(trim(stdout))
}

/// The values the query reported: the strings of a JSON array, else the one
/// JSON string; `None` when the payload is neither.
pub open spec fn reported_values(raw: Seq<char>) -> Option<Seq<Seq<char>>> {
    match json_string_array(raw) {
        Some(v) => Some(v),
        None => match json_string(raw) {
            Some(s) => Some(seq![s]),
            None => None,
        },
    }
}

/// Reads what the HearthMirror query printed. A failed query gives its
/// trimmed error output (or, when that is empty, its trimmed output); an
/// empty or `null` payload gives no tribes; otherwise the payload is read as
/// JSON (an array of strings, or one string) and the tribes it names are
/// returned sorted, `None` when it names none.
pub fn tribes_from_query_output(success: bool, stdout: &str, stderr: &str) -> (r: Result<
    Option<Vec<String>>,
    AvailableTribesError,
>)
    ensures
        !success ==> (r matches Err(AvailableTribesError::PowerShellFailed(m)) && m@ == (if trim(stderr@).len()
            == 0 {
            trim(stdout@)
        } else {
            trim(stderr@)
        })),
        success && (query_payload(stdout@).len() == 0 || query_payload(stdout@) == "null"@) ==> r matches Ok(None),
        success && query_payload(stdout@).len() > 0 && query_payload(stdout@) != "null"@ ==> match reported_values(
            query_payload(stdout@),
        ) {
            None => r matches Err(AvailableTribesError::Json(_)),
            Some(vals) => match r {
                Ok(Some(v)) => strictly_sorted(strs_view(v@)) && strs_view(v@).to_set() == named_tribes(vals)
                    && v@.len() > 0,
                Ok(None) => named_tribes(vals) == Set::<Seq<char>>::empty(),
                Err(_) => false,
            },
        },
{
    if !success {
        let err = trim_chars(&chars_of(stderr));
        let out = trim_chars(&chars_of(stdout));
        let message = if err.len() == 0 {
            string_of(&out)
        } else {
            string_of(&err)
        };
        return Err(AvailableTribesError::PowerShellFailed(message));
    }
    let raw_chars = strip_boms_exec(&trim_chars(&chars_of(stdout)));
    if raw_chars.len() == 0 || chars_eq(&raw_chars, &chars_of("null")) {
        return Ok(None);
    }
    let raw = string_of(&raw_chars);
    let values = match parse_json_strings(raw.as_str()) {
        Ok(values) => values,
        Err(_) => match parse_json_string(raw.as_str()) {
            Ok(value) => {
                let mut v: Vec<String> = Vec::new();
                v.push(value);
                assert(strs_view(v@) =~= seq![value@]);
                v
            },
            Err(error) => {
                return Err(AvailableTribesError::Json(error));
            },
        },
    };
    Ok(tribes_from_values(&values))
}

/// The HearthMirror DLL that the tribe query loads.
#[derive(Debug, Clone)]
pub struct HearthMirrorAvailableTribesProvider {
    dll: String,
}

impl HearthMirrorAvailableTribesProvider {
    pub closed spec fn dll_v(&self) -> Seq<char> {
        self.dll@
    }

    /// A provider for the DLL that was located, or `HearthMirrorNotFound`.
    pub fn auto(located_dll: Option<String>) -> (r: Result<Self, AvailableTribesError>)
        ensures
            match located_dll {
                Some(d) => r matches Ok(p) && p.dll_v() == d@,
                None => r matches Err(AvailableTribesError::HearthMirrorNotFound),
            },
    {
        match located_dll {
            Some(dll) => Ok(HearthMirrorAvailableTribesProvider { dll }),
            None => Err(AvailableTribesError::HearthMirrorNotFound),
        }
    }

    pub fn dll_path(&self) -> (r: &str)
        ensures
            r@ == self.dll_v(),
    {
        self.dll.as_str()
    }
}

} // verus!
