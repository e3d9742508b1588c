//! Line parser for `GameState.DebugPrintPower()`, `DebugPrintGame()` and
//! `SendOption()` lines.

use vstd::prelude::*;

use super::event::{
    clone_opt_string, opt_view, spec_tag_value, DescriptorV, EntityDescriptor, EntityIdentity,
    IdentityV, PowerEvent, PowerEventV, TagTarget, TagTargetV, TagValue,
};
use crate::text::{
    chars_eq, chars_of, eq_ignore_ascii_case, eq_ignore_case, find, find_exec, first_token,
    first_token_chars, is_digit, parse_i32, parse_i32_chars, parse_u32, parse_u32_chars, rfind,
    rfind_exec, starts_with, starts_with_exec, string_of, strip_prefix_chars,
    strip_suffix_chars, subrange, trim, trim_chars, trim_start, skip_ws_from, ends_with,
};

verus! {

// ---------------------------------------------------------------------------
// Small lexical pieces
// ---------------------------------------------------------------------------

/// `line[find(key) + key.len()..].split_whitespace().next().unwrap_or("")`.
pub open spec fn spec_value_until_ws(line: Seq<char>, key: Seq<char>) -> Option<Seq<char>> {
    match find(line, key) {
        None => None,
        Some(p) => Some(first_token(line.skip(p + key.len()))),
    }
}

pub fn value_until_ws(line: &[char], key: &[char]) -> (r: Option<Vec<char>>)
    ensures
        opt_chars(r) == spec_value_until_ws(line@, key@),
{
    match find_exec(line, key) {
        None => None,
        Some(p) => {
            proof { lemma_find_bounds(line@, key@, 0); }
            assert(p + key@.len() <= line@.len());
            assert(key.len() == key@.len());
            assert(line.len() == line@.len());
            let rest = subrange(line, p + key.len(), line.len());
            Some(first_token_chars(&rest))
        },
    }
}

pub open spec fn opt_chars(o: Option<Vec<char>>) -> Option<Seq<char>> {
    match o {
        Some(v) => Some(v@),
        None => None,
    }
}

pub proof fn lemma_find_bounds(s: Seq<char>, pat: Seq<char>, i: int)
    requires
        0 <= i,
    ensures
        match crate::text::find_from(s, pat, i) {
            Some(p) => i <= p && p + pat.len() <= s.len() && crate::text::matches_at(s, pat, p),
            None => true,
        },
    decreases s.len() - i,
{
    if i + pat.len() <= s.len() && !crate::text::matches_at(s, pat, i) && i < s.len() {
        lemma_find_bounds(s, pat, i + 1);
    }
}

pub proof fn lemma_rfind_bounds(s: Seq<char>, pat: Seq<char>, i: int)
    ensures
        match crate::text::rfind_upto(s, pat, i) {
            Some(p) => 0 <= p <= i && p + pat.len() <= s.len(),
            None => true,
        },
    decreases i + 1,
{
    if i >= 0 && !crate::text::matches_at(s, pat, i) {
        lemma_rfind_bounds(s, pat, i - 1);
    }
}

/// End of the run of ASCII digits starting at `i`.
pub open spec fn digit_run(s: Seq<char>, i: int) -> int
    decreases s.len() - i,
{
    if 0 <= i < s.len() && is_digit(s[i]) {
        digit_run(s, i + 1)
    } else {
        i
    }
}

/// The `u32` spelled by the leading ASCII digits of `s`.
pub open spec fn spec_leading_u32(s: Seq<char>) -> Option<int> {
    parse_u32(s.take(digit_run(s, 0)))
}

pub fn leading_u32(s: &[char]) -> (r: Option<u32>)
    ensures
        match r {
            Some(v) => spec_leading_u32(s@) == Some(v as int),
            None => spec_leading_u32(s@) is None,
        },
{
    let mut i: usize = 0;
    while i < s.len() && '0' <= s[i] && s[i] <= '9'
        invariant
            i <= s.len(),
            digit_run(s@, i as int) == digit_run(s@, 0),
        decreases s.len() - i,
    {
        i += 1;
    }
    let d = subrange(s, 0, i);
    assert(d@ == s@.take(i as int));
    parse_u32_chars(&d)
}

/// First position at or after `i` holding an ASCII digit.
pub open spec fn nondigit_skip(s: Seq<char>, i: int) -> int
    decreases s.len() - i,
{
    if 0 <= i < s.len() && !is_digit(s[i]) {
        nondigit_skip(s, i + 1)
    } else {
        i
    }
}

/// Backwards counterpart of `nondigit_skip`.
pub open spec fn nondigit_back(s: Seq<char>, j: int) -> int
    decreases j,
{
    if 0 < j <= s.len() && !is_digit(s[j - 1]) {
        nondigit_back(s, j - 1)
    } else {
        j
    }
}

/// `s.trim_matches(|c| !c.is_ascii_digit())`.
pub open spec fn trim_non_digits(s: Seq<char>) -> Seq<char> {
    let t = s.skip(nondigit_skip(s, 0));
    t.take(nondigit_back(t, t.len() as int))
}

pub fn trim_non_digit_chars(s: &[char]) -> (r: Vec<char>)
    ensures
        r@ == trim_non_digits(s@),
{
    let mut i: usize = 0;
    while i < s.len() && !('0' <= s[i] && s[i] <= '9')
        invariant
            i <= s.len(),
            nondigit_skip(s@, i as int) == nondigit_skip(s@, 0),
        decreases s.len() - i,
    {
        i += 1;
    }
    let t = subrange(s, i, s.len());
    assert(t@ == s@.skip(i as int));
    let mut j = t.len();
    while j > 0 && !('0' <= t[j - 1] && t[j - 1] <= '9')
        invariant
            j <= t.len(),
            nondigit_back(t@, j as int) == nondigit_back(t@, t@.len() as int),
        decreases j,
    {
        j -= 1;
    }
    let r = subrange(&t, 0, j);
    assert(r@ == t@.take(j as int));
    r
}

pub open spec fn spec_unsigned_value_after(line: Seq<char>, key: Seq<char>) -> Option<int> {
    match spec_value_until_ws(line, key) {
        None => None,
        Some(v) => parse_u32(trim_non_digits(v)),
    }
}

pub fn unsigned_value_after(line: &[char], key: &[char]) -> (r: Option<u32>)
    ensures
        match r {
            Some(v) => spec_unsigned_value_after(line@, key@) == Some(v as int),
            None => spec_unsigned_value_after(line@, key@) is None,
        },
{
    let v = value_until_ws(line, key);
    match v {
        None => None,
        Some(v) => {
            let t = trim_non_digit_chars(&v);
            parse_u32_chars(&t)
        },
    }
}

pub open spec fn is_digit_or_minus(c: char) -> bool {
    is_digit(c) || c == '-'
}

/// End of the run of digits and `-` starting at `i`.
pub open spec fn signed_run(s: Seq<char>, i: int) -> int
    decreases s.len() - i,
{
    if 0 <= i < s.len() && is_digit_or_minus(s[i]) {
        signed_run(s, i + 1)
    } else {
        i
    }
}

pub open spec fn spec_signed_value_after(line: Seq<char>, key: Seq<char>) -> Option<int> {
    match find(line, key) {
        None => None,
        Some(p) => {
            let rest = line.skip(p + key.len());
            parse_i32(rest.take(signed_run(rest, 0)))
        },
    }
}

pub fn signed_value_after(line: &[char], key: &[char]) -> (r: Option<i32>)
    ensures
        match r {
            Some(v) => spec_signed_value_after(line@, key@) == Some(v as int),
            None => spec_signed_value_after(line@, key@) is None,
        },
{
    match find_exec(line, key) {
        None => None,
        Some(p) => {
            assert(key.len() == key@.len());
            assert(line.len() == line@.len());
            let rest = subrange(line, p + key.len(), line.len());
            assert(rest@ == line@.skip(p + key@.len()));
            let mut i: usize = 0;
            while i < rest.len() && (('0' <= rest[i] && rest[i] <= '9') || rest[i] == '-')
                invariant
                    i <= rest.len(),
                    signed_run(rest@, i as int) == signed_run(rest@, 0),
                decreases rest.len() - i,
            {
                i += 1;
            }
            let tok = subrange(&rest, 0, i);
            assert(tok@ == rest@.take(i as int));
            parse_i32_chars(&tok)
        },
    }
}

/// Whether the digits of a token are present and all zero.
pub open spec fn spec_numeric_token_is_zero(t: Seq<char>) -> bool {
    (exists|i: int| 0 <= i < t.len() && is_digit(#[trigger] t[i]))
        && (forall|i: int| 0 <= i < t.len() && is_digit(#[trigger] t[i]) ==> t[i] == '0')
}

pub fn numeric_token_is_zero(t: &[char]) -> (r: bool)
    ensures
        r == spec_numeric_token_is_zero(t@),
{
    let mut seen = false;
    let mut i: usize = 0;
    while i < t.len()
        invariant
            i <= t.len(),
            seen == (exists|k: int| 0 <= k < i && is_digit(#[trigger] t@[k])),
            forall|k: int| 0 <= k < i && is_digit(#[trigger] t@[k]) ==> t@[k] == '0',
        decreases t.len() - i,
    {
        if '0' <= t[i] && t[i] <= '9' {
            if t[i] != '0' {
                return false;
            }
            seen = true;
        }
        i += 1;
    }
    seen
}

// ---------------------------------------------------------------------------
// Bracketed entity descriptors
// ---------------------------------------------------------------------------

/// End (exclusive) of the bracket group that is open at depth `depth` when the
/// scan reaches position `i`.
pub open spec fn balanced_end(s: Seq<char>, i: int, depth: nat) -> Option<int>
    decreases s.len() - i,
{
    if i < 0 || i >= s.len() {
        None
    } else if s[i] == '[' {
        balanced_end(s, i + 1, depth + 1)
    } else if s[i] == ']' {
        if depth == 0 {
            None
        } else if depth == 1 {
            Some(i + 1)
        } else {
            balanced_end(s, i + 1, (depth - 1) as nat)
        }
    } else {
        balanced_end(s, i + 1, depth)
    }
}

/// The first balanced `[...]` group of `s`, nested brackets included.
pub open spec fn first_balanced(s: Seq<char>) -> Option<Seq<char>> {
    match find(s, seq!['[']) {
        None => None,
        Some(o) => match balanced_end(s, o, 0) {
            None => None,
            Some(e) => Some(s.subrange(o, e)),
        },
    }
}

pub proof fn lemma_balanced_end_bounds(s: Seq<char>, i: int, depth: nat)
    ensures
        match balanced_end(s, i, depth) {
            Some(e) => 0 <= i < e <= s.len(),
            None => true,
        },
    decreases s.len() - i,
{
    if 0 <= i < s.len() {
        if s[i] == '[' {
            lemma_balanced_end_bounds(s, i + 1, depth + 1);
        } else if s[i] == ']' {
            if depth > 1 {
                lemma_balanced_end_bounds(s, i + 1, (depth - 1) as nat);
            }
        } else {
            lemma_balanced_end_bounds(s, i + 1, depth);
        }
    }
}

pub fn first_balanced_descriptor(s: &[char]) -> (r: Option<Vec<char>>)
    ensures
        opt_chars(r) == first_balanced(s@),
{
    let open_pat: Vec<char> = vec!['['];
    assert(open_pat@ == seq!['[']);
    let open = match find_exec(s, &open_pat) {
        None => return None,
        Some(o) => o,
    };
    proof { lemma_find_bounds(s@, seq!['['], 0); }
    let mut depth: usize = 0;
    let mut i: usize = open;
    while i < s.len()
        invariant
            open <= i <= s.len(),
            depth <= i,
            find(s@, seq!['[']) == Some(open as int),
            balanced_end(s@, open as int, 0) == balanced_end(s@, i as int, depth as nat),
        decreases s.len() - i,
    {
        let c = s[i];
        if c == '[' {
            depth += 1;
        } else if c == ']' {
            if depth == 0 {
                return None;
            }
            if depth == 1 {
                return Some(subrange(s, open, i + 1));
            }
            depth -= 1;
        }
        i += 1;
    }
    None
}

/// What `PowerParser::parse_descriptor` makes of its input: the first balanced
/// descriptor `[name=... id=... zone=... zonePos=... cardId=... player=...]`,
/// with each key located from the right so localized names may contain spaces
/// and brackets.
pub open spec fn spec_parse_descriptor(input: Seq<char>) -> Option<DescriptorV> {
    match first_balanced(input) {
        None => None,
        Some(d) => {
            let body = d.subrange(1, d.len() - 1);
            match rfind(body, " player="@) {
                None => None,
                Some(pk) => match rfind(body.take(pk), " cardId="@) {
                    None => None,
                    Some(ck) => match rfind(body.take(ck), " zonePos="@) {
                        None => None,
                        Some(zpk) => match rfind(body.take(zpk), " zone="@) {
                            None => None,
                            Some(zk) => match rfind(body.take(zk), " id="@) {
                                None => None,
                                Some(ik) => spec_descriptor_fields(body, ik, zk, zpk, ck, pk),
                            },
                        },
                    },
                },
            }
        },
    }
}

pub open spec fn spec_name_part(prefix: Seq<char>) -> Option<Seq<char>> {
    if starts_with(prefix, "entityName="@) {
        Some(prefix.skip("entityName="@.len() as int))
    } else if starts_with(prefix, "name="@) {
        Some(prefix.skip("name="@.len() as int))
    } else {
        None
    }
}

pub open spec fn nonempty(s: Seq<char>) -> Option<Seq<char>> {
    if s.len() == 0 {
        None
    } else {
        Some(s)
    }
}

pub open spec fn opt_i32(o: Option<int>) -> Option<i32> {
    match o {
        Some(v) => Some(v as i32),
        None => None,
    }
}

pub open spec fn spec_descriptor_fields(
    body: Seq<char>,
    ik: int,
    zk: int,
    zpk: int,
    ck: int,
    pk: int,
) -> Option<DescriptorV> {
    match spec_name_part(body.take(ik)) {
        None => None,
        Some(name) => {
            let id_str = trim(body.subrange(ik + " id="@.len(), zk));
            let zone = trim(body.subrange(zk + " zone="@.len(), zpk));
            let zone_pos = trim(body.subrange(zpk + " zonePos="@.len(), ck));
            let card_id = trim(body.subrange(ck + " cardId="@.len(), pk));
            let player = trim(body.skip(pk + " player="@.len()));
            match parse_u32(id_str) {
                None => None,
                Some(id) => Some(
                    DescriptorV {
                        identity: IdentityV {
                            id: id as u32,
                            name: nonempty(name),
                            card_id: nonempty(card_id),
                        },
                        zone: nonempty(zone),
                        zone_position: opt_i32(parse_i32(zone_pos)),
                        controller: opt_i32(parse_i32(player)),
                    },
                ),
            }
        },
    }
}

pub fn nonempty_string(s: &[char]) -> (r: Option<String>)
    ensures
        opt_view(r) == nonempty(s@),
{
    if s.len() == 0 {
        None
    } else {
        Some(string_of(s))
    }
}

fn name_part(prefix: &[char]) -> (r: Option<Vec<char>>)
    ensures
        opt_chars(r) == spec_name_part(prefix@),
{
    let a = chars_of("entityName=");
    match strip_prefix_chars(prefix, &a) {
        Some(rest) => Some(rest),
        None => {
            let b = chars_of("name=");
            strip_prefix_chars(prefix, &b)
        },
    }
}

fn rfind_in_prefix(body: &[char], limit: usize, pat: &str) -> (r: Option<usize>)
    requires
        limit <= body.len(),
    ensures
        match r {
            Some(k) => rfind(body@.take(limit as int), pat@) == Some(k as int) && k + pat@.len()
                <= limit,
            None => rfind(body@.take(limit as int), pat@) is None,
        },
{
    let prefix = subrange(body, 0, limit);
    assert(prefix@ == body@.take(limit as int));
    let p = chars_of(pat);
    let r = rfind_exec(&prefix, &p);
    proof { lemma_rfind_bounds(prefix@, pat@, prefix@.len() - pat@.len()); }
    r
}

fn descriptor_fields(
    body: &[char],
    ik: usize,
    zk: usize,
    zpk: usize,
    ck: usize,
    pk: usize,
) -> (r: Option<EntityDescriptor>)
    requires
        ik + " id="@.len() <= zk,
        zk + " zone="@.len() <= zpk,
        zpk + " zonePos="@.len() <= ck,
        ck + " cardId="@.len() <= pk,
        pk + " player="@.len() <= body.len(),
    ensures
        match r {
            Some(d) => spec_descriptor_fields(body@, ik as int, zk as int, zpk as int, ck as int, pk as int) == Some(d@),
            None => spec_descriptor_fields(body@, ik as int, zk as int, zpk as int, ck as int, pk as int) is None,
        },
{
    let prefix = subrange(body, 0, ik);
    assert(prefix@ == body@.take(ik as int));
    let name = match name_part(&prefix) {
        None => return None,
        Some(n) => n,
    };
    let id_str = trim_chars(&subrange(body, ik + " id=".unicode_len(), zk));
    let zone = trim_chars(&subrange(body, zk + " zone=".unicode_len(), zpk));
    let zone_pos = trim_chars(&subrange(body, zpk + " zonePos=".unicode_len(), ck));
    let card_id = trim_chars(&subrange(body, ck + " cardId=".unicode_len(), pk));
    let player_raw = subrange(body, pk + " player=".unicode_len(), body.len());
    assert(player_raw@ == body@.skip(pk + " player="@.len()));
    let player = trim_chars(&player_raw);
    let id = match parse_u32_chars(&id_str) {
        None => return None,
        Some(id) => id,
    };
    Some(EntityDescriptor {
        identity: EntityIdentity { id, name: nonempty_string(&name), card_id: nonempty_string(&card_id) },
        zone: nonempty_string(&zone),
        zone_position: parse_i32_chars(&zone_pos),
        controller: parse_i32_chars(&player),
    })
}

pub fn parse_descriptor_chars(input: &[char]) -> (r: Option<EntityDescriptor>)
    ensures
        match r {
            Some(d) => spec_parse_descriptor(input@) == Some(d@),
            None => spec_parse_descriptor(input@) is None,
        },
{
    let d = match first_balanced_descriptor(input) {
        None => return None,
        Some(d) => d,
    };
    proof {
        let o = find(input@, seq!['[']).unwrap();
        lemma_find_bounds(input@, seq!['['], 0);
        assert(input@.subrange(o, o + 1)[0] == '[');
        lemma_balanced_end_bounds(input@, o + 1, 1);
    }
    let body = subrange(&d, 1, d.len() - 1);
    assert(body@.take(body@.len() as int) == body@);
    let pk = match rfind_in_prefix(&body, body.len(), " player=") {
        None => return None,
        Some(k) => k,
    };
    assert(body@.take(body@.len() as int) == body@);
    let ck = match rfind_in_prefix(&body, pk, " cardId=") {
        None => return None,
        Some(k) => k,
    };
    let zpk = match rfind_in_prefix(&body, ck, " zonePos=") {
        None => return None,
        Some(k) => k,
    };
    let zk = match rfind_in_prefix(&body, zpk, " zone=") {
        None => return None,
        Some(k) => k,
    };
    let ik = match rfind_in_prefix(&body, zk, " id=") {
        None => return None,
        Some(k) => k,
    };
    descriptor_fields(&body, ik, zk, zpk, ck, pk)
}


// ---------------------------------------------------------------------------
// Named keys (`Entity=`, `Target=`)
// ---------------------------------------------------------------------------

/// Exactly one value after a named `Entity=`/`Target=` key: a balanced
/// descriptor when the value starts with `[`, else the next token.
pub open spec fn spec_value_after_named_entity(line: Seq<char>, key: Seq<char>) -> Option<Seq<char>> {
    match find(line, key) {
        None => None,
        Some(p) => {
            let rest = trim_start(line.skip(p + key.len()));
            if rest.len() > 0 && rest[0] == '[' {
                first_balanced(rest)
            } else {
                Some(first_token(rest))
            }
        },
    }
}

pub open spec fn id_only(id: u32) -> IdentityV {
    IdentityV { id, name: None, card_id: None }
}

pub open spec fn spec_identity_after_named_key(line: Seq<char>, key: Seq<char>) -> Option<IdentityV> {
    match spec_value_after_named_entity(line, key) {
        None => None,
        Some(raw0) => {
            let raw = trim(raw0);
            if raw.len() == 0 || raw == "0"@ || eq_ignore_case(raw, "GameEntity"@) {
                None
            } else if raw[0] == '[' {
                match spec_parse_descriptor(raw) {
                    Some(d) => Some(d.identity),
                    None => None,
                }
            } else {
                match spec_leading_u32(raw) {
                    Some(id) => Some(id_only(id as u32)),
                    None => None,
                }
            }
        },
    }
}

fn value_after_named_entity(line: &[char], key: &[char]) -> (r: Option<Vec<char>>)
    ensures
        opt_chars(r) == spec_value_after_named_entity(line@, key@),
{
    let p = match find_exec(line, key) {
        None => return None,
        Some(p) => p,
    };
    assert(key.len() == key@.len());
    assert(line.len() == line@.len());
    let after = subrange(line, p + key.len(), line.len());
    assert(after@ == line@.skip(p + key@.len()));
    let a = skip_ws_from(&after, 0);
    let rest = subrange(&after, a, after.len());
    assert(rest@ == trim_start(after@));
    if rest.len() > 0 && rest[0] == '[' {
        first_balanced_descriptor(&rest)
    } else {
        Some(first_token_chars(&rest))
    }
}

pub fn identity_after_named_key(line: &[char], key: &[char]) -> (r: Option<EntityIdentity>)
    ensures
        opt_identity(r) == spec_identity_after_named_key(line@, key@),
{
    let raw0 = match value_after_named_entity(line, key) {
        None => return None,
        Some(v) => v,
    };
    let raw = trim_chars(&raw0);
    let zero = chars_of("0");
    let game = chars_of("GameEntity");
    if raw.len() == 0 || chars_eq(&raw, &zero) || eq_ignore_ascii_case(&raw, &game) {
        return None;
    }
    if raw[0] == '[' {
        match parse_descriptor_chars(&raw) {
            Some(d) => Some(d.identity),
            None => None,
        }
    } else {
        match leading_u32(&raw) {
            Some(id) => Some(EntityIdentity { id, name: None, card_id: None }),
            None => None,
        }
    }
}

pub open spec fn opt_identity(o: Option<EntityIdentity>) -> Option<IdentityV> {
    match o {
        Some(i) => Some(i@),
        None => None,
    }
}

// ---------------------------------------------------------------------------
// Line kinds
// ---------------------------------------------------------------------------

#[derive(Debug)]
pub enum LineParseResult {
    IgnoredNonAuthoritative,
    IgnoredAuthoritative,
    Event(PowerEvent),
}

pub enum LineResultV {
    IgnoredNonAuthoritative,
    IgnoredAuthoritative,
    Event(PowerEventV),
}

impl View for LineParseResult {
    type V = LineResultV;

    open spec fn view(&self) -> LineResultV {
        match self {
            LineParseResult::IgnoredNonAuthoritative => LineResultV::IgnoredNonAuthoritative,
            LineParseResult::IgnoredAuthoritative => LineResultV::IgnoredAuthoritative,
            LineParseResult::Event(e) => LineResultV::Event(e@),
        }
    }
}

/// The entity that bare `tag=... value=...` lines following a declaration
/// apply to.
#[derive(Debug)]
pub enum PendingTarget {
    Entity(EntityIdentity),
    GameEntity,
}

pub enum PendingV {
    Entity(IdentityV),
    GameEntity,
}

impl View for PendingTarget {
    type V = PendingV;

    open spec fn view(&self) -> PendingV {
        match self {
            PendingTarget::Entity(i) => PendingV::Entity(i@),
            PendingTarget::GameEntity => PendingV::GameEntity,
        }
    }
}

pub open spec fn opt_pending(o: Option<PendingTarget>) -> Option<PendingV> {
    match o {
        Some(p) => Some(p@),
        None => None,
    }
}

pub open spec fn ignored_auth(pending: Option<PendingV>) -> (LineResultV, Option<PendingV>) {
    (LineResultV::IgnoredAuthoritative, pending)
}

/// `tag=NAME value=VALUE`, both parts trimmed.
pub open spec fn spec_split_tag_value(line: Seq<char>) -> Option<(Seq<char>, Seq<char>)> {
    if !starts_with(line, "tag="@) {
        None
    } else {
        let rest = line.skip("tag="@.len() as int);
        match find(rest, " value="@) {
            None => None,
            Some(vp) => Some((trim(rest.take(vp)), trim(rest.skip(vp + " value="@.len())))),
        }
    }
}

fn split_tag_value(line: &[char]) -> (r: Option<(Vec<char>, Vec<char>)>)
    ensures
        match r {
            Some((t, v)) => spec_split_tag_value(line@) == Some((t@, v@)),
            None => spec_split_tag_value(line@) is None,
        },
{
    let prefix = chars_of("tag=");
    let rest = match strip_prefix_chars(line, &prefix) {
        None => return None,
        Some(r) => r,
    };
    let key = chars_of(" value=");
    let vp = match find_exec(&rest, &key) {
        None => return None,
        Some(vp) => vp,
    };
    assert(key.len() == key@.len());
    assert(rest.len() == rest@.len());
    let t = trim_chars(&subrange(&rest, 0, vp));
    let v = trim_chars(&subrange(&rest, vp + key.len(), rest.len()));
    assert(rest@.subrange(0, vp as int) == rest@.take(vp as int));
    assert(rest@.subrange(vp + key@.len(), rest@.len() as int) == rest@.skip(vp + key@.len()));
    Some((t, v))
}

/// `SendOption()` payload.
pub open spec fn spec_send_option(payload: Seq<char>) -> Option<PowerEventV> {
    match spec_signed_value_after(payload, "selectedOption="@) {
        None => None,
        Some(option) => Some(
            PowerEventV::UserOptionSent {
                selected_option: option as i32,
                selected_target: match spec_signed_value_after(payload, "selectedTarget="@) {
                    Some(t) => if t > 0 {
                        Some(t as u32)
                    } else {
                        None
                    },
                    None => None,
                },
                selected_position: opt_i32(spec_signed_value_after(payload, "selectedPosition="@)),
            },
        ),
    }
}

fn parse_send_option(payload: &[char]) -> (r: Option<PowerEvent>)
    ensures
        opt_event(r) == spec_send_option(payload@),
{
    let option = match signed_value_after(payload, &chars_of("selectedOption=")) {
        None => return None,
        Some(o) => o,
    };
    let selected_target = match signed_value_after(payload, &chars_of("selectedTarget=")) {
        Some(t) => if t > 0 {
            Some(t as u32)
        } else {
            None
        },
        None => None,
    };
    let selected_position = signed_value_after(payload, &chars_of("selectedPosition="));
    Some(PowerEvent::UserOptionSent { selected_option: option, selected_target, selected_position })
}

pub open spec fn opt_event(o: Option<PowerEvent>) -> Option<PowerEventV> {
    match o {
        Some(e) => Some(e@),
        None => None,
    }
}

/// `DebugPrintGame()` payload naming a player.
pub open spec fn spec_player_name(payload: Seq<char>) -> Option<PowerEventV> {
    match spec_signed_value_after(payload, "PlayerID="@) {
        None => None,
        Some(pid) => match find(payload, "PlayerName="@) {
            None => None,
            Some(np) => {
                let name = trim(payload.skip(np + "PlayerName="@.len()));
                if name.len() == 0 {
                    None
                } else {
                    Some(PowerEventV::PlayerNameDeclared { player_id: pid as i32, name })
                }
            },
        },
    }
}

fn parse_player_name(payload: &[char]) -> (r: Option<PowerEvent>)
    ensures
        opt_event(r) == spec_player_name(payload@),
{
    let pid = match signed_value_after(payload, &chars_of("PlayerID=")) {
        None => return None,
        Some(p) => p,
    };
    let key = chars_of("PlayerName=");
    let np = match find_exec(payload, &key) {
        None => return None,
        Some(np) => np,
    };
    assert(key.len() == key@.len());
    assert(payload.len() == payload@.len());
    let tail = subrange(payload, np + key.len(), payload.len());
    assert(tail@ == payload@.skip(np + key@.len()));
    let name = trim_chars(&tail);
    if name.len() == 0 {
        return None;
    }
    Some(PowerEvent::PlayerNameDeclared { player_id: pid, name: string_of(&name) })
}


/// `Player EntityID=... PlayerID=... hi=... lo=...`.
pub open spec fn spec_player(line: Seq<char>) -> (LineResultV, Option<PendingV>) {
    match spec_unsigned_value_after(line, "EntityID="@) {
        None => ignored_auth(None),
        Some(eid) => match spec_signed_value_after(line, "PlayerID="@) {
            None => ignored_auth(None),
            Some(pid) => {
                let hi = match spec_value_until_ws(line, "hi="@) {
                    Some(v) => v,
                    None => "0"@,
                };
                let lo = match spec_value_until_ws(line, "lo="@) {
                    Some(v) => v,
                    None => "0"@,
                };
                (
                    LineResultV::Event(
                        PowerEventV::PlayerDeclared {
                            entity_id: eid as u32,
                            player_id: pid as i32,
                            has_real_account: !spec_numeric_token_is_zero(hi)
                                || !spec_numeric_token_is_zero(lo),
                        },
                    ),
                    Some(PendingV::Entity(id_only(eid as u32))),
                )
            },
        },
    }
}

/// `FULL_ENTITY - Creating ID=... CardID=...`.
pub open spec fn spec_entity_creating(line: Seq<char>) -> (LineResultV, Option<PendingV>) {
    match spec_unsigned_value_after(line, "ID="@) {
        None => ignored_auth(None),
        Some(id) => {
            let card_id = match spec_value_until_ws(line, "CardID="@) {
                Some(c) => nonempty(c),
                None => None,
            };
            (
                LineResultV::Event(PowerEventV::EntityCreated { id: id as u32, card_id }),
                Some(PendingV::Entity(IdentityV { id: id as u32, name: None, card_id })),
            )
        },
    }
}

pub open spec fn bare_descriptor(identity: IdentityV) -> DescriptorV {
    DescriptorV { identity, zone: None, zone_position: None, controller: None }
}

/// The descriptor of a `FULL_ENTITY/SHOW_ENTITY - Updating` line before the
/// `CardID=` override.
pub open spec fn spec_defined_descriptor(line: Seq<char>) -> Option<DescriptorV> {
    match spec_parse_descriptor(line) {
        Some(d) => Some(d),
        None => match spec_identity_after_named_key(line, "Entity="@) {
            Some(i) => Some(bare_descriptor(i)),
            None => match spec_unsigned_value_after(line, "EntityID="@) {
                Some(id) => Some(bare_descriptor(id_only(id as u32))),
                None => None,
            },
        },
    }
}

pub open spec fn with_card_id(d: DescriptorV, line: Seq<char>) -> DescriptorV {
    match spec_value_until_ws(line, "CardID="@) {
        Some(c) => if c.len() > 0 {
            DescriptorV { identity: IdentityV { card_id: Some(c), ..d.identity }, ..d }
        } else {
            d
        },
        None => d,
    }
}

/// `FULL_ENTITY - Updating ...` / `SHOW_ENTITY - Updating ...`.
pub open spec fn spec_entity_defined(line: Seq<char>) -> (LineResultV, Option<PendingV>) {
    match spec_defined_descriptor(line) {
        None => ignored_auth(None),
        Some(d0) => {
            let d = with_card_id(d0, line);
            (LineResultV::Event(PowerEventV::EntityDefined(d)), Some(PendingV::Entity(d.identity)))
        },
    }
}

/// Subject, tag and value of `Entity=SUBJECT tag=TAG value=VALUE`.
pub open spec fn spec_subject_tag_value(line: Seq<char>) -> Option<(Seq<char>, Seq<char>, Seq<char>)> {
    match find(line, " tag="@) {
        None => None,
        Some(tp) => {
            let subject = trim(line.take(tp));
            let rest = line.skip(tp + " tag="@.len());
            match find(rest, " value="@) {
                None => None,
                Some(vp) => Some(
                    (subject, trim(rest.take(vp)), trim(rest.skip(vp + " value="@.len()))),
                ),
            }
        },
    }
}

/// `HIDE_ENTITY - Entity=... tag=... value=...`.
pub open spec fn spec_hide_entity(line: Seq<char>) -> (LineResultV, Option<PendingV>) {
    match spec_subject_tag_value(line) {
        None => ignored_auth(None),
        Some((subject, tag, value)) => if !starts_with(subject, "Entity="@) {
            ignored_auth(None)
        } else {
            let raw = trim(subject.skip("Entity="@.len() as int));
            let target = if raw.len() > 0 && raw[0] == '[' {
                match spec_parse_descriptor(raw) {
                    Some(d) => Some(d.identity),
                    None => None,
                }
            } else {
                match spec_leading_u32(raw) {
                    Some(id) => Some(id_only(id as u32)),
                    None => None,
                }
            };
            match target {
                None => ignored_auth(None),
                Some(t) => (
                    LineResultV::Event(
                        PowerEventV::TagChanged {
                            target: TagTargetV::Entity(t),
                            tag,
                            value: spec_tag_value(value),
                        },
                    ),
                    None,
                ),
            }
        },
    }
}

/// `CHANGE_ENTITY - Updating ... CardID=...`.
pub open spec fn spec_change_entity(line: Seq<char>) -> LineResultV {
    let identity = match spec_parse_descriptor(line) {
        Some(d) => Some(d.identity),
        None => match spec_identity_after_named_key(line, "Entity="@) {
            Some(i) => Some(id_only(i.id)),
            None => None,
        },
    };
    match identity {
        None => LineResultV::IgnoredAuthoritative,
        Some(identity) => match spec_value_until_ws(line, "CardID="@) {
            None => LineResultV::IgnoredAuthoritative,
            Some(c) => if c.len() == 0 {
                LineResultV::IgnoredAuthoritative
            } else {
                LineResultV::Event(PowerEventV::EntityCardChanged { identity, new_card_id: c })
            },
        },
    }
}

/// `TAG_CHANGE Entity=... tag=... value=...`.
pub open spec fn spec_tag_change(line: Seq<char>) -> LineResultV {
    match spec_subject_tag_value(line) {
        None => LineResultV::IgnoredAuthoritative,
        Some((subject, tag, value)) => if tag.len() == 0 || !starts_with(subject, "Entity="@) {
            LineResultV::IgnoredAuthoritative
        } else {
            let raw = trim(subject.skip("Entity="@.len() as int));
            let target = if raw == "GameEntity"@ {
                Some(TagTargetV::GameEntity)
            } else if raw.len() > 0 && raw[0] == '[' {
                match spec_parse_descriptor(raw) {
                    Some(d) => Some(TagTargetV::Entity(d.identity)),
                    None => None,
                }
            } else {
                match parse_u32(raw) {
                    Some(id) => Some(TagTargetV::Entity(id_only(id as u32))),
                    None => Some(TagTargetV::PlayerName(raw)),
                }
            };
            match target {
                None => LineResultV::IgnoredAuthoritative,
                Some(target) => LineResultV::Event(
                    PowerEventV::TagChanged { target, tag, value: spec_tag_value(value) },
                ),
            }
        },
    }
}

/// `BLOCK_START BlockType=... Entity=... EffectCardId=... Target=...`.
pub open spec fn spec_block_start(line: Seq<char>) -> LineResultV {
    let block_type = match spec_value_until_ws(line, "BlockType="@) {
        Some(b) => b,
        None => Seq::empty(),
    };
    if block_type.len() == 0 {
        LineResultV::IgnoredAuthoritative
    } else {
        LineResultV::Event(
            PowerEventV::BlockStarted {
                block_type,
                source: spec_identity_after_named_key(line, "Entity="@),
                target: spec_identity_after_named_key(line, "Target="@),
                effect_card_id: match spec_value_until_ws(line, "EffectCardId="@) {
                    Some(c) => nonempty(c),
                    None => None,
                },
            },
        )
    }
}

/// A bare `tag=... value=...` line applied to the pending target.
pub open spec fn spec_pending_tag(pending: Option<PendingV>, line: Seq<char>) -> LineResultV {
    match pending {
        None => LineResultV::IgnoredAuthoritative,
        Some(p) => match spec_split_tag_value(line) {
            None => LineResultV::IgnoredAuthoritative,
            Some((tag, value)) => LineResultV::Event(
                PowerEventV::TagChanged {
                    target: match p {
                        PendingV::Entity(i) => TagTargetV::Entity(i),
                        PendingV::GameEntity => TagTargetV::GameEntity,
                    },
                    tag,
                    value: spec_tag_value(value),
                },
            ),
        },
    }
}

fn parse_player(line: &[char]) -> (r: (LineParseResult, Option<PendingTarget>))
    ensures
        (r.0@, opt_pending(r.1)) == spec_player(line@),
{
    let eid = match unsigned_value_after(line, &chars_of("EntityID=")) {
        None => return (LineParseResult::IgnoredAuthoritative, None),
        Some(v) => v,
    };
    let pid = match signed_value_after(line, &chars_of("PlayerID=")) {
        None => return (LineParseResult::IgnoredAuthoritative, None),
        Some(v) => v,
    };
    let hi = match value_until_ws(line, &chars_of("hi=")) {
        Some(v) => v,
        None => chars_of("0"),
    };
    let lo = match value_until_ws(line, &chars_of("lo=")) {
        Some(v) => v,
        None => chars_of("0"),
    };
    let has_real_account = !numeric_token_is_zero(&hi) || !numeric_token_is_zero(&lo);
    (
        LineParseResult::Event(
            PowerEvent::PlayerDeclared { entity_id: eid, player_id: pid, has_real_account },
        ),
        Some(PendingTarget::Entity(EntityIdentity { id: eid, name: None, card_id: None })),
    )
}

fn nonempty_opt(o: Option<Vec<char>>) -> (r: Option<String>)
    ensures
        opt_view(r) == (match opt_chars(o) {
            Some(c) => nonempty(c),
            None => None,
        }),
{
    match o {
        Some(c) => nonempty_string(&c),
        None => None,
    }
}

fn parse_entity_creating(line: &[char]) -> (r: (LineParseResult, Option<PendingTarget>))
    ensures
        (r.0@, opt_pending(r.1)) == spec_entity_creating(line@),
{
    let id = match unsigned_value_after(line, &chars_of("ID=")) {
        None => return (LineParseResult::IgnoredAuthoritative, None),
        Some(v) => v,
    };
    let card_id = nonempty_opt(value_until_ws(line, &chars_of("CardID=")));
    let pending_card = clone_opt_string(&card_id);
    (
        LineParseResult::Event(PowerEvent::EntityCreated { id, card_id }),
        Some(PendingTarget::Entity(EntityIdentity { id, name: None, card_id: pending_card })),
    )
}

fn defined_descriptor(line: &[char]) -> (r: Option<EntityDescriptor>)
    ensures
        match r {
            Some(d) => spec_defined_descriptor(line@) == Some(d@),
            None => spec_defined_descriptor(line@) is None,
        },
{
    if let Some(d) = parse_descriptor_chars(line) {
        return Some(d);
    }
    if let Some(identity) = identity_after_named_key(line, &chars_of("Entity=")) {
        return Some(EntityDescriptor { identity, zone: None, zone_position: None, controller: None });
    }
    match unsigned_value_after(line, &chars_of("EntityID=")) {
        Some(id) => Some(
            EntityDescriptor {
                identity: EntityIdentity { id, name: None, card_id: None },
                zone: None,
                zone_position: None,
                controller: None,
            },
        ),
        None => None,
    }
}

fn parse_entity_defined(line: &[char]) -> (r: (LineParseResult, Option<PendingTarget>))
    ensures
        (r.0@, opt_pending(r.1)) == spec_entity_defined(line@),
{
    let mut d = match defined_descriptor(line) {
        None => return (LineParseResult::IgnoredAuthoritative, None),
        Some(d) => d,
    };
    if let Some(c) = value_until_ws(line, &chars_of("CardID=")) {
        if c.len() > 0 {
            d.identity.card_id = Some(string_of(&c));
        }
    }
    let pending = PendingTarget::Entity(d.identity.duplicate());
    (LineParseResult::Event(PowerEvent::EntityDefined(d)), Some(pending))
}

fn subject_tag_value(line: &[char]) -> (r: Option<(Vec<char>, Vec<char>, Vec<char>)>)
    ensures
        match r {
            Some((s, t, v)) => spec_subject_tag_value(line@) == Some((s@, t@, v@)),
            None => spec_subject_tag_value(line@) is None,
        },
{
    let tkey = chars_of(" tag=");
    let tp = match find_exec(line, &tkey) {
        None => return None,
        Some(tp) => tp,
    };
    assert(tkey.len() == tkey@.len());
    assert(line.len() == line@.len());
    let subject = trim_chars(&subrange(line, 0, tp));
    assert(line@.subrange(0, tp as int) == line@.take(tp as int));
    let rest = subrange(line, tp + tkey.len(), line.len());
    assert(rest@ == line@.skip(tp + tkey@.len()));
    let vkey = chars_of(" value=");
    let vp = match find_exec(&rest, &vkey) {
        None => return None,
        Some(vp) => vp,
    };
    assert(vkey.len() == vkey@.len());
    assert(rest.len() == rest@.len());
    let tag = trim_chars(&subrange(&rest, 0, vp));
    assert(rest@.subrange(0, vp as int) == rest@.take(vp as int));
    let vraw = subrange(&rest, vp + vkey.len(), rest.len());
    assert(vraw@ == rest@.skip(vp + vkey@.len()));
    let value = trim_chars(&vraw);
    Some((subject, tag, value))
}

fn parse_hide_entity(line: &[char]) -> (r: (LineParseResult, Option<PendingTarget>))
    ensures
        (r.0@, opt_pending(r.1)) == spec_hide_entity(line@),
{
    let (subject, tag, value) = match subject_tag_value(line) {
        None => return (LineParseResult::IgnoredAuthoritative, None),
        Some(x) => x,
    };
    let raw_target = match strip_prefix_chars(&subject, &chars_of("Entity=")) {
        None => return (LineParseResult::IgnoredAuthoritative, None),
        Some(r) => r,
    };
    let raw = trim_chars(&raw_target);
    let target = if raw.len() > 0 && raw[0] == '[' {
        match parse_descriptor_chars(&raw) {
            Some(d) => d.identity,
            None => return (LineParseResult::IgnoredAuthoritative, None),
        }
    } else {
        match leading_u32(&raw) {
            Some(id) => EntityIdentity { id, name: None, card_id: None },
            None => return (LineParseResult::IgnoredAuthoritative, None),
        }
    };
    (
        LineParseResult::Event(
            PowerEvent::TagChanged {
                target: TagTarget::Entity(target),
                tag: string_of(&tag),
                value: TagValue::parse_chars(&value),
            },
        ),
        None,
    )
}

fn parse_change_entity(line: &[char]) -> (r: LineParseResult)
    ensures
        r@ == spec_change_entity(line@),
{
    let identity = match parse_descriptor_chars(line) {
        Some(d) => d.identity,
        None => match identity_after_named_key(line, &chars_of("Entity=")) {
            Some(i) => EntityIdentity { id: i.id, name: None, card_id: None },
            None => return LineParseResult::IgnoredAuthoritative,
        },
    };
    let c = match value_until_ws(line, &chars_of("CardID=")) {
        None => return LineParseResult::IgnoredAuthoritative,
        Some(c) => c,
    };
    if c.len() == 0 {
        return LineParseResult::IgnoredAuthoritative;
    }
    LineParseResult::Event(PowerEvent::EntityCardChanged { identity, new_card_id: string_of(&c) })
}

fn parse_tag_change(line: &[char]) -> (r: LineParseResult)
    ensures
        r@ == spec_tag_change(line@),
{
    let (subject, tag, value) = match subject_tag_value(line) {
        None => return LineParseResult::IgnoredAuthoritative,
        Some(x) => x,
    };
    if tag.len() == 0 {
        return LineParseResult::IgnoredAuthoritative;
    }
    let raw_target = match strip_prefix_chars(&subject, &chars_of("Entity=")) {
        None => return LineParseResult::IgnoredAuthoritative,
        Some(r) => r,
    };
    let raw = trim_chars(&raw_target);
    let target = if chars_eq(&raw, &chars_of("GameEntity")) {
        TagTarget::GameEntity
    } else if raw.len() > 0 && raw[0] == '[' {
        match parse_descriptor_chars(&raw) {
            Some(d) => TagTarget::Entity(d.identity),
            None => return LineParseResult::IgnoredAuthoritative,
        }
    } else {
        match parse_u32_chars(&raw) {
            Some(id) => TagTarget::Entity(EntityIdentity { id, name: None, card_id: None }),
            None => TagTarget::PlayerName(string_of(&raw)),
        }
    };
    LineParseResult::Event(
        PowerEvent::TagChanged { target, tag: string_of(&tag), value: TagValue::parse_chars(&value) },
    )
}

fn parse_block_start(line: &[char]) -> (r: LineParseResult)
    ensures
        r@ == spec_block_start(line@),
{
    let block_type = match value_until_ws(line, &chars_of("BlockType=")) {
        Some(b) => b,
        None => Vec::new(),
    };
    if block_type.len() == 0 {
        return LineParseResult::IgnoredAuthoritative;
    }
    let source = identity_after_named_key(line, &chars_of("Entity="));
    let target = identity_after_named_key(line, &chars_of("Target="));
    let effect_card_id = nonempty_opt(value_until_ws(line, &chars_of("EffectCardId=")));
    LineParseResult::Event(
        PowerEvent::BlockStarted { block_type: string_of(&block_type), source, target, effect_card_id },
    )
}


/// What one payload of `GameState.DebugPrintPower() - ` means (the payload
/// is not a bare `tag=` line); also the new pending target.
pub open spec fn spec_game_state(t: Seq<char>) -> (LineResultV, Option<PendingV>) {
    if t == "CREATE_GAME"@ || starts_with(t, "CREATE_GAME "@) {
        (LineResultV::Event(PowerEventV::CreateGame), None)
    } else if starts_with(t, "GameEntity EntityID="@) {
        match spec_leading_u32(t.skip("GameEntity EntityID="@.len() as int)) {
            None => ignored_auth(None),
            Some(id) => (
                LineResultV::Event(PowerEventV::GameEntityDeclared { entity_id: id as u32 }),
                Some(PendingV::GameEntity),
            ),
        }
    } else if starts_with(t, "Player EntityID="@) {
        spec_player(t)
    } else if starts_with(t, "FULL_ENTITY - Creating "@) {
        spec_entity_creating(t.skip("FULL_ENTITY - Creating "@.len() as int))
    } else if starts_with(t, "FULL_ENTITY - Updating "@) {
        spec_entity_defined(t.skip("FULL_ENTITY - Updating "@.len() as int))
    } else if starts_with(t, "SHOW_ENTITY - Updating "@) {
        spec_entity_defined(t.skip("SHOW_ENTITY - Updating "@.len() as int))
    } else if starts_with(t, "HIDE_ENTITY - "@) {
        spec_hide_entity(t.skip("HIDE_ENTITY - "@.len() as int))
    } else if starts_with(t, "CHANGE_ENTITY - Updating "@) {
        (spec_change_entity(t.skip("CHANGE_ENTITY - Updating "@.len() as int)), None)
    } else if starts_with(t, "TAG_CHANGE "@) {
        (spec_tag_change(t.skip("TAG_CHANGE "@.len() as int)), None)
    } else if starts_with(t, "BLOCK_START "@) {
        (spec_block_start(t.skip("BLOCK_START "@.len() as int)), None)
    } else if t == "BLOCK_END"@ || starts_with(t, "BLOCK_END "@) {
        (LineResultV::Event(PowerEventV::BlockEnded), None)
    } else {
        ignored_auth(None)
    }
}

/// Meaning of one physical log line for the Power parser, given the pending
/// target left by earlier lines; also the pending target afterwards.
pub open spec fn spec_parse_line(pending: Option<PendingV>, line: Seq<char>) -> (
    LineResultV,
    Option<PendingV>,
) {
    match find(line, "GameState.SendOption() - "@) {
        Some(p) => {
            let payload = trim(line.skip(p + "GameState.SendOption() - "@.len()));
            match spec_send_option(payload) {
                Some(e) => (LineResultV::Event(e), None),
                None => (LineResultV::IgnoredNonAuthoritative, pending),
            }
        },
        None => match find(line, "GameState.DebugPrintGame() - "@) {
            Some(p) => {
                let payload = trim(line.skip(p + "GameState.DebugPrintGame() - "@.len()));
                match spec_player_name(payload) {
                    Some(e) => (LineResultV::Event(e), pending),
                    None => (LineResultV::IgnoredNonAuthoritative, pending),
                }
            },
            None => match find(line, "GameState.DebugPrintPower() - "@) {
                None => (LineResultV::IgnoredNonAuthoritative, pending),
                Some(p) => {
                    let t = trim(line.skip(p + "GameState.DebugPrintPower() - "@.len()));
                    if starts_with(t, "tag="@) {
                        (spec_pending_tag(pending, t), pending)
                    } else {
                        spec_game_state(t)
                    }
                },
            },
        },
    }
}

/// The payload after the first occurrence of `marker`, trimmed.
fn payload_after(line: &[char], marker: &str) -> (r: Option<Vec<char>>)
    ensures
        match r {
            Some(t) => find(line@, marker@) is Some && t@ == trim(
                line@.skip(find(line@, marker@)->0 + marker@.len()),
            ),
            None => find(line@, marker@) is None,
        },
{
    let m = chars_of(marker);
    let p = match find_exec(line, &m) {
        None => return None,
        Some(p) => p,
    };
    assert(m.len() == m@.len());
    assert(line.len() == line@.len());
    let rest = subrange(line, p + m.len(), line.len());
    assert(rest@ == line@.skip(p + m@.len()));
    Some(trim_chars(&rest))
}

fn strip_marker(t: &[char], marker: &str) -> (r: Option<Vec<char>>)
    ensures
        match r {
            Some(rest) => starts_with(t@, marker@) && rest@ == t@.skip(marker@.len() as int),
            None => !starts_with(t@, marker@),
        },
{
    let m = chars_of(marker);
    strip_prefix_chars(t, &m)
}

fn parse_game_state(t: &[char]) -> (r: (LineParseResult, Option<PendingTarget>))
    ensures
        (r.0@, opt_pending(r.1)) == spec_game_state(t@),
{
    if chars_eq(t, &chars_of("CREATE_GAME")) || starts_with_exec(t, &chars_of("CREATE_GAME ")) {
        return (LineParseResult::Event(PowerEvent::CreateGame), None);
    }
    if let Some(rest) = strip_marker(t, "GameEntity EntityID=") {
        return match leading_u32(&rest) {
            None => (LineParseResult::IgnoredAuthoritative, None),
            Some(id) => (
                LineParseResult::Event(PowerEvent::GameEntityDeclared { entity_id: id }),
                Some(PendingTarget::GameEntity),
            ),
        };
    }
    if starts_with_exec(t, &chars_of("Player EntityID=")) {
        return parse_player(t);
    }
    if let Some(rest) = strip_marker(t, "FULL_ENTITY - Creating ") {
        return parse_entity_creating(&rest);
    }
    if let Some(rest) = strip_marker(t, "FULL_ENTITY - Updating ") {
        return parse_entity_defined(&rest);
    }
    if let Some(rest) = strip_marker(t, "SHOW_ENTITY - Updating ") {
        return parse_entity_defined(&rest);
    }
    if let Some(rest) = strip_marker(t, "HIDE_ENTITY - ") {
        return parse_hide_entity(&rest);
    }
    if let Some(rest) = strip_marker(t, "CHANGE_ENTITY - Updating ") {
        return (parse_change_entity(&rest), None);
    }
    if let Some(rest) = strip_marker(t, "TAG_CHANGE ") {
        return (parse_tag_change(&rest), None);
    }
    if let Some(rest) = strip_marker(t, "BLOCK_START ") {
        return (parse_block_start(&rest), None);
    }
    if chars_eq(t, &chars_of("BLOCK_END")) || starts_with_exec(t, &chars_of("BLOCK_END ")) {
        return (LineParseResult::Event(PowerEvent::BlockEnded), None);
    }
    (LineParseResult::IgnoredAuthoritative, None)
}

impl PendingTarget {
    pub fn duplicate(&self) -> (r: PendingTarget)
        ensures
            r@ == self@,
    {
        match self {
            PendingTarget::Entity(i) => PendingTarget::Entity(i.duplicate()),
            PendingTarget::GameEntity => PendingTarget::GameEntity,
        }
    }
}

/// Line parser state: the pending target for bare `tag=` lines.
#[derive(Debug)]
pub struct PowerParser {
    pending_target: Option<PendingTarget>,
}

impl PowerParser {
    pub closed spec fn pending(&self) -> Option<PendingV> {
        opt_pending(self.pending_target)
    }

    pub fn new() -> (r: PowerParser)
        ensures
            r.pending() is None,
    {
        PowerParser { pending_target: None }
    }

    pub fn reset(&mut self)
        ensures
            final(self).pending() is None,
    {
        self.pending_target = None;
    }

    fn parse_pending_tag(&self, t: &[char]) -> (r: LineParseResult)
        ensures
            r@ == spec_pending_tag(self.pending(), t@),
    {
        let target = match &self.pending_target {
            None => return LineParseResult::IgnoredAuthoritative,
            Some(p) => p,
        };
        let (tag, value) = match split_tag_value(t) {
            None => return LineParseResult::IgnoredAuthoritative,
            Some(x) => x,
        };
        let target = match target {
            PendingTarget::Entity(identity) => TagTarget::Entity(identity.duplicate()),
            PendingTarget::GameEntity => TagTarget::GameEntity,
        };
        LineParseResult::Event(
            PowerEvent::TagChanged { target, tag: string_of(&tag), value: TagValue::parse_chars(&value) },
        )
    }

    /// Parses one physical log line.
    pub fn parse_line(&mut self, line: &str) -> (r: LineParseResult)
        ensures
            (r@, final(self).pending()) == spec_parse_line(old(self).pending(), line@),
    {
        let chars = chars_of(line);
        if let Some(payload) = payload_after(&chars, "GameState.SendOption() - ") {
            return match parse_send_option(&payload) {
                Some(e) => {
                    self.pending_target = None;
                    LineParseResult::Event(e)
                },
                None => LineParseResult::IgnoredNonAuthoritative,
            };
        }
        if let Some(payload) = payload_after(&chars, "GameState.DebugPrintGame() - ") {
            return match parse_player_name(&payload) {
                Some(e) => LineParseResult::Event(e),
                None => LineParseResult::IgnoredNonAuthoritative,
            };
        }
        let t = match payload_after(&chars, "GameState.DebugPrintPower() - ") {
            None => return LineParseResult::IgnoredNonAuthoritative,
            Some(t) => t,
        };
        if starts_with_exec(&t, &chars_of("tag=")) {
            return self.parse_pending_tag(&t);
        }
        let (r, pending) = parse_game_state(&t);
        self.pending_target = pending;
        r
    }

    /// Parses one Hearthstone entity descriptor while allowing localized names
    /// and nested brackets inside the name. Only the first balanced outer
    /// descriptor is considered.
    pub fn parse_descriptor(input: &str) -> (r: Option<EntityDescriptor>)
        ensures
            match r {
                Some(d) => spec_parse_descriptor(input@) == Some(d@),
                None => spec_parse_descriptor(input@) is None,
            },
    {
        let chars = chars_of(input);
        parse_descriptor_chars(&chars)
    }
}


/// `tag` and `value` are what the text after `Entity=...` names: the trimmed
/// text between ` tag=` and ` value=`, and the parsed trimmed text after
/// ` value=`.
pub open spec fn tag_fields_of(line: Seq<char>, tag: Seq<char>, value: crate::harness::power::event::TagValueV) -> bool {
    match find(line, " tag="@) {
        Some(tp) => {
            let after = line.skip(tp + 5);
            match find(after, " value="@) {
                Some(vp) => tag == trim(after.take(vp)) && value == spec_tag_value(trim(after.skip(vp + 7))),
                None => false,
            }
        },
        None => false,
    }
}

/// A `HIDE_ENTITY` line and a `TAG_CHANGE` line report the tag and value
/// they name: the tag is the text between ` tag=` and ` value=`, the value
/// is the parse of the text after ` value=`, both trimmed.
pub proof fn lemma_tag_lines_name_their_tag(line: Seq<char>)
    ensures
        match spec_hide_entity(line).0 {
            LineResultV::Event(PowerEventV::TagChanged { tag, value, .. }) => tag_fields_of(line, tag, value),
            _ => true,
        },
        match spec_tag_change(line) {
            LineResultV::Event(PowerEventV::TagChanged { tag, value, .. }) => tag_fields_of(line, tag, value),
            _ => true,
        },
{
    reveal_strlit(" tag=");
    reveal_strlit(" value=");
}
} // verus!
