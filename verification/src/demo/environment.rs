//! Hearthstone's `log.config`: whether Power logging is switched on, and the
//! repaired text that switches it on; and the environment report built from
//! what was found of the install and its logs.

use vstd::prelude::*;

use crate::harness::power::event::opt_view;
use crate::text::{push_str, strs_view,
    chars_eq, chars_of, digit_val, digits_value, ends_with, eq_ignore_ascii_case, eq_ignore_case, find, find_exec,
    find_from, is_ws, lower_seq, matches_at, parse_u32, parse_u32_chars, starts_with, string_of, subrange,
    trim, trim_chars, ws_back, ws_skip,
};

verus! {

/// The text without a leading byte order mark.
pub open spec fn strip_bom(s: Seq<char>) -> Seq<char> {
    if s.len() > 0 && s[0] == '\u{feff}' {
        s.skip(1)
    } else {
        s
    }
}

/// CRLF and lone CR line endings turned into LF.
pub open spec fn lf_only(s: Seq<char>) -> Seq<char>
    decreases s.len(),
{
    if s.len() == 0 {
        Seq::empty()
    } else if s[0] == '\r' && s.len() > 1 && s[1] == '\n' {
        seq!['\n'] + lf_only(s.skip(2))
    } else if s[0] == '\r' {
        seq!['\n'] + lf_only(s.skip(1))
    } else {
        seq![s[0]] + lf_only(s.skip(1))
    }
}

pub open spec fn normalize_v(s: Seq<char>) -> Seq<char> {
    lf_only(strip_bom(s))
}

/// The pieces of `s` between LFs, the last one included even when empty.
pub open spec fn split_lf(s: Seq<char>) -> Seq<Seq<char>>
    decreases s.len(),
{
    if s.len() == 0 {
        seq![Seq::empty()]
    } else {
        let p = split_lf(s.drop_last());
        if s.last() == '\n' {
            p.push(Seq::empty())
        } else {
            p.update(p.len() - 1, p.last().push(s.last()))
        }
    }
}

/// `str::lines` on text without CR: a final LF ends the last line.
pub open spec fn lines_v(s: Seq<char>) -> Seq<Seq<char>> {
    if s.len() == 0 {
        Seq::empty()
    } else if s.last() == '\n' {
        split_lf(s.drop_last())
    } else {
        split_lf(s)
    }
}

pub proof fn lemma_split_lf_nonempty(s: Seq<char>)
    ensures
        split_lf(s).len() >= 1,
    decreases s.len(),
{
    if s.len() > 0 {
        lemma_split_lf_nonempty(s.drop_last());
    }
}

fn normalize_newlines(text: &str) -> (r: Vec<char>)
    ensures
        r@ == normalize_v(text@),
{
    let raw = chars_of(text);
    let s: Vec<char> = if raw.len() > 0 && raw[0] == '\u{feff}' {
        subrange(&raw, 1, raw.len())
    } else {
        raw
    };
    assert(s@ == strip_bom(text@));
    let mut out: Vec<char> = Vec::new();
    let mut i: usize = 0;
    assert(s@.skip(0) =~= s@);
    assert(out@ + lf_only(s@) =~= lf_only(s@));
    while i < s.len()
        invariant
            i <= s@.len(),
            out@ + lf_only(s@.skip(i as int)) == lf_only(s@),
        decreases s@.len() - i,
    {
        let ghost rest = s@.skip(i as int);
        if s[i] == '\r' && i + 1 < s.len() && s[i + 1] == '\n' {
            assert(rest.skip(2) =~= s@.skip(i + 2));
            assert(out@.push('\n') + lf_only(s@.skip(i + 2)) =~= out@ + lf_only(rest));
            out.push('\n');
            i += 2;
        } else if s[i] == '\r' {
            assert(rest.skip(1) =~= s@.skip(i + 1));
            assert(out@.push('\n') + lf_only(s@.skip(i + 1)) =~= out@ + lf_only(rest));
            out.push('\n');
            i += 1;
        } else {
            let c = s[i];
            assert(rest.skip(1) =~= s@.skip(i + 1));
            assert(out@.push(c) + lf_only(s@.skip(i + 1)) =~= out@ + lf_only(rest));
            out.push(c);
            i += 1;
        }
    }
    assert(s@.skip(i as int) =~= Seq::<char>::empty());
    assert(out@ + Seq::<char>::empty() =~= out@);
    out
}

pub open spec fn lines_view(v: Seq<Vec<char>>) -> Seq<Seq<char>> {
    v.map_values(|l: Vec<char>| l@)
}

fn split_lines(s: &Vec<char>) -> (r: Vec<Vec<char>>)
    ensures
        lines_view(r@) == lines_v(s@),
{
    if s.len() == 0 {
        let r: Vec<Vec<char>> = Vec::new();
        assert(lines_view(r@) =~= Seq::<Seq<char>>::empty());
        return r;
    }
    let n: usize = if s[s.len() - 1] == '\n' {
        s.len() - 1
    } else {
        s.len()
    };
    let ghost body = s@.take(n as int);
    assert(lines_v(s@) == split_lf(body)) by {
        if s@.last() == '\n' {
            assert(body =~= s@.drop_last());
        } else {
            assert(body =~= s@);
        }
    }
    let mut done: Vec<Vec<char>> = Vec::new();
    let mut cur: Vec<char> = Vec::new();
    let mut i: usize = 0;
    assert(body.take(0) =~= Seq::<char>::empty());
    assert(lines_view(done@).push(cur@) =~= split_lf(body.take(0)));
    while i < n
        invariant
            i <= n <= s@.len(),
            body == s@.take(n as int),
            lines_view(done@).push(cur@) == split_lf(body.take(i as int)),
        decreases n - i,
    {
        let c = s[i];
        let ghost t = body.take(i + 1);
        assert(t.drop_last() =~= body.take(i as int));
        assert(t.last() == c);
        proof {
            lemma_split_lf_nonempty(body.take(i as int));
        }
        if c == '\n' {
            let ghost before = lines_view(done@);
            done.push(cur);
            cur = Vec::new();
            assert(lines_view(done@) =~= before.push(lines_view(done@).last()));
            assert(lines_view(done@).push(cur@) =~= split_lf(t));
        } else {
            let ghost prev = lines_view(done@).push(cur@);
            cur.push(c);
            assert(lines_view(done@).push(cur@) =~= prev.update(prev.len() - 1, prev.last().push(c)));
        }
        i += 1;
    }
    assert(body.take(n as int) =~= body);
    let ghost before = lines_view(done@);
    done.push(cur);
    assert(lines_view(done@) =~= before.push(lines_view(done@).last()));
    done
}

pub open spec fn is_header(line: Seq<char>) -> bool {
    line.len() > 0 && line[0] == '[' && line.last() == ']'
}

fn is_header_exec(line: &Vec<char>) -> (r: bool)
    ensures
        r == is_header(line@),
{
    line.len() > 0 && line[0] == '[' && line[line.len() - 1] == ']'
}

/// `true` (any ASCII case) or `1`.
pub open spec fn parse_bool_v(value: Seq<char>) -> bool {
    eq_ignore_case(value, "true"@) || value == "1"@
}

fn parse_bool(value: &Vec<char>) -> (r: bool)
    ensures
        r == parse_bool_v(value@),
{
    eq_ignore_ascii_case(value, &chars_of("true")) || chars_eq(value, &chars_of("1"))
}

/// Where the Power section's switches stand after some lines.
pub struct ReadyState {
    pub in_power: bool,
    pub log_level: bool,
    pub file_printing: bool,
    pub verbose: bool,
}

/// One line of `log.config` read: a header opens a section; inside
/// `[Power]`, `LogLevel`, `FilePrinting` and `Verbose` set their switch.
pub open spec fn ready_step(st: ReadyState, raw: Seq<char>) -> ReadyState {
    let line = trim(raw);
    if is_header(line) {
        ReadyState { in_power: eq_ignore_case(line, "[Power]"@), ..st }
    } else if !st.in_power {
        st
    } else {
        match find(line, seq!['=']) {
            None => st,
            Some(p) => {
                let key = trim(line.take(p));
                let value = trim(line.skip(p + 1));
                if eq_ignore_case(key, "LogLevel"@) {
                    ReadyState {
                        log_level: match parse_u32(value) {
                            Some(v) => v >= 1,
                            None => false,
                        },
                        ..st
                    }
                } else if eq_ignore_case(key, "FilePrinting"@) {
                    ReadyState { file_printing: parse_bool_v(value), ..st }
                } else if eq_ignore_case(key, "Verbose"@) {
                    ReadyState { verbose: parse_bool_v(value), ..st }
                } else {
                    st
                }
            },
        }
    }
}

pub open spec fn ready_fold(lines: Seq<Seq<char>>) -> ReadyState
    decreases lines.len(),
{
    if lines.len() == 0 {
        ReadyState { in_power: false, log_level: false, file_printing: false, verbose: false }
    } else {
        ready_step(ready_fold(lines.drop_last()), lines.last())
    }
}

/// Power logging is on: in `[Power]`, LogLevel at least 1, FilePrinting
/// and Verbose true.
pub open spec fn config_ready_v(text: Seq<char>) -> bool {
    let st = ready_fold(lines_v(normalize_v(text)));
    st.log_level && st.file_printing && st.verbose
}

fn ready_step_exec(st: ReadyState, raw: &Vec<char>) -> (r: ReadyState)
    ensures
        r == ready_step(st, raw@),
{
    let line = trim_chars(raw);
    if is_header_exec(&line) {
        return ReadyState { in_power: eq_ignore_ascii_case(&line, &chars_of("[Power]")), ..st };
    }
    if !st.in_power {
        return st;
    }
    let mut eq: Vec<char> = Vec::new();
    eq.push('=');
    assert(eq@ =~= seq!['=']);
    match find_exec(&line, &eq) {
        None => st,
        Some(p) => {
            let n = line.len();
            assert(p + eq@.len() <= n);
            let key = trim_chars(&subrange(&line, 0, p));
            let value = trim_chars(&subrange(&line, p + 1, n));
            assert(line@.subrange(0, p as int) =~= line@.take(p as int));
            assert(line@.subrange(p + 1, line@.len() as int) =~= line@.skip(p + 1));
            if eq_ignore_ascii_case(&key, &chars_of("LogLevel")) {
                ReadyState {
                    log_level: match parse_u32_chars(&value) {
                        Some(v) => v >= 1,
                        None => false,
                    },
                    ..st
                }
            } else if eq_ignore_ascii_case(&key, &chars_of("FilePrinting")) {
                ReadyState { file_printing: parse_bool(&value), ..st }
            } else if eq_ignore_ascii_case(&key, &chars_of("Verbose")) {
                ReadyState { verbose: parse_bool(&value), ..st }
            } else {
                st
            }
        },
    }
}

/// Whether `log.config` text already switches Power logging on.
pub fn power_log_config_ready(text: &str) -> (r: bool)
    ensures
        r == config_ready_v(text@),
{
    let normalized = normalize_newlines(text);
    let lines = split_lines(&normalized);
    let ghost ls = lines_view(lines@);
    let mut st = ReadyState { in_power: false, log_level: false, file_printing: false, verbose: false };
    let mut i: usize = 0;
    assert(ls.take(0) =~= Seq::<Seq<char>>::empty());
    while i < lines.len()
        invariant
            i <= lines@.len(),
            ls == lines_view(lines@),
            st == ready_fold(ls.take(i as int)),
        decreases lines@.len() - i,
    {
        assert(ls.take(i + 1).drop_last() =~= ls.take(i as int));
        st = ready_step_exec(st, &lines[i]);
        i += 1;
    }
    assert(ls.take(i as int) =~= ls);
    st.log_level && st.file_printing && st.verbose
}

/// The `[Power]` section that switches Power logging on, line by line.
pub open spec fn power_section() -> Seq<Seq<char>> {
    seq![
        "[Power]"@,
        "LogLevel=1"@,
        "FilePrinting=True"@,
        "ConsolePrinting=False"@,
        "ScreenPrinting=False"@,
        "Verbose=True"@,
    ]
}

/// Lines written so far while repairing, whether old `[Power]` lines are
/// being dropped, and whether a section was replaced.
pub struct RepairState {
    pub out: Seq<Seq<char>>,
    pub skipping: bool,
    pub replaced: bool,
}

/// A blank line before a new section, unless there is nothing above or the
/// last line is already blank.
pub open spec fn with_gap(out: Seq<Seq<char>>) -> Seq<Seq<char>> {
    if out.len() > 0 && out.last().len() > 0 {
        out.push(Seq::empty())
    } else {
        out
    }
}

/// One input line repaired: a `[Power]` header becomes the canonical
/// section and the old section's lines are dropped up to the next header;
/// every other line is kept.
pub open spec fn repair_step(st: RepairState, line: Seq<char>) -> RepairState {
    let t = trim(line);
    if eq_ignore_case(t, "[Power]"@) {
        RepairState { out: with_gap(st.out) + power_section(), skipping: true, replaced: true }
    } else if st.skipping && !is_header(t) {
        st
    } else {
        RepairState { out: st.out.push(line), skipping: false, replaced: st.replaced }
    }
}

pub open spec fn repair_fold(lines: Seq<Seq<char>>) -> RepairState
    decreases lines.len(),
{
    if lines.len() == 0 {
        RepairState { out: Seq::empty(), skipping: false, replaced: false }
    } else {
        repair_step(repair_fold(lines.drop_last()), lines.last())
    }
}

pub open spec fn drop_blank_tail(s: Seq<Seq<char>>) -> Seq<Seq<char>>
    decreases s.len(),
{
    if s.len() > 0 && s.last().len() == 0 {
        drop_blank_tail(s.drop_last())
    } else {
        s
    }
}

/// Lines joined by CRLF.
pub open spec fn join_crlf(lines: Seq<Seq<char>>) -> Seq<char>
    decreases lines.len(),
{
    if lines.len() == 0 {
        Seq::empty()
    } else if lines.len() == 1 {
        lines[0]
    } else {
        join_crlf(lines.drop_last()) + "\r\n"@ + lines.last()
    }
}

/// The repaired lines: the input's, with the canonical `[Power]` section in
/// place of each old one, or appended when there was none, and no blank
/// lines at the end.
pub open spec fn repaired_lines(text: Seq<char>) -> Seq<Seq<char>> {
    let st = repair_fold(lines_v(normalize_v(text)));
    drop_blank_tail(
        if st.replaced {
            st.out
        } else {
            with_gap(st.out) + power_section()
        },
    )
}

pub open spec fn repaired_text(text: Seq<char>) -> Seq<char> {
    join_crlf(repaired_lines(text)) + "\r\n"@
}

fn power_section_lines() -> (r: Vec<Vec<char>>)
    ensures
        lines_view(r@) == power_section(),
{
    let mut r: Vec<Vec<char>> = Vec::new();
    r.push(chars_of("[Power]"));
    r.push(chars_of("LogLevel=1"));
    r.push(chars_of("FilePrinting=True"));
    r.push(chars_of("ConsolePrinting=False"));
    r.push(chars_of("ScreenPrinting=False"));
    r.push(chars_of("Verbose=True"));
    assert(lines_view(r@) =~= power_section());
    r
}

fn add_gap(out: &mut Vec<Vec<char>>)
    ensures
        lines_view(final(out)@) == with_gap(lines_view(old(out)@)),
{
    if out.len() > 0 && out[out.len() - 1].len() > 0 {
        let ghost before = lines_view(out@);
        out.push(Vec::new());
        assert(lines_view(out@) =~= before.push(Seq::<char>::empty()));
    }
}

fn add_power_section(out: &mut Vec<Vec<char>>)
    ensures
        lines_view(final(out)@) == lines_view(old(out)@) + power_section(),
{
    let mut section = power_section_lines();
    let ghost before = lines_view(out@);
    out.append(&mut section);
    assert(lines_view(out@) =~= before + power_section());
}

/// `log.config` text with Power logging switched on, every other section
/// kept as it was. Lines end with CRLF.
pub fn ensure_power_log_config_text(text: &str) -> (r: String)
    ensures
        r@ == repaired_text(text@),
{
    let normalized = normalize_newlines(text);
    let lines = split_lines(&normalized);
    let ghost ls = lines_view(lines@);
    let mut out: Vec<Vec<char>> = Vec::new();
    let mut skipping = false;
    let mut replaced = false;
    assert(ls.take(0) =~= Seq::<Seq<char>>::empty());
    assert(lines_view(out@) =~= Seq::<Seq<char>>::empty());
    let mut i: usize = 0;
    while i < lines.len()
        invariant
            i <= lines@.len(),
            ls == lines_view(lines@),
            repair_fold(ls.take(i as int)) == (RepairState { out: lines_view(out@), skipping, replaced }),
        decreases lines@.len() - i,
    {
        assert(ls.take(i + 1).drop_last() =~= ls.take(i as int));
        let line = &lines[i];
        let t = trim_chars(line);
        if eq_ignore_ascii_case(&t, &chars_of("[Power]")) {
            add_gap(&mut out);
            add_power_section(&mut out);
            skipping = true;
            replaced = true;
        } else if skipping && !is_header_exec(&t) {
        } else {
            let ghost before = lines_view(out@);
            out.push(line.clone());
            assert(lines_view(out@) =~= before.push(line@));
            skipping = false;
        }
        i += 1;
    }
    assert(ls.take(i as int) =~= ls);
    if !replaced {
        add_gap(&mut out);
        add_power_section(&mut out);
    }
    while out.len() > 0 && out[out.len() - 1].len() == 0
        invariant
            drop_blank_tail(lines_view(out@)) == repaired_lines(text@),
        decreases out@.len(),
    {
        let ghost before = lines_view(out@);
        out.pop();
        assert(lines_view(out@) =~= before.drop_last());
    }
    let mut result: Vec<char> = Vec::new();
    let mut k: usize = 0;
    while k < out.len()
        invariant
            k <= out@.len(),
            drop_blank_tail(lines_view(out@)) == repaired_lines(text@),
            lines_view(out@).len() > 0 ==> lines_view(out@).last().len() > 0,
            k > 0 ==> result@ == join_crlf(lines_view(out@).take(k as int)),
            k == 0 ==> result@.len() == 0,
        decreases out@.len() - k,
    {
        let ghost prev = result@;
        if k > 0 {
            result.push('\r');
            result.push('\n');
        }
        let mut j: usize = 0;
        let ghost base = result@;
        while j < out[k].len()
            invariant
                j <= out@[k as int]@.len(),
                k < out@.len(),
                result@ == base + out@[k as int]@.take(j as int),
            decreases out@[k as int]@.len() - j,
        {
            result.push(out[k][j]);
            assert(out@[k as int]@.take(j + 1) =~= out@[k as int]@.take(j as int).push(out@[k as int]@[j as int]));
            j += 1;
        }
        assert(out@[k as int]@.take(j as int) =~= out@[k as int]@);
        let ghost tk = lines_view(out@).take(k + 1);
        assert(tk.drop_last() =~= lines_view(out@).take(k as int));
        if k > 0 {
            assert(result@ =~= prev + "\r\n"@ + out@[k as int]@) by {
                reveal_strlit("\r\n");
            }
        } else {
            assert(result@ =~= out@[k as int]@);
        }
        k += 1;
    }
    assert(lines_view(out@).take(k as int) =~= lines_view(out@));
    assert(drop_blank_tail(lines_view(out@)) == lines_view(out@));
    result.push('\r');
    result.push('\n');
    proof {
        reveal_strlit("\r\n");
        if k == 0 {
            assert(join_crlf(lines_view(out@)) =~= Seq::<char>::empty());
        }
    }
    assert(result@ =~= join_crlf(repaired_lines(text@)) + "\r\n"@);
    string_of(&result)
}


proof fn lemma_trim_plain(s: Seq<char>)
    requires
        s.len() > 0,
        !is_ws(s[0]),
        !is_ws(s.last()),
    ensures
        trim(s) == s,
{
    assert(ws_skip(s, 0) == 0);
    assert(s.skip(0) =~= s);
    assert(ws_back(s, s.len() as int) == s.len());
    assert(s.take(s.len() as int) =~= s);
}

proof fn lemma_find_char(s: Seq<char>, c: char, i: int, k: int)
    requires
        0 <= i <= k < s.len(),
        s[k] == c,
        forall|j: int| i <= j < k ==> s[j] != c,
    ensures
        find_from(s, seq![c], i) == Some(k),
    decreases k - i,
{
    if i < k {
        assert(!matches_at(s, seq![c], i)) by {
            if matches_at(s, seq![c], i) {
                assert(s.subrange(i, i + 1)[0] == s[i]);
            }
        }
        lemma_find_char(s, c, i + 1, k);
    } else {
        assert(s.subrange(k, k + 1) =~= seq![c]);
    }
}

/// A `key=value` line of the canonical section, read inside `[Power]`.
proof fn lemma_setting_line(line: Seq<char>, key: Seq<char>, value: Seq<char>)
    requires
        line == key + seq!['='] + value,
        key.len() > 0,
        value.len() > 0,
        !is_ws(key[0]),
        key[0] != '[',
        !is_ws(key.last()),
        !is_ws(value[0]),
        !is_ws(value.last()),
        forall|j: int| 0 <= j < key.len() ==> key[j] != '=',
    ensures
        trim(line) == line,
        !is_header(line),
        find(line, seq!['=']) == Some(key.len() as int),
        trim(line.take(key.len() as int)) == key,
        trim(line.skip(key.len() as int + 1)) == value,
{
    assert(line[0] == key[0]);
    assert(line.last() == value.last());
    lemma_trim_plain(line);
    lemma_find_char(line, '=', 0, key.len() as int);
    assert(line.take(key.len() as int) =~= key);
    assert(line.skip(key.len() as int + 1) =~= value);
    lemma_trim_plain(key);
    lemma_trim_plain(value);
}

/// Reading the canonical `[Power]` section switches every setting on.
proof fn lemma_power_section_ready(st: ReadyState)
    ensures
        ({
            let r = ready_step(
                ready_step(
                    ready_step(
                        ready_step(ready_step(ready_step(st, "[Power]"@), "LogLevel=1"@), "FilePrinting=True"@),
                        "ConsolePrinting=False"@,
                    ),
                    "ScreenPrinting=False"@,
                ),
                "Verbose=True"@,
            );
            r.in_power && r.log_level && r.file_printing && r.verbose
        }),
{
    reveal_strlit("[Power]");
    reveal_strlit("LogLevel=1");
    reveal_strlit("FilePrinting=True");
    reveal_strlit("ConsolePrinting=False");
    reveal_strlit("ScreenPrinting=False");
    reveal_strlit("Verbose=True");
    reveal_strlit("LogLevel");
    reveal_strlit("FilePrinting");
    reveal_strlit("Verbose");
    reveal_strlit("true");
    reveal_strlit("True");
    reveal_strlit("False");
    reveal_strlit("1");
    reveal_strlit("ConsolePrinting");
    reveal_strlit("ScreenPrinting");
    let h = "[Power]"@;
    lemma_trim_plain(h);
    let s1 = ready_step(st, h);
    assert(s1.in_power);
    assert("LogLevel=1"@ =~= "LogLevel"@ + seq!['='] + "1"@);
    lemma_setting_line("LogLevel=1"@, "LogLevel"@, "1"@);
    assert(parse_u32("1"@) == Some(1int)) by {
        assert("1"@ =~= seq!['1']);
        assert(seq!['1'].drop_last() =~= Seq::<char>::empty());
        assert(digits_value(Seq::<char>::empty()) == 0);
        assert(('1' as int) - ('0' as int) == 1);
        assert(digits_value(seq!['1']) == digits_value(seq!['1'].drop_last()) * 10 + digit_val('1'));
        assert(digits_value(seq!['1']) == 1);
    }
    let s2 = ready_step(s1, "LogLevel=1"@);
    assert(s2.in_power && s2.log_level);
    assert("FilePrinting=True"@ =~= "FilePrinting"@ + seq!['='] + "True"@);
    lemma_setting_line("FilePrinting=True"@, "FilePrinting"@, "True"@);
    assert(eq_ignore_case("True"@, "true"@)) by {
        assert(lower_seq("True"@) =~= lower_seq("true"@));
    }
    assert(lower_seq("FilePrinting"@).len() != lower_seq("LogLevel"@).len());
    let s3 = ready_step(s2, "FilePrinting=True"@);
    assert(s3.in_power && s3.log_level && s3.file_printing);
    assert("ConsolePrinting=False"@ =~= "ConsolePrinting"@ + seq!['='] + "False"@);
    lemma_setting_line("ConsolePrinting=False"@, "ConsolePrinting"@, "False"@);
    let s4 = ready_step(s3, "ConsolePrinting=False"@);
    assert(s4 == s3) by {
        reveal_strlit("ConsolePrinting");
        assert(lower_seq("ConsolePrinting"@).len() != lower_seq("LogLevel"@).len());
        assert(lower_seq("ConsolePrinting"@).len() != lower_seq("FilePrinting"@).len());
        assert(lower_seq("ConsolePrinting"@).len() != lower_seq("Verbose"@).len());
    }
    assert("ScreenPrinting=False"@ =~= "ScreenPrinting"@ + seq!['='] + "False"@);
    lemma_setting_line("ScreenPrinting=False"@, "ScreenPrinting"@, "False"@);
    let s5 = ready_step(s4, "ScreenPrinting=False"@);
    assert(s5 == s4) by {
        reveal_strlit("ScreenPrinting");
        assert(lower_seq("ScreenPrinting"@).len() != lower_seq("LogLevel"@).len());
        assert(lower_seq("ScreenPrinting"@).len() != lower_seq("FilePrinting"@).len());
        assert(lower_seq("ScreenPrinting"@).len() != lower_seq("Verbose"@).len());
    }
    assert("Verbose=True"@ =~= "Verbose"@ + seq!['='] + "True"@);
    lemma_setting_line("Verbose=True"@, "Verbose"@, "True"@);
    assert(lower_seq("Verbose"@).len() != lower_seq("LogLevel"@).len());
    assert(lower_seq("Verbose"@).len() != lower_seq("FilePrinting"@).len());
}


/// No CR in `s`.
pub open spec fn no_cr(s: Seq<char>) -> bool {
    forall|i: int| 0 <= i < s.len() ==> s[i] != '\r'
}

/// No CR and no LF in `s`.
pub open spec fn plain_line(s: Seq<char>) -> bool {
    forall|i: int| 0 <= i < s.len() ==> s[i] != '\r' && s[i] != '\n'
}

proof fn lemma_lf_only_no_cr(s: Seq<char>)
    ensures
        no_cr(lf_only(s)),
    decreases s.len(),
{
    if s.len() > 0 {
        if s[0] == '\r' && s.len() > 1 && s[1] == '\n' {
            lemma_lf_only_no_cr(s.skip(2));
        } else {
            lemma_lf_only_no_cr(s.skip(1));
        }
        let r = lf_only(s);
        assert forall|i: int| 0 <= i < r.len() implies r[i] != '\r' by {
            if s[0] == '\r' && s.len() > 1 && s[1] == '\n' {
                if i > 0 {
                    assert(r[i] == lf_only(s.skip(2))[i - 1]);
                }
            } else if i > 0 {
                assert(r[i] == lf_only(s.skip(1))[i - 1]);
            }
        }
    }
}

proof fn lemma_split_lf_plain(s: Seq<char>)
    requires
        no_cr(s),
    ensures
        forall|i: int| 0 <= i < split_lf(s).len() ==> plain_line(#[trigger] split_lf(s)[i]),
    decreases s.len(),
{
    if s.len() > 0 {
        lemma_split_lf_plain(s.drop_last());
        lemma_split_lf_nonempty(s.drop_last());
        let p = split_lf(s.drop_last());
        if s.last() != '\n' {
            assert(s.last() == s[s.len() - 1]);
            let q = p.last().push(s.last());
            assert(plain_line(q)) by {
                assert forall|k: int| 0 <= k < q.len() implies q[k] != '\r' && q[k] != '\n' by {
                    if k < p.last().len() {
                        assert(plain_line(p[p.len() - 1]));
                    }
                }
            }
            assert forall|i: int| 0 <= i < split_lf(s).len() implies plain_line(#[trigger] split_lf(s)[i]) by {
                if i < p.len() - 1 {
                    assert(split_lf(s)[i] == p[i]);
                }
            }
        } else {
            assert forall|i: int| 0 <= i < split_lf(s).len() implies plain_line(#[trigger] split_lf(s)[i]) by {
                if i < p.len() {
                    assert(split_lf(s)[i] == p[i]);
                }
            }
        }
    }
}

/// The lines of normalized text hold no CR and no LF.
proof fn lemma_lines_plain(text: Seq<char>)
    ensures
        forall|i: int|
            0 <= i < lines_v(normalize_v(text)).len() ==> plain_line(#[trigger] lines_v(normalize_v(text))[i]),
{
    let n = normalize_v(text);
    lemma_lf_only_no_cr(strip_bom(text));
    if n.len() > 0 && n.last() == '\n' {
        assert forall|i: int| 0 <= i < n.drop_last().len() implies n.drop_last()[i] != '\r' by {
            assert(n.drop_last()[i] == n[i]);
        }
        lemma_split_lf_plain(n.drop_last());
    } else if n.len() > 0 {
        lemma_split_lf_plain(n);
    }
}

proof fn lemma_lf_only_concat(a: Seq<char>, b: Seq<char>)
    requires
        a.len() == 0 || a.last() != '\r',
    ensures
        lf_only(a + b) == lf_only(a) + lf_only(b),
    decreases a.len(),
{
    if a.len() == 0 {
        assert(a + b =~= b);
        assert(lf_only(a) + lf_only(b) =~= lf_only(b));
    } else {
        let ab = a + b;
        assert(ab[0] == a[0]);
        if a[0] == '\r' {
            assert(a.len() > 1);
            assert(ab[1] == a[1]);
            if a[1] == '\n' {
                assert(ab.skip(2) =~= a.skip(2) + b);
                if a.len() > 2 {
                    assert(a.skip(2).last() == a.last());
                }
                lemma_lf_only_concat(a.skip(2), b);
            } else {
                assert(ab.skip(1) =~= a.skip(1) + b);
                assert(a.skip(1).last() == a.last());
                lemma_lf_only_concat(a.skip(1), b);
            }
        } else {
            assert(ab.skip(1) =~= a.skip(1) + b);
            if a.len() > 1 {
                assert(a.skip(1).last() == a.last());
            }
            lemma_lf_only_concat(a.skip(1), b);
        }
        assert(lf_only(ab) =~= lf_only(a) + lf_only(b));
    }
}

proof fn lemma_lf_only_plain(s: Seq<char>)
    requires
        no_cr(s),
    ensures
        lf_only(s) == s,
    decreases s.len(),
{
    if s.len() > 0 {
        assert forall|i: int| 0 <= i < s.skip(1).len() implies s.skip(1)[i] != '\r' by {
            assert(s.skip(1)[i] == s[i + 1]);
        }
        lemma_lf_only_plain(s.skip(1));
        assert(lf_only(s) =~= s);
    }
}

/// Lines joined by LF.
pub open spec fn join_lf(lines: Seq<Seq<char>>) -> Seq<char>
    decreases lines.len(),
{
    if lines.len() == 0 {
        Seq::empty()
    } else if lines.len() == 1 {
        lines[0]
    } else {
        join_lf(lines.drop_last()) + "\n"@ + lines.last()
    }
}

proof fn lemma_crlf_text_normalizes(m: Seq<Seq<char>>)
    requires
        m.len() > 0,
        forall|i: int| 0 <= i < m.len() ==> plain_line(#[trigger] m[i]),
    ensures
        lf_only(join_crlf(m) + "\r\n"@) == join_lf(m) + "\n"@,
    decreases m.len(),
{
    reveal_strlit("\r\n");
    reveal_strlit("\n");
    let last = m.last();
    assert(plain_line(m[m.len() - 1]));
    assert(no_cr(last));
    lemma_lf_only_plain(last);
    assert(lf_only("\r\n"@) =~= "\n"@) by {
        assert("\r\n"@ =~= seq!['\r', '\n']);
        assert("\n"@ =~= seq!['\n']);
        assert(seq!['\r', '\n'].skip(2) =~= Seq::<char>::empty());
        assert(lf_only(Seq::<char>::empty()) == Seq::<char>::empty());
    }
    if m.len() == 1 {
        assert(join_crlf(m) == last);
        lemma_lf_only_concat(last, "\r\n"@);
    } else {
        let d = m.drop_last();
        assert forall|i: int| 0 <= i < d.len() implies plain_line(#[trigger] d[i]) by {
            assert(d[i] == m[i]);
        }
        lemma_crlf_text_normalizes(d);
        let a = join_crlf(d) + "\r\n"@;
        assert(join_crlf(m) + "\r\n"@ =~= (a + last) + "\r\n"@);
        assert(a.last() == '\n');
        lemma_lf_only_concat(a, last);
        if last.len() > 0 {
            assert((a + last).last() == last.last());
        } else {
            assert(a + last =~= a);
        }
        lemma_lf_only_concat(a + last, "\r\n"@);
        assert(lf_only(join_crlf(m) + "\r\n"@) =~= join_lf(m) + "\n"@);
    }
}


proof fn lemma_split_lf_append(s: Seq<char>, b: Seq<char>)
    requires
        forall|i: int| 0 <= i < b.len() ==> b[i] != '\n',
    ensures
        split_lf(s + b) == split_lf(s).update(split_lf(s).len() - 1, split_lf(s).last() + b),
    decreases b.len(),
{
    lemma_split_lf_nonempty(s);
    if b.len() == 0 {
        assert(s + b =~= s);
        assert(split_lf(s).update(split_lf(s).len() - 1, split_lf(s).last() + b) =~= split_lf(s));
    } else {
        let bd = b.drop_last();
        assert forall|i: int| 0 <= i < bd.len() implies bd[i] != '\n' by {
            assert(bd[i] == b[i]);
        }
        lemma_split_lf_append(s, bd);
        assert(s + b =~= (s + bd).push(b.last()));
        assert((s + b).drop_last() =~= s + bd);
        assert(b.last() == b[b.len() - 1]);
        let p = split_lf(s);
        let q = split_lf(s + bd);
        lemma_split_lf_nonempty(s + bd);
        assert(q.len() == p.len());
        assert(q.last() == p.last() + bd);
        assert((s + b).last() == b.last());
        assert(b.last() != '\n');
        assert((p.last() + bd).push(b.last()) =~= p.last() + b);
        assert(split_lf(s + b) == q.update(q.len() - 1, q.last().push(b.last())));
        assert(split_lf(s + b) =~= p.update(p.len() - 1, p.last() + b));
    }
}

proof fn lemma_split_join_lf(m: Seq<Seq<char>>)
    requires
        m.len() > 0,
        forall|i: int| 0 <= i < m.len() ==> plain_line(#[trigger] m[i]),
    ensures
        split_lf(join_lf(m)) == m,
    decreases m.len(),
{
    reveal_strlit("\n");
    assert(plain_line(m[m.len() - 1]));
    let last = m.last();
    assert(forall|i: int| 0 <= i < last.len() ==> last[i] != '\n');
    if m.len() == 1 {
        lemma_split_lf_append(Seq::empty(), last);
        assert(Seq::<char>::empty() + last =~= last);
        assert(split_lf(Seq::<char>::empty()) =~= seq![Seq::<char>::empty()]);
        assert(split_lf(join_lf(m)) =~= m);
    } else {
        let d = m.drop_last();
        assert forall|i: int| 0 <= i < d.len() implies plain_line(#[trigger] d[i]) by {
            assert(d[i] == m[i]);
        }
        lemma_split_join_lf(d);
        let a = join_lf(d).push('\n');
        assert(join_lf(m) =~= a + last);
        assert(a.drop_last() =~= join_lf(d));
        assert(split_lf(a) == d.push(Seq::<char>::empty()));
        lemma_split_lf_append(a, last);
        assert(split_lf(join_lf(m)) =~= m);
    }
}

proof fn lemma_join_crlf_head(l: Seq<Seq<char>>)
    requires
        l.len() >= 2,
    ensures
        join_crlf(l) == l[0] + "\r\n"@ + join_crlf(l.skip(1)),
    decreases l.len(),
{
    let d = l.drop_last();
    if l.len() == 2 {
        assert(d.len() == 1);
        assert(l.skip(1).len() == 1);
        assert(join_crlf(l.skip(1)) == l.skip(1)[0]);
        assert(l.skip(1)[0] == l[1]);
        assert(join_crlf(d) == d[0]);
    } else {
        lemma_join_crlf_head(d);
        assert(d.skip(1) =~= l.skip(1).drop_last());
        assert(l.skip(1).last() == l.last());
        assert(d[0] == l[0]);
        assert(join_crlf(l) =~= l[0] + "\r\n"@ + join_crlf(l.skip(1)));
    }
}

/// The lines with a byte order mark removed from the first one.
pub open spec fn bomfix(l: Seq<Seq<char>>) -> Seq<Seq<char>> {
    if l.len() > 0 {
        l.update(0, strip_bom(l[0]))
    } else {
        l
    }
}

/// Repaired text read back gives the repaired lines (the first without a
/// byte order mark).
proof fn lemma_read_back(l: Seq<Seq<char>>)
    requires
        l.len() > 0,
        forall|i: int| 0 <= i < l.len() ==> plain_line(#[trigger] l[i]),
    ensures
        lines_v(normalize_v(join_crlf(l) + "\r\n"@)) == bomfix(l),
{
    reveal_strlit("\r\n");
    reveal_strlit("\n");
    let b = bomfix(l);
    let text = join_crlf(l) + "\r\n"@;
    let z = if l.len() >= 2 {
        lemma_join_crlf_head(l);
        "\r\n"@ + join_crlf(l.skip(1)) + "\r\n"@
    } else {
        "\r\n"@
    };
    assert(text =~= l[0] + z);
    assert(z[0] == '\r');
    if l.len() >= 2 {
        lemma_join_crlf_head(b);
        assert(b.skip(1) =~= l.skip(1));
    }
    assert(join_crlf(b) + "\r\n"@ =~= b[0] + z);
    assert(strip_bom(text) == join_crlf(b) + "\r\n"@) by {
        if l[0].len() > 0 && l[0][0] == '\u{feff}' {
            assert(text[0] == l[0][0]);
            assert(text.skip(1) =~= l[0].skip(1) + z);
        } else {
            assert(b =~= l);
            if l[0].len() == 0 {
                assert(text[0] == z[0]);
            } else {
                assert(text[0] == l[0][0]);
            }
        }
    }
    assert forall|i: int| 0 <= i < b.len() implies plain_line(#[trigger] b[i]) by {
        if i == 0 && l[0].len() > 0 && l[0][0] == '\u{feff}' {
            assert forall|k: int| 0 <= k < b[0].len() implies b[0][k] != '\r' && b[0][k] != '\n' by {
                assert(b[0][k] == l[0][k + 1]);
            }
        } else {
            assert(b[i] == l[i]);
        }
    }
    lemma_crlf_text_normalizes(b);
    lemma_split_join_lf(b);
    let j = join_lf(b) + "\n"@;
    assert(j.last() == '\n');
    assert(j.drop_last() =~= join_lf(b));
}

proof fn lemma_ready_push(a: Seq<Seq<char>>, x: Seq<char>)
    ensures
        ready_fold(a.push(x)) == ready_step(ready_fold(a), x),
{
    assert(a.push(x).drop_last() =~= a);
}

proof fn lemma_blank_step(st: ReadyState)
    ensures
        ready_step(st, Seq::empty()) == st,
{
    assert(trim(Seq::<char>::empty()) =~= Seq::<char>::empty()) by {
        assert(ws_skip(Seq::<char>::empty(), 0) == 0);
        assert(ws_back(Seq::<char>::empty(), 0) == 0);
    }
    assert(find(Seq::<char>::empty(), seq!['=']) is None);
}

/// Reading the canonical section after any lines leaves Power logging on.
proof fn lemma_ready_after_section(a: Seq<Seq<char>>)
    ensures
        ({
            let r = ready_fold(a + power_section());
            r.in_power && r.log_level && r.file_printing && r.verbose
        }),
{
    let p = power_section();
    assert(a + p =~= a.push(p[0]).push(p[1]).push(p[2]).push(p[3]).push(p[4]).push(p[5]));
    lemma_ready_push(a, p[0]);
    lemma_ready_push(a.push(p[0]), p[1]);
    lemma_ready_push(a.push(p[0]).push(p[1]), p[2]);
    lemma_ready_push(a.push(p[0]).push(p[1]).push(p[2]), p[3]);
    lemma_ready_push(a.push(p[0]).push(p[1]).push(p[2]).push(p[3]), p[4]);
    lemma_ready_push(a.push(p[0]).push(p[1]).push(p[2]).push(p[3]).push(p[4]), p[5]);
    lemma_power_section_ready(ready_fold(a));
}

proof fn lemma_section_plain()
    ensures
        forall|i: int| 0 <= i < power_section().len() ==> plain_line(#[trigger] power_section()[i]),
        strip_bom(power_section()[0]) == power_section()[0],
        power_section().last().len() > 0,
{
    reveal_strlit("[Power]");
    reveal_strlit("LogLevel=1");
    reveal_strlit("FilePrinting=True");
    reveal_strlit("ConsolePrinting=False");
    reveal_strlit("ScreenPrinting=False");
    reveal_strlit("Verbose=True");
    let p = power_section();
    assert(plain_line(p[0]));
    assert(plain_line(p[1]));
    assert(plain_line(p[2]));
    assert(plain_line(p[3]));
    assert(plain_line(p[4]));
    assert(plain_line(p[5]));
}

/// Reading `with_gap(a)` and then the canonical section after bomfix.
proof fn lemma_ready_gap_section(a: Seq<Seq<char>>)
    ensures
        ({
            let r = ready_fold(bomfix(with_gap(a) + power_section()));
            r.in_power && r.log_level && r.file_printing && r.verbose
        }),
{
    lemma_section_plain();
    let w = with_gap(a);
    if w.len() > 0 {
        assert(bomfix(w + power_section()) =~= bomfix(w) + power_section());
        lemma_ready_after_section(bomfix(w));
    } else {
        assert(bomfix(w + power_section()) =~= Seq::<Seq<char>>::empty() + power_section());
        lemma_ready_after_section(Seq::empty());
    }
}

proof fn lemma_repair_invariant(ls: Seq<Seq<char>>)
    requires
        forall|i: int| 0 <= i < ls.len() ==> plain_line(#[trigger] ls[i]),
    ensures
        forall|i: int| 0 <= i < repair_fold(ls).out.len() ==> plain_line(#[trigger] repair_fold(ls).out[i]),
        repair_fold(ls).replaced ==> repair_fold(ls).out.len() > 0,
        repair_fold(ls).replaced ==> ({
            let r = ready_fold(bomfix(repair_fold(ls).out));
            r.log_level && r.file_printing && r.verbose && (r.in_power ==> repair_fold(ls).skipping)
        }),
    decreases ls.len(),
{
    if ls.len() > 0 {
        let d = ls.drop_last();
        assert forall|i: int| 0 <= i < d.len() implies plain_line(#[trigger] d[i]) by {
            assert(d[i] == ls[i]);
        }
        lemma_repair_invariant(d);
        lemma_section_plain();
        let st = repair_fold(d);
        let l = ls.last();
        assert(plain_line(ls[ls.len() - 1]));
        let t = trim(l);
        let st2 = repair_fold(ls);
        if eq_ignore_case(t, "[Power]"@) {
            lemma_ready_gap_section(st.out);
            let w = with_gap(st.out);
            assert(plain_line(Seq::<char>::empty()));
            assert forall|i: int| 0 <= i < st2.out.len() implies plain_line(#[trigger] st2.out[i]) by {
                if i < w.len() {
                    assert(st2.out[i] == w[i]);
                    if i < st.out.len() {
                        assert(w[i] == st.out[i]);
                    }
                } else {
                    assert(st2.out[i] == power_section()[i - w.len()]);
                }
            }
        } else if st.skipping && !is_header(t) {
        } else {
            assert forall|i: int| 0 <= i < st2.out.len() implies plain_line(#[trigger] st2.out[i]) by {
                if i < st.out.len() {
                    assert(st2.out[i] == st.out[i]);
                }
            }
            if st.replaced {
                assert(bomfix(st.out.push(l)) =~= bomfix(st.out).push(l));
                lemma_ready_push(bomfix(st.out), l);
            }
        }
    }
}

proof fn lemma_drop_blank_ready(s: Seq<Seq<char>>)
    ensures
        ready_fold(bomfix(drop_blank_tail(s))) == ready_fold(bomfix(s)),
    decreases s.len(),
{
    if s.len() > 0 && s.last().len() == 0 {
        lemma_drop_blank_ready(s.drop_last());
        let d = s.drop_last();
        if d.len() > 0 {
            assert(bomfix(s) =~= bomfix(d).push(s.last()));
            lemma_ready_push(bomfix(d), s.last());
        } else {
            assert(s.last() =~= Seq::<char>::empty());
            assert(strip_bom(s[0]) =~= Seq::<char>::empty());
            assert(bomfix(s) =~= Seq::<Seq<char>>::empty().push(Seq::<char>::empty()));
            lemma_ready_push(Seq::empty(), Seq::empty());
            assert(bomfix(d) =~= Seq::<Seq<char>>::empty());
        }
        assert(s.last() =~= Seq::<char>::empty());
        lemma_blank_step(ready_fold(bomfix(d)));
    }
}

proof fn lemma_drop_blank_plain(s: Seq<Seq<char>>)
    requires
        forall|i: int| 0 <= i < s.len() ==> plain_line(#[trigger] s[i]),
    ensures
        forall|i: int| 0 <= i < drop_blank_tail(s).len() ==> plain_line(#[trigger] drop_blank_tail(s)[i]),
        drop_blank_tail(s).len() <= s.len(),
        forall|i: int| 0 <= i < drop_blank_tail(s).len() ==> drop_blank_tail(s)[i] == s[i],
    decreases s.len(),
{
    if s.len() > 0 && s.last().len() == 0 {
        let d = s.drop_last();
        assert forall|i: int| 0 <= i < d.len() implies plain_line(#[trigger] d[i]) by {
            assert(d[i] == s[i]);
        }
        lemma_drop_blank_plain(d);
        assert forall|i: int| 0 <= i < drop_blank_tail(s).len() implies drop_blank_tail(s)[i] == s[i] by {
            assert(drop_blank_tail(s) == drop_blank_tail(d));
            assert(d[i] == s[i]);
        }
    }
}

/// A repaired `log.config` always switches Power logging on, whatever the
/// text it was made from.
pub proof fn lemma_repaired_config_is_ready(text: Seq<char>)
    ensures
        config_ready_v(repaired_text(text)),
{
    let ls = lines_v(normalize_v(text));
    lemma_lines_plain(text);
    lemma_repair_invariant(ls);
    lemma_section_plain();
    let st = repair_fold(ls);
    let lines = repaired_lines(text);
    let init = ReadyState { in_power: false, log_level: false, file_printing: false, verbose: false };
    if st.replaced {
        lemma_drop_blank_ready(st.out);
        lemma_drop_blank_plain(st.out);
        if lines.len() == 0 {
            assert(bomfix(lines) =~= Seq::<Seq<char>>::empty());
            assert(ready_fold(bomfix(lines)) == init);
        }
    } else {
        let w = with_gap(st.out);
        let full = w + power_section();
        assert(full.last() == power_section().last());
        assert(drop_blank_tail(full) == full);
        lemma_ready_gap_section(st.out);
        assert(plain_line(Seq::<char>::empty()));
        assert forall|i: int| 0 <= i < full.len() implies plain_line(#[trigger] full[i]) by {
            if i < w.len() {
                assert(full[i] == w[i]);
                if i < st.out.len() {
                    assert(w[i] == st.out[i]);
                }
            } else {
                assert(full[i] == power_section()[i - w.len()]);
            }
        }
    }
    lemma_read_back(lines);
}

proof fn lemma_fold_push(a: Seq<Seq<char>>, x: Seq<char>)
    ensures
        repair_fold(a.push(x)) == repair_step(repair_fold(a), x),
{
    assert(a.push(x).drop_last() =~= a);
}

/// How repairing reads the canonical section's lines and a blank line.
proof fn lemma_section_lines_read()
    ensures
        trim(power_section()[0]) == power_section()[0],
        eq_ignore_case(power_section()[0], "[Power]"@),
        forall|k: int|
            1 <= k < 6 ==> trim(#[trigger] power_section()[k]) == power_section()[k] && !is_header(
                power_section()[k],
            ) && !eq_ignore_case(power_section()[k], "[Power]"@),
        trim(Seq::<char>::empty()) == Seq::<char>::empty(),
        !eq_ignore_case(Seq::<char>::empty(), "[Power]"@),
        !is_header(Seq::<char>::empty()),
        power_section()[0].len() > 0 && power_section()[0][0] != '\u{feff}',
{
    reveal_strlit("[Power]");
    reveal_strlit("LogLevel=1");
    reveal_strlit("FilePrinting=True");
    reveal_strlit("ConsolePrinting=False");
    reveal_strlit("ScreenPrinting=False");
    reveal_strlit("Verbose=True");
    reveal_strlit("LogLevel");
    reveal_strlit("FilePrinting");
    reveal_strlit("Verbose");
    reveal_strlit("True");
    reveal_strlit("False");
    reveal_strlit("1");
    reveal_strlit("ConsolePrinting");
    reveal_strlit("ScreenPrinting");
    lemma_trim_plain("[Power]"@);
    assert("LogLevel=1"@ =~= "LogLevel"@ + seq!['='] + "1"@);
    lemma_setting_line("LogLevel=1"@, "LogLevel"@, "1"@);
    assert("FilePrinting=True"@ =~= "FilePrinting"@ + seq!['='] + "True"@);
    lemma_setting_line("FilePrinting=True"@, "FilePrinting"@, "True"@);
    assert("ConsolePrinting=False"@ =~= "ConsolePrinting"@ + seq!['='] + "False"@);
    lemma_setting_line("ConsolePrinting=False"@, "ConsolePrinting"@, "False"@);
    assert("ScreenPrinting=False"@ =~= "ScreenPrinting"@ + seq!['='] + "False"@);
    lemma_setting_line("ScreenPrinting=False"@, "ScreenPrinting"@, "False"@);
    assert("Verbose=True"@ =~= "Verbose"@ + seq!['='] + "True"@);
    lemma_setting_line("Verbose=True"@, "Verbose"@, "True"@);
    let p = power_section();
    assert forall|k: int| 1 <= k < 6 implies !eq_ignore_case(#[trigger] p[k], "[Power]"@) by {
        assert(lower_seq(p[k]).len() == p[k].len());
        assert(lower_seq("[Power]"@).len() == 7);
    }
    assert(trim(Seq::<char>::empty()) =~= Seq::<char>::empty());
    assert(lower_seq(Seq::<char>::empty()).len() == 0);
}

/// Repairing a fixed point followed by a blank gap and the canonical
/// section reads them back unchanged.
proof fn lemma_fold_section(o: Seq<Seq<char>>)
    requires
        repair_fold(o).out == o,
    ensures
        repair_fold(with_gap(o) + power_section()) == (RepairState {
            out: with_gap(o) + power_section(),
            skipping: true,
            replaced: true,
        }),
{
    lemma_section_lines_read();
    let g = with_gap(o);
    let p = power_section();
    if g != o {
        assert(g == o.push(Seq::empty()));
        lemma_fold_push(o, Seq::empty());
    }
    let sg = repair_fold(g);
    assert(sg.out == o || sg.out == g);
    assert(with_gap(g) == g);
    assert(g + p.take(1) =~= g.push(p[0]));
    lemma_fold_push(g, p[0]);
    // The header writes the whole section; its other lines are skipped.
    assert(repair_fold(g + p.take(1)).out =~= g + p);
    lemma_fold_section_rest(g, 6);
    assert(g + p.take(6) =~= g + p);
}

proof fn lemma_fold_section_rest(g: Seq<Seq<char>>, k: int)
    requires
        1 <= k <= 6,
        with_gap(g) == g,
    ensures
        repair_fold(g + power_section().take(k)) == repair_fold(g + power_section().take(1)),
    decreases k,
{
    lemma_section_lines_read();
    let p = power_section();
    if k > 1 {
        lemma_fold_section_rest(g, k - 1);
        assert(g + p.take(k) =~= (g + p.take(k - 1)).push(p[k - 1]));
        lemma_fold_push(g + p.take(k - 1), p[k - 1]);
        assert(g + p.take(1) =~= g.push(p[0]));
        lemma_fold_push(g, p[0]);
    }
}

/// Repairing the lines a repair wrote changes nothing.
pub proof fn lemma_repair_fixpoint(x: Seq<Seq<char>>)
    ensures
        repair_fold(repair_fold(x).out) == repair_fold(x),
    decreases x.len(),
{
    if x.len() > 0 {
        let d = x.drop_last();
        let l = x.last();
        lemma_repair_fixpoint(d);
        let st = repair_fold(d);
        let t = trim(l);
        if eq_ignore_case(t, "[Power]"@) {
            lemma_fold_section(st.out);
        } else if st.skipping && !is_header(t) {
        } else {
            lemma_fold_push(st.out, l);
        }
    }
}

/// Dropping the blank lines a repair wrote last leaves what the repair had
/// written at some earlier line, with the same `replaced`.
proof fn lemma_blank_tail_prefix(x: Seq<Seq<char>>)
    ensures
        exists|j: int|
            0 <= j <= x.len() && repair_fold(x.take(j)).out == drop_blank_tail(repair_fold(x).out) && repair_fold(
                x.take(j),
            ).replaced == repair_fold(x).replaced,
    decreases x.len(),
{
    lemma_section_lines_read();
    lemma_section_plain();
    if x.len() == 0 {
        assert(x.take(0) =~= x);
    } else {
        let d = x.drop_last();
        let l = x.last();
        let st = repair_fold(d);
        let t = trim(l);
        assert(x.take(x.len() as int) =~= x);
        if eq_ignore_case(t, "[Power]"@) {
            let out = repair_fold(x).out;
            assert(out.last() == power_section().last());
            assert(drop_blank_tail(out) == out);
        } else if st.skipping && !is_header(t) {
            lemma_blank_tail_prefix(d);
            let j = choose|j: int|
                0 <= j <= d.len() && repair_fold(d.take(j)).out == drop_blank_tail(repair_fold(d).out) && repair_fold(
                    d.take(j),
                ).replaced == repair_fold(d).replaced;
            assert(x.take(j) =~= d.take(j));
        } else if l.len() > 0 {
            let out = repair_fold(x).out;
            assert(out.last() == l);
            assert(drop_blank_tail(out) == out);
        } else {
            lemma_blank_tail_prefix(d);
            let j = choose|j: int|
                0 <= j <= d.len() && repair_fold(d.take(j)).out == drop_blank_tail(repair_fold(d).out) && repair_fold(
                    d.take(j),
                ).replaced == repair_fold(d).replaced;
            assert(x.take(j) =~= d.take(j));
            let out = repair_fold(x).out;
            assert(out == st.out.push(l));
            assert(out.drop_last() =~= st.out);
        }
    }
}

proof fn lemma_drop_blank_twice(s: Seq<Seq<char>>)
    ensures
        drop_blank_tail(drop_blank_tail(s)) == drop_blank_tail(s),
        drop_blank_tail(s).len() > 0 ==> drop_blank_tail(s).last().len() > 0,
    decreases s.len(),
{
    if s.len() > 0 && s.last().len() == 0 {
        lemma_drop_blank_twice(s.drop_last());
    }
}

/// The first line written by a repair is the first line read, or the
/// canonical section's header.
proof fn lemma_first_written(x: Seq<Seq<char>>)
    requires
        x.len() > 0,
    ensures
        repair_fold(x).out.len() > 0,
        repair_fold(x).out[0] == x[0] || repair_fold(x).out[0] == power_section()[0],
    decreases x.len(),
{
    lemma_section_lines_read();
    if x.len() == 1 {
        assert(x.drop_last() =~= Seq::<Seq<char>>::empty());
        assert(with_gap(Seq::<Seq<char>>::empty()) == Seq::<Seq<char>>::empty());
    } else {
        let d = x.drop_last();
        lemma_first_written(d);
        assert(d[0] == x[0]);
    }
}

proof fn lemma_split_lf_single(s: Seq<char>)
    ensures
        split_lf(s).len() == 1 ==> split_lf(s)[0] == s,
    decreases s.len(),
{
    lemma_split_lf_nonempty(s);
    if s.len() > 0 {
        let d = s.drop_last();
        lemma_split_lf_single(d);
        lemma_split_lf_nonempty(d);
        if s.last() != '\n' && split_lf(d).len() == 1 {
            assert(d.push(s.last()) =~= s);
        }
    }
}

proof fn lemma_split_lf_first(s: Seq<char>)
    requires
        s.len() > 0,
    ensures
        split_lf(s).len() >= 1,
        split_lf(s)[0].len() > 0 ==> split_lf(s)[0][0] == s[0],
    decreases s.len(),
{
    lemma_split_lf_nonempty(s);
    let d = s.drop_last();
    lemma_split_lf_nonempty(d);
    if s.len() == 1 {
        assert(d =~= Seq::<char>::empty());
        assert(split_lf(d) =~= seq![Seq::<char>::empty()]);
    } else {
        lemma_split_lf_first(d);
        lemma_split_lf_single(d);
        assert(d[0] == s[0]);
    }
}

/// The first line read from a text whose byte order mark, if any, is not
/// followed by another one does not start with one.
proof fn lemma_first_line_no_bom(text: Seq<char>)
    requires
        strip_bom(text).len() > 0 ==> strip_bom(text)[0] != '\u{feff}',
    ensures
        lines_v(normalize_v(text)).len() > 0 ==> strip_bom(lines_v(normalize_v(text))[0]) == lines_v(
            normalize_v(text),
        )[0],
{
    let x = strip_bom(text);
    let s = normalize_v(text);
    if s.len() > 0 {
        assert(x.len() > 0);
        assert(s[0] == '\n' || s[0] == x[0]);
        if s.last() == '\n' {
            if s.len() == 1 {
                assert(s.drop_last() =~= Seq::<char>::empty());
                assert(split_lf(s.drop_last()) =~= seq![Seq::<char>::empty()]);
            } else {
                assert(s.drop_last()[0] == s[0]);
                lemma_split_lf_first(s.drop_last());
            }
        } else {
            lemma_split_lf_first(s);
        }
    }
}

/// Repairing a repaired `log.config` again changes nothing (for a text whose
/// byte order mark, if any, is not followed by a second one).
pub proof fn lemma_repair_idempotent(text: Seq<char>)
    requires
        strip_bom(text).len() > 0 ==> strip_bom(text)[0] != '\u{feff}',
    ensures
        repaired_text(repaired_text(text)) == repaired_text(text),
        repaired_lines(repaired_text(text)) == repaired_lines(text),
{
    lemma_section_lines_read();
    lemma_repaired_config_is_ready(text);
    let ls = lines_v(normalize_v(text));
    let st = repair_fold(ls);
    let l = repaired_lines(text);
    lemma_lines_plain(text);
    lemma_repair_invariant(ls);
    lemma_section_plain();
    lemma_repair_fixpoint(ls);
    lemma_first_line_no_bom(text);
    let full = if st.replaced {
        st.out
    } else {
        with_gap(st.out) + power_section()
    };
    assert(l == drop_blank_tail(full));
    // What a second repair reads back.
    assert(forall|i: int| 0 <= i < full.len() ==> plain_line(#[trigger] full[i])) by {
        assert(plain_line(Seq::<char>::empty()));
        assert forall|i: int| 0 <= i < full.len() implies plain_line(#[trigger] full[i]) by {
            if !st.replaced {
                let w = with_gap(st.out);
                if i < w.len() {
                    assert(full[i] == w[i]);
                    if i < st.out.len() {
                        assert(w[i] == st.out[i]);
                    }
                } else {
                    assert(full[i] == power_section()[i - w.len()]);
                }
            }
        }
    }
    lemma_drop_blank_plain(full);
    lemma_drop_blank_twice(full);
    // The repaired lines are what a second repair writes.
    if st.replaced {
        lemma_blank_tail_prefix(ls);
        let j = choose|j: int|
            0 <= j <= ls.len() && repair_fold(ls.take(j)).out == drop_blank_tail(repair_fold(ls).out) && repair_fold(
                ls.take(j),
            ).replaced == repair_fold(ls).replaced;
        lemma_repair_fixpoint(ls.take(j));
        assert(repair_fold(l) == repair_fold(ls.take(j)));
        assert(l.len() > 0) by {
            assert forall|i: int| 0 <= i < ls.take(j).len() implies plain_line(#[trigger] ls.take(j)[i]) by {
                assert(ls.take(j)[i] == ls[i]);
            }
            lemma_repair_invariant(ls.take(j));
        }
        lemma_first_written(ls);
    } else {
        lemma_fold_section(st.out);
        assert(full.last() == power_section().last());
        assert(drop_blank_tail(full) == full);
        if ls.len() > 0 {
            lemma_first_written(ls);
            assert(full[0] == st.out[0]) by {
                assert(with_gap(st.out)[0] == st.out[0]);
            }
        } else {
            assert(st.out.len() == 0);
            assert(with_gap(st.out) == st.out);
            assert(full[0] == power_section()[0]);
        }
    }
    assert(l.len() > 0);
    assert(l[0] == full[0]);
    assert(bomfix(l) == l) by {
        assert(strip_bom(l[0]) == l[0]);
        assert(l.update(0, l[0]) =~= l);
    }
    lemma_read_back(l);
    assert(lines_v(normalize_v(repaired_text(text))) == l);
    assert(repair_fold(l).out == l && repair_fold(l).replaced);
}

/// `a` is `b` with some lines left out.
pub open spec fn subseq_of(a: Seq<Seq<char>>, b: Seq<Seq<char>>) -> bool
    decreases b.len(),
{
    if a.len() == 0 {
        true
    } else if b.len() == 0 {
        false
    } else if a.last() == b.last() {
        subseq_of(a.drop_last(), b.drop_last())
    } else {
        subseq_of(a, b.drop_last())
    }
}

proof fn lemma_subseq_drop_last(a: Seq<Seq<char>>, b: Seq<Seq<char>>)
    requires
        a.len() > 0,
        subseq_of(a, b),
    ensures
        subseq_of(a.drop_last(), b),
    decreases b.len(), 1int,
{
    if b.len() > 0 {
        let b2 = b.drop_last();
        assert(b2.push(b.last()) =~= b);
        if a.last() == b.last() {
            lemma_subseq_push(a.drop_last(), b2, b.last());
        } else {
            lemma_subseq_drop_last(a, b2);
            lemma_subseq_push(a.drop_last(), b2, b.last());
        }
    }
}

/// A subsequence stays one when a line is added to the longer sequence.
proof fn lemma_subseq_push(a: Seq<Seq<char>>, b: Seq<Seq<char>>, x: Seq<char>)
    requires
        subseq_of(a, b),
    ensures
        subseq_of(a, b.push(x)),
    decreases b.len() + 1, 0int,
{
    assert(b.push(x).drop_last() =~= b);
    if a.len() > 0 && a.last() == x {
        lemma_subseq_drop_last(a, b);
    }
}

proof fn lemma_subseq_append(a: Seq<Seq<char>>, b: Seq<Seq<char>>, c: Seq<Seq<char>>)
    requires
        subseq_of(a, b),
    ensures
        subseq_of(a, b + c),
    decreases c.len(),
{
    if c.len() > 0 {
        lemma_subseq_append(a, b, c.drop_last());
        assert(b + c =~= (b + c.drop_last()).push(c.last()));
        lemma_subseq_push(a, b + c.drop_last(), c.last());
    } else {
        assert(b + c =~= b);
    }
}

proof fn lemma_subseq_drop_blank(a: Seq<Seq<char>>, b: Seq<Seq<char>>)
    requires
        subseq_of(a, b),
        forall|i: int| 0 <= i < a.len() ==> (#[trigger] a[i]).len() > 0,
    ensures
        subseq_of(a, drop_blank_tail(b)),
    decreases b.len(),
{
    if b.len() > 0 && b.last().len() == 0 {
        if a.len() > 0 {
            assert(a.last() != b.last());
        }
        lemma_subseq_drop_blank(a, b.drop_last());
    }
}

/// Whether the line after `ls` lies inside a `[Power]` section: the last
/// header before it is `[Power]`.
pub open spec fn in_power_after(ls: Seq<Seq<char>>) -> bool
    decreases ls.len(),
{
    if ls.len() == 0 {
        false
    } else {
        let t = trim(ls.last());
        if eq_ignore_case(t, "[Power]"@) {
            true
        } else if is_header(t) {
            false
        } else {
            in_power_after(ls.drop_last())
        }
    }
}

/// The non-empty lines of `ls` that lie outside every `[Power]` section,
/// in order.
pub open spec fn outside_power_v(ls: Seq<Seq<char>>) -> Seq<Seq<char>>
    decreases ls.len(),
{
    if ls.len() == 0 {
        Seq::empty()
    } else {
        let d = ls.drop_last();
        let l = ls.last();
        let t = trim(l);
        if eq_ignore_case(t, "[Power]"@) || (in_power_after(d) && !is_header(t)) || l.len() == 0 {
            outside_power_v(d)
        } else {
            outside_power_v(d).push(l)
        }
    }
}

proof fn lemma_repair_keeps_outside(ls: Seq<Seq<char>>)
    ensures
        repair_fold(ls).skipping == in_power_after(ls),
        subseq_of(outside_power_v(ls), repair_fold(ls).out),
        forall|i: int| 0 <= i < outside_power_v(ls).len() ==> (#[trigger] outside_power_v(ls)[i]).len() > 0,
    decreases ls.len(),
{
    if ls.len() > 0 {
        let d = ls.drop_last();
        let l = ls.last();
        let t = trim(l);
        lemma_repair_keeps_outside(d);
        let st = repair_fold(d);
        let k = outside_power_v(d);
        if eq_ignore_case(t, "[Power]"@) {
            lemma_subseq_append(k, st.out, if with_gap(st.out) == st.out {
                power_section()
            } else {
                seq![Seq::<char>::empty()] + power_section()
            });
            assert(with_gap(st.out) + power_section() =~= st.out + (if with_gap(st.out) == st.out {
                power_section()
            } else {
                seq![Seq::<char>::empty()] + power_section()
            }));
        } else if st.skipping && !is_header(t) {
        } else {
            assert(subseq_of(k, st.out.push(l))) by {
                lemma_subseq_push(k, st.out, l);
            }
            if l.len() > 0 {
                assert(st.out.push(l).drop_last() =~= st.out);
                assert(k.push(l).drop_last() =~= k);
                assert forall|i: int| 0 <= i < k.push(l).len() implies (#[trigger] k.push(l)[i]).len() > 0 by {
                    if i < k.len() {
                        assert(k.push(l)[i] == k[i]);
                    }
                }
            }
        }
    }
}

/// Repairing keeps every non-empty line that lies outside the `[Power]`
/// sections, in its order.
pub proof fn lemma_repair_keeps_other_lines(text: Seq<char>)
    ensures
        subseq_of(outside_power_v(lines_v(normalize_v(text))), repaired_lines(text)),
{
    let ls = lines_v(normalize_v(text));
    let st = repair_fold(ls);
    lemma_repair_keeps_outside(ls);
    let full = if st.replaced {
        st.out
    } else {
        with_gap(st.out) + power_section()
    };
    if !st.replaced {
        lemma_subseq_append(outside_power_v(ls), st.out, if with_gap(st.out) == st.out {
            power_section()
        } else {
            seq![Seq::<char>::empty()] + power_section()
        });
        assert(with_gap(st.out) + power_section() =~= st.out + (if with_gap(st.out) == st.out {
            power_section()
        } else {
            seq![Seq::<char>::empty()] + power_section()
        }));
    }
    lemma_subseq_drop_blank(outside_power_v(ls), full);
}

/// The text to write so that `log.config` switches Power logging on: none
/// when it already does, or when the repair would not change it.
pub open spec fn log_config_fix(text: Seq<char>) -> Option<Seq<char>> {
    if config_ready_v(text) || repaired_text(text) == strip_bom(text) {
        None
    } else {
        Some(repaired_text(text))
    }
}

/// Whatever a repair writes to `log.config` switches Power logging on, so a
/// second repair of the written file writes nothing.
pub proof fn lemma_repair_is_final(text: Seq<char>)
    ensures
        match log_config_fix(text) {
            Some(t) => config_ready_v(t) && log_config_fix(t) is None,
            None => true,
        },
{
    lemma_repaired_config_is_ready(text);
}

fn equals_without_bom(a: &Vec<char>, t: &Vec<char>) -> (r: bool)
    ensures
        r == (a@ == strip_bom(t@)),
{
    if t.len() > 0 && t[0] == '\u{feff}' {
        let n = t.len();
        let rest = subrange(t, 1, n);
        assert(rest@ =~= t@.skip(1));
        chars_eq(a, &rest)
    } else {
        chars_eq(a, t)
    }
}

/// The repaired `log.config` text when it has to be written.
pub fn log_config_repair(text: &str) -> (r: Option<String>)
    ensures
        match r {
            Some(t) => log_config_fix(text@) == Some(t@),
            None => log_config_fix(text@) is None,
        },
{
    if power_log_config_ready(text) {
        return None;
    }
    let repaired = ensure_power_log_config_text(text);
    let rc = chars_of(repaired.as_str());
    let tc = chars_of(text);
    if equals_without_bom(&rc, &tc) {
        None
    } else {
        Some(repaired)
    }
}

/// A Power log counts as recent when it was written at most 15 s ago.
pub fn is_power_log_recent(age_ms: Option<u64>) -> (r: bool)
    ensures
        r == match age_ms {
            Some(age) => age <= 15000,
            None => false,
        },
{
    match age_ms {
        Some(age) => age <= 15000,
        None => false,
    }
}

/// What was read of `log.config`: its path, whether the file exists, and its
/// text (empty when it could not be read).
pub struct LogConfigRead {
    pub path: String,
    pub exists: bool,
    pub text: String,
}

/// The state of the local install: the Hearthstone directory and how it was
/// found, `log.config`, the newest Power log, and notes for the user.
#[derive(Debug, Clone)]
pub struct EnvironmentStatus {
    pub hearthstone_dir: Option<String>,
    pub hearthstone_exe_found: bool,
    pub detected_by: Option<String>,
    pub log_config_path: Option<String>,
    pub log_config_exists: bool,
    pub power_logging_ready: bool,
    pub logs_dir: Option<String>,
    pub latest_power_log: Option<String>,
    pub latest_power_log_age_ms: Option<u64>,
    pub power_log_recent: bool,
    pub restart_required: bool,
    pub notes: Vec<String>,
}

pub struct EnvironmentStatusV {
    pub hearthstone_dir: Option<Seq<char>>,
    pub hearthstone_exe_found: bool,
    pub detected_by: Option<Seq<char>>,
    pub log_config_path: Option<Seq<char>>,
    pub log_config_exists: bool,
    pub power_logging_ready: bool,
    pub logs_dir: Option<Seq<char>>,
    pub latest_power_log: Option<Seq<char>>,
    pub latest_power_log_age_ms: Option<u64>,
    pub power_log_recent: bool,
    pub restart_required: bool,
    pub notes: Seq<Seq<char>>,
}

impl View for EnvironmentStatus {
    type V = EnvironmentStatusV;

    open spec fn view(&self) -> EnvironmentStatusV {
        EnvironmentStatusV {
            hearthstone_dir: opt_view(self.hearthstone_dir),
            hearthstone_exe_found: self.hearthstone_exe_found,
            detected_by: opt_view(self.detected_by),
            log_config_path: opt_view(self.log_config_path),
            log_config_exists: self.log_config_exists,
            power_logging_ready: self.power_logging_ready,
            logs_dir: opt_view(self.logs_dir),
            latest_power_log: opt_view(self.latest_power_log),
            latest_power_log_age_ms: self.latest_power_log_age_ms,
            power_log_recent: self.power_log_recent,
            restart_required: self.restart_required,
            notes: strs_view(self.notes@),
        }
    }
}

/// Nothing found yet.
pub open spec fn empty_status_v() -> EnvironmentStatusV {
    EnvironmentStatusV {
        hearthstone_dir: None,
        hearthstone_exe_found: false,
        detected_by: None,
        log_config_path: None,
        log_config_exists: false,
        power_logging_ready: false,
        logs_dir: None,
        latest_power_log: None,
        latest_power_log_age_ms: None,
        power_log_recent: false,
        restart_required: false,
        notes: Seq::empty(),
    }
}

impl Default for EnvironmentStatus {
    fn default() -> (r: EnvironmentStatus)
        ensures
            r@ == empty_status_v(),
    {
        let r = EnvironmentStatus {
            hearthstone_dir: None,
            hearthstone_exe_found: false,
            detected_by: None,
            log_config_path: None,
            log_config_exists: false,
            power_logging_ready: false,
            logs_dir: None,
            latest_power_log: None,
            latest_power_log_age_ms: None,
            power_log_recent: false,
            restart_required: false,
            notes: Vec::new(),
        };
        assert(strs_view(r.notes@) =~= Seq::<Seq<char>>::empty());
        r
    }
}

/// The outcome of a repair: the status after it, and what it changed.
#[derive(Debug, Clone)]
pub struct EnvironmentRepairResult {
    pub status: EnvironmentStatus,
    pub config_changed: bool,
    pub log_config_changed: bool,
    pub restart_required: bool,
}

/// A repair decided from what was found: its result, the Hearthstone
/// directory to save when it changed, and the `log.config` text to write.
pub struct EnvironmentRepairPlan {
    pub result: EnvironmentRepairResult,
    pub hearthstone_dir: Option<String>,
    pub log_config_text: Option<String>,
}

/// The note for a configured directory that holds no `Hearthstone.exe`.
pub open spec fn unusable_dir_note(dir: Seq<char>) -> Seq<char> {
    "配置中的炉石目录不可用："@ + dir
}

pub open spec fn not_found_note() -> Seq<char> {
    "尚未找到 Hearthstone.exe；启动炉石后点击“自动检测并修复”即可再次检测。"@
}

pub open spec fn restart_note() -> Seq<char> {
    "Power 日志配置刚刚被修复；炉石当前正在运行，请重启炉石后再开始对局。"@
}

pub open spec fn no_local_app_data_note() -> Seq<char> {
    "无法解析 LOCALAPPDATA，因此不能自动管理 log.config。"@
}

/// A detected directory and how it was found, as text.
pub open spec fn detection_v(d: Option<(String, String)>) -> Option<(Seq<char>, Seq<char>)> {
    match d {
        Some(p) => Some((p.0@, p.1@)),
        None => None,
    }
}

/// `(path, exists, text)` of a `log.config` reading.
pub open spec fn log_read_v(l: Option<LogConfigRead>) -> Option<(Seq<char>, bool, Seq<char>)> {
    match l {
        Some(r) => Some((r.path@, r.exists, r.text@)),
        None => None,
    }
}

/// Whether the repair writes `log.config`.
pub open spec fn log_written(log: Option<(Seq<char>, bool, Seq<char>)>) -> bool {
    match log {
        Some(l) => log_config_fix(l.2) is Some,
        None => false,
    }
}

/// The notes of a repair, in the order they arise.
pub open spec fn repair_notes(
    configured: Seq<char>,
    detection: Option<(Seq<char>, Seq<char>)>,
    log: Option<(Seq<char>, bool, Seq<char>)>,
    running: bool,
) -> Seq<Seq<char>> {
    let found: Seq<Seq<char>> = match detection {
        Some(_) => Seq::empty(),
        None => if configured.len() > 0 {
            seq![unusable_dir_note(configured), not_found_note()]
        } else {
            seq![not_found_note()]
        },
    };
    let logs: Seq<Seq<char>> = match log {
        Some(_) => if log_written(log) && running {
            seq![restart_note()]
        } else {
            Seq::empty()
        },
        None => seq![no_local_app_data_note()],
    };
    found + logs
}

/// The status a repair leaves, before the Power log itself is looked at.
pub open spec fn repair_status_v(
    configured: Seq<char>,
    detection: Option<(Seq<char>, Seq<char>)>,
    log: Option<(Seq<char>, bool, Seq<char>)>,
    running: bool,
) -> EnvironmentStatusV {
    EnvironmentStatusV {
        hearthstone_dir: match detection {
            Some(d) => Some(d.0),
            None => None,
        },
        hearthstone_exe_found: detection is Some,
        detected_by: match detection {
            Some(d) => Some(d.1),
            None => None,
        },
        log_config_path: match log {
            Some(l) => Some(l.0),
            None => None,
        },
        log_config_exists: match log {
            Some(l) => l.1 || log_written(log),
            None => false,
        },
        power_logging_ready: match log {
            Some(l) => config_ready_v(l.2) || log_written(log),
            None => false,
        },
        restart_required: log_written(log) && running,
        notes: repair_notes(configured, detection, log, running),
        ..empty_status_v()
    }
}

fn copy_string(s: &String) -> (r: String)
    ensures
        r@ == s@,
{
    string_of(&chars_of(s.as_str()))
}

fn note(text: &str) -> (r: String)
    ensures
        r@ == text@,
{
    string_of(&chars_of(text))
}

/// Decides a repair of the environment from what was found: the configured
/// Hearthstone directory, the detected one with how it was found, what was
/// read of `log.config`, and whether Hearthstone is running. The directory
/// is saved when it differs from the configured one; `log.config` is written
/// when it does not switch Power logging on and the repair changes it; a
/// running client then has to restart.
pub fn plan_environment_repair(
    configured_dir: &str,
    detection: Option<(String, String)>,
    log_config: Option<LogConfigRead>,
    hearthstone_running: bool,
) -> (r: EnvironmentRepairPlan)
    ensures
        ({
            let det = detection_v(detection);
            let log = log_read_v(log_config);
            let new_dir = match det {
                Some(d) => if d.0 != configured_dir@ {
                    Some(d.0)
                } else {
                    None
                },
                None => None,
            };
            &&& r.result.status@ == repair_status_v(configured_dir@, det, log, hearthstone_running)
            &&& r.result.config_changed == (new_dir is Some)
            &&& opt_view(r.hearthstone_dir) == new_dir
            &&& r.result.log_config_changed == log_written(log)
            &&& r.result.restart_required == (log_written(log) && hearthstone_running)
            &&& opt_view(r.log_config_text) == match log {
                Some(l) => log_config_fix(l.2),
                None => None,
            }
        }),
{
    let ghost det = detection_v(detection);
    let ghost log = log_read_v(log_config);
    let mut status = EnvironmentStatus::default();
    let mut config_changed = false;
    let mut new_dir: Option<String> = None;
    match &detection {
        Some((dir, source)) => {
            let dc = chars_of(dir.as_str());
            let cc = chars_of(configured_dir);
            if !chars_eq(&dc, &cc) {
                config_changed = true;
                new_dir = Some(copy_string(dir));
            }
            status.hearthstone_dir = Some(copy_string(dir));
            status.hearthstone_exe_found = true;
            status.detected_by = Some(copy_string(source));
        },
        None => {
            if configured_dir.unicode_len() > 0 {
                let mut t = chars_of("配置中的炉石目录不可用：");
                push_str(&mut t, configured_dir);
                status.notes.push(string_of(&t));
            }
            status.notes.push(note("尚未找到 Hearthstone.exe；启动炉石后点击“自动检测并修复”即可再次检测。"));
        },
    }
    let ghost notes_found = strs_view(status.notes@);
    let mut log_config_changed = false;
    let mut restart_required = false;
    let mut write: Option<String> = None;
    match &log_config {
        Some(read) => {
            status.log_config_path = Some(copy_string(&read.path));
            status.log_config_exists = read.exists;
            status.power_logging_ready = power_log_config_ready(read.text.as_str());
            match log_config_repair(read.text.as_str()) {
                Some(text) => {
                    write = Some(text);
                    log_config_changed = true;
                    status.log_config_exists = true;
                    status.power_logging_ready = true;
                    restart_required = hearthstone_running;
                    status.restart_required = restart_required;
                    if restart_required {
                        status.notes.push(note("Power 日志配置刚刚被修复；炉石当前正在运行，请重启炉石后再开始对局。"));
                    }
                },
                None => {},
            }
        },
        None => {
            status.notes.push(note("无法解析 LOCALAPPDATA，因此不能自动管理 log.config。"));
        },
    }
    proof {
        let want = repair_notes(configured_dir@, det, log, hearthstone_running);
        assert(strs_view(status.notes@) =~= want);
        assert(status@ == repair_status_v(configured_dir@, det, log, hearthstone_running));
    }
    EnvironmentRepairPlan {
        result: EnvironmentRepairResult { status, config_changed, log_config_changed, restart_required },
        hearthstone_dir: new_dir,
        log_config_text: write,
    }
}

/// The status of the environment as found: the configured directory when it
/// holds the client (`saved`), else the detected one, else the configured
/// path as given; and what was read of `log.config`.
pub open spec fn inspect_status_v(
    configured: Seq<char>,
    saved: Option<Seq<char>>,
    detection: Option<(Seq<char>, Seq<char>)>,
    log: Option<(Seq<char>, bool, Seq<char>)>,
) -> EnvironmentStatusV {
    EnvironmentStatusV {
        hearthstone_dir: match saved {
            Some(d) => Some(d),
            None => match detection {
                Some(d) => Some(d.0),
                None => if configured.len() > 0 {
                    Some(configured)
                } else {
                    None
                },
            },
        },
        hearthstone_exe_found: saved is Some || detection is Some,
        detected_by: match saved {
            Some(_) => Some("saved config"@),
            None => match detection {
                Some(d) => Some(d.1),
                None => None,
            },
        },
        log_config_path: match log {
            Some(l) => Some(l.0),
            None => None,
        },
        log_config_exists: match log {
            Some(l) => l.1,
            None => false,
        },
        power_logging_ready: match log {
            Some(l) => config_ready_v(l.2),
            None => false,
        },
        ..empty_status_v()
    }
}

/// The environment status from what was found; `detection` is only read when
/// the configured directory does not hold the client.
pub fn environment_status_from(
    configured_dir: &str,
    saved: Option<String>,
    detection: Option<(String, String)>,
    log_config: Option<LogConfigRead>,
) -> (r: EnvironmentStatus)
    ensures
        r@ == inspect_status_v(
            configured_dir@,
            opt_view(saved),
            detection_v(detection),
            log_read_v(log_config),
        ),
{
    let mut status = EnvironmentStatus::default();
    match saved {
        Some(dir) => {
            status.hearthstone_dir = Some(dir);
            status.hearthstone_exe_found = true;
            status.detected_by = Some(note("saved config"));
        },
        None => match detection {
            Some((dir, source)) => {
                status.hearthstone_dir = Some(dir);
                status.hearthstone_exe_found = true;
                status.detected_by = Some(source);
            },
            None => {
                if configured_dir.unicode_len() > 0 {
                    status.hearthstone_dir = Some(string_of(&chars_of(configured_dir)));
                }
            },
        },
    }
    match log_config {
        Some(read) => {
            status.power_logging_ready = power_log_config_ready(read.text.as_str());
            status.log_config_exists = read.exists;
            status.log_config_path = Some(read.path);
        },
        None => {},
    }
    status
}

} // verus!
