//! What the in-game overlay shows, as text: labels, wrapping, the chat
//! transcript, and the PNG clean-up applied to card art before decoding;
//! and the panel's geometry and highlight colours.
use vstd::prelude::*;

use crate::demo::model::{ChatMessage, UpgradePosture};
use crate::harness::archive::ChoiceKind;
use crate::text::{
    chars_eq, chars_of, contains, contains_chars, eq_ignore_ascii_case, eq_ignore_case, lower_chars, lower_seq,
    push_str, string_of, trim, trim_chars, upper_chars, upper_seq,
};

verus! {

/// Rank of a watch priority for sorting: `S` first, then `A`, then the rest.
pub open spec fn priority_rank_v(p: Seq<char>) -> u8 {
    let t = upper_seq(trim(p));
    if t == "S"@ {
        0
    } else if t == "A"@ {
        1
    } else {
        2
    }
}

pub fn priority_rank(priority: &str) -> (r: u8)
    ensures
        r == priority_rank_v(priority@),
{
    let t = upper_chars(&trim_chars(&chars_of(priority)));
    if chars_eq(&t, &chars_of("S")) {
        0
    } else if chars_eq(&t, &chars_of("A")) {
        1
    } else {
        2
    }
}

pub open spec fn posture_cn_v(p: UpgradePosture) -> Seq<char> {
    match p {
        UpgradePosture::Prefer => "优先"@,
        UpgradePosture::Neutral => "中性"@,
        UpgradePosture::Delay => "延后"@,
    }
}

pub fn upgrade_posture_cn(posture: UpgradePosture) -> (r: &'static str)
    ensures
        r@ == posture_cn_v(posture),
{
    match posture {
        UpgradePosture::Prefer => "优先",
        UpgradePosture::Neutral => "中性",
        UpgradePosture::Delay => "延后",
    }
}

pub open spec fn choice_kind_cn_v(k: ChoiceKind) -> Seq<char> {
    match k {
        ChoiceKind::Hero => "英雄选择"@,
        ChoiceKind::Trinket => "饰品选择"@,
        ChoiceKind::DarkGift => "黑暗赠礼"@,
        ChoiceKind::Discover => "发现/选择"@,
        ChoiceKind::Other => "特殊选择"@,
    }
}

pub fn choice_kind_cn(kind: &ChoiceKind) -> (r: &'static str)
    ensures
        r@ == choice_kind_cn_v(*kind),
{
    match kind {
        ChoiceKind::Hero => "英雄选择",
        ChoiceKind::Trinket => "饰品选择",
        ChoiceKind::DarkGift => "黑暗赠礼",
        ChoiceKind::Discover => "发现/选择",
        ChoiceKind::Other => "特殊选择",
    }
}

pub open spec fn stage_cn_v(stage: Seq<char>) -> Seq<char> {
    if stage == "early"@ {
        "前期"@
    } else if stage == "mid"@ {
        "中期"@
    } else if stage == "late"@ {
        "后期"@
    } else {
        "未知阶段"@
    }
}

pub fn stage_cn(stage: &str) -> (r: &'static str)
    ensures
        r@ == stage_cn_v(stage@),
{
    let s = chars_of(stage);
    if chars_eq(&s, &chars_of("early")) {
        "前期"
    } else if chars_eq(&s, &chars_of("mid")) {
        "中期"
    } else if chars_eq(&s, &chars_of("late")) {
        "后期"
    } else {
        "未知阶段"
    }
}

pub open spec fn phase_cn_v(phase: Seq<char>) -> Seq<char> {
    if eq_ignore_case(phase, "Recruit"@) {
        "购买阶段"@
    } else if eq_ignore_case(phase, "Combat"@) {
        "战斗阶段"@
    } else if eq_ignore_case(phase, "Complete"@) {
        "已结束"@
    } else {
        "准备阶段"@
    }
}

pub fn phase_cn(phase: &str) -> (r: &'static str)
    ensures
        r@ == phase_cn_v(phase@),
{
    let p = chars_of(phase);
    if eq_ignore_ascii_case(&p, &chars_of("Recruit")) {
        "购买阶段"
    } else if eq_ignore_ascii_case(&p, &chars_of("Combat")) {
        "战斗阶段"
    } else if eq_ignore_ascii_case(&p, &chars_of("Complete")) {
        "已结束"
    } else {
        "准备阶段"
    }
}

/// The Chinese name of a tribe; an unknown tribe keeps its trimmed,
/// upper-cased name.
pub open spec fn tribe_cn_v(tribe: Seq<char>) -> Seq<char> {
    let t = upper_seq(trim(tribe));
    if t == "BEAST"@ {
        "野兽"@
    } else if t == "DEMON"@ {
        "恶魔"@
    } else if t == "DRAGON"@ {
        "龙"@
    } else if t == "ELEMENTAL"@ || t == "ELEMENTALS"@ {
        "元素"@
    } else if t == "MECH"@ || t == "MECHANICAL"@ {
        "机械"@
    } else if t == "MURLOC"@ {
        "鱼人"@
    } else if t == "NAGA"@ {
        "纳迦"@
    } else if t == "PIRATE"@ {
        "海盗"@
    } else if t == "QUILLBOAR"@ || t == "QUILBOAR"@ {
        "野猪人"@
    } else if t == "UNDEAD"@ {
        "亡灵"@
    } else {
        t
    }
}

fn is(t: &Vec<char>, s: &str) -> (r: bool)
    ensures
        r == (t@ == s@),
{
    chars_eq(t, &chars_of(s))
}

pub fn tribe_cn(tribe: &str) -> (r: String)
    ensures
        r@ == tribe_cn_v(tribe@),
{
    let t = upper_chars(&trim_chars(&chars_of(tribe)));
    let name = if is(&t, "BEAST") {
        "野兽"
    } else if is(&t, "DEMON") {
        "恶魔"
    } else if is(&t, "DRAGON") {
        "龙"
    } else if is(&t, "ELEMENTAL") || is(&t, "ELEMENTALS") {
        "元素"
    } else if is(&t, "MECH") || is(&t, "MECHANICAL") {
        "机械"
    } else if is(&t, "MURLOC") {
        "鱼人"
    } else if is(&t, "NAGA") {
        "纳迦"
    } else if is(&t, "PIRATE") {
        "海盗"
    } else if is(&t, "QUILLBOAR") || is(&t, "QUILBOAR") {
        "野猪人"
    } else if is(&t, "UNDEAD") {
        "亡灵"
    } else {
        return string_of(&t);
    };
    string_of(&chars_of(name))
}

/// The state of line wrapping after a prefix of the text: the finished lines,
/// the line being filled and how many characters it holds.
pub struct WrapState {
    pub lines: Seq<Seq<char>>,
    pub current: Seq<char>,
    pub count: nat,
}

/// One character of wrapping: a newline, or a full line, closes the current
/// line (when it is not empty); a newline itself is dropped.
pub open spec fn wrap_step(st: WrapState, ch: char, width: nat) -> WrapState {
    if ch == '\n' || st.count >= width {
        let lines = if st.current.len() > 0 {
            st.lines.push(st.current)
        } else {
            st.lines
        };
        if ch == '\n' {
            WrapState { lines, current: Seq::empty(), count: 0 }
        } else {
            WrapState { lines, current: seq![ch], count: 1 }
        }
    } else {
        WrapState { lines: st.lines, current: st.current.push(ch), count: st.count + 1 }
    }
}

pub open spec fn wrap_fold(s: Seq<char>, width: nat) -> WrapState
    decreases s.len(),
{
    if s.len() == 0 {
        WrapState { lines: Seq::empty(), current: Seq::empty(), count: 0 }
    } else {
        wrap_step(wrap_fold(s.drop_last(), width), s.last(), width)
    }
}

/// The text cut into lines of at most `width` characters at newlines and
/// wherever a line is full; at least one (possibly empty) line.
pub open spec fn wrapped_v(s: Seq<char>, width: nat) -> Seq<Seq<char>> {
    let st = wrap_fold(s, width);
    let lines = if st.current.len() > 0 {
        st.lines.push(st.current)
    } else {
        st.lines
    };
    if lines.len() == 0 {
        seq![Seq::empty()]
    } else {
        lines
    }
}

proof fn lemma_wrap_count(s: Seq<char>, width: nat)
    ensures
        wrap_fold(s, width).count <= s.len(),
        wrap_fold(s, width).count == wrap_fold(s, width).current.len(),
    decreases s.len(),
{
    if s.len() > 0 {
        lemma_wrap_count(s.drop_last(), width);
    }
}

proof fn lemma_wrap_fold_fits(s: Seq<char>, width: nat)
    requires
        width > 0,
    ensures
        wrap_fold(s, width).count == wrap_fold(s, width).current.len(),
        wrap_fold(s, width).current.len() <= width,
        !wrap_fold(s, width).current.contains('\n'),
        forall|i: int|
            0 <= i < wrap_fold(s, width).lines.len() ==> (#[trigger] wrap_fold(s, width).lines[i]).len() <= width
                && wrap_fold(s, width).lines[i].len() > 0 && !wrap_fold(s, width).lines[i].contains('\n'),
    decreases s.len(),
{
    if s.len() > 0 {
        lemma_wrap_fold_fits(s.drop_last(), width);
        let st = wrap_fold(s.drop_last(), width);
        let ch = s.last();
        if !(ch == '\n' || st.count >= width) {
            assert forall|k: int| 0 <= k < st.current.push(ch).len() implies st.current.push(ch)[k] != '\n' by {
                if k < st.current.len() {
                    assert(st.current.push(ch)[k] == st.current[k]);
                }
            }
        } else if ch != '\n' {
            assert(seq![ch].len() == 1);
            assert forall|k: int| 0 <= k < seq![ch].len() implies seq![ch][k] != '\n' by {}
        }
    }
}

/// Every wrapped line holds at most `width` characters and no newline; only
/// an empty text gives an empty line.
pub proof fn lemma_wrapped_lines_fit(s: Seq<char>, width: nat)
    requires
        width > 0,
    ensures
        forall|i: int|
            0 <= i < wrapped_v(s, width).len() ==> (#[trigger] wrapped_v(s, width)[i]).len() <= width
                && !wrapped_v(s, width)[i].contains('\n'),
        wrapped_v(s, width).len() >= 1,
{
    lemma_wrap_fold_fits(s, width);
    let st = wrap_fold(s, width);
    if st.current.len() > 0 {
        assert forall|i: int| 0 <= i < st.lines.push(st.current).len() implies (#[trigger] st.lines.push(
            st.current,
        )[i]).len() <= width && !st.lines.push(st.current)[i].contains('\n') by {
            if i < st.lines.len() {
                assert(st.lines.push(st.current)[i] == st.lines[i]);
            }
        }
    }
}

/// A truncated text is never longer than the limit (when it allows a
/// character at all).
pub proof fn lemma_truncated_fits(s: Seq<char>, max: nat)
    requires
        max >= 1,
    ensures
        truncated_v(s, max).len() <= max,
        s.len() <= max ==> truncated_v(s, max) == s,
{
}

pub open spec fn strings_view(v: Seq<String>) -> Seq<Seq<char>> {
    v.map_values(|s: String| s@)
}

pub fn wrap_chars(text: &str, width: usize) -> (r: Vec<String>)
    ensures
        strings_view(r@) == wrapped_v(text@, width as nat),
{
    let s = chars_of(text);
    let mut lines: Vec<String> = Vec::new();
    let mut current: Vec<char> = Vec::new();
    let mut count: usize = 0;
    let mut i: usize = 0;
    while i < s.len()
        invariant
            i <= s@.len(),
            s@ == text@,
            strings_view(lines@) == wrap_fold(s@.take(i as int), width as nat).lines,
            current@ == wrap_fold(s@.take(i as int), width as nat).current,
            count == wrap_fold(s@.take(i as int), width as nat).count,
        decreases s@.len() - i,
    {
        let ghost pre = s@.take(i as int);
        assert(s@.take(i + 1).drop_last() =~= pre);
        proof {
            lemma_wrap_count(pre, width as nat);
        }
        let ch = s[i];
        if ch == '\n' || count >= width {
            if current.len() > 0 {
                let ghost before = strings_view(lines@);
                lines.push(string_of(&current));
                assert(strings_view(lines@) =~= before.push(current@));
            }
            current = Vec::new();
            count = 0;
            if ch != '\n' {
                current.push(ch);
                count = 1;
                assert(current@ =~= seq![ch]);
            }
        } else {
            current.push(ch);
            count = count + 1;
        }
        i += 1;
    }
    assert(s@.take(i as int) =~= text@);
    if current.len() > 0 {
        let ghost before = strings_view(lines@);
        lines.push(string_of(&current));
        assert(strings_view(lines@) =~= before.push(current@));
    }
    if lines.len() == 0 {
        lines.push(String::new());
        assert(strings_view(lines@) =~= seq![Seq::<char>::empty()]);
    }
    lines
}

/// The text if it has at most `max` characters; else its first `max - 1`
/// (none when `max` is 0) and an ellipsis.
pub open spec fn truncated_v(s: Seq<char>, max: nat) -> Seq<char> {
    if s.len() <= max {
        s
    } else if max == 0 {
        seq!['…']
    } else {
        s.take(max - 1).push('…')
    }
}

pub fn truncate_chars(text: &str, max: usize) -> (r: String)
    ensures
        r@ == truncated_v(text@, max as nat),
{
    let s = chars_of(text);
    if s.len() <= max {
        return string_of(&s);
    }
    let keep: usize = if max == 0 {
        0
    } else {
        max - 1
    };
    let mut out: Vec<char> = Vec::new();
    let mut i: usize = 0;
    while i < keep
        invariant
            i <= keep,
            keep < s@.len(),
            out@ == s@.take(i as int),
        decreases keep - i,
    {
        out.push(s[i]);
        assert(s@.take(i + 1) =~= s@.take(i as int).push(s@[i as int]));
        i += 1;
    }
    out.push('…');
    proof {
        if max == 0 {
            assert(out@ =~= seq!['…']);
        }
    }
    string_of(&out)
}

/// Every LF turned into CRLF.
pub open spec fn lf_to_crlf(s: Seq<char>) -> Seq<char>
    decreases s.len(),
{
    if s.len() == 0 {
        s
    } else if s.last() == '\n' {
        lf_to_crlf(s.drop_last()) + "\r\n"@
    } else {
        lf_to_crlf(s.drop_last()).push(s.last())
    }
}

/// How a chat message is shown: the speaker's heading, then the content.
pub open spec fn chat_entry_v(m: ChatMessage) -> Seq<char> {
    let heading = if m.role@ == "user"@ {
        "你：\r\n"@
    } else if m.plan_changed {
        "AI [已修改目标]：\r\n"@
    } else {
        "AI：\r\n"@
    };
    heading + lf_to_crlf(m.content@)
}

/// The chat shown as one text, entries separated by a blank line.
pub open spec fn transcript_v(ms: Seq<ChatMessage>) -> Seq<char>
    decreases ms.len(),
{
    if ms.len() == 0 {
        Seq::empty()
    } else {
        let p = transcript_v(ms.drop_last());
        (if p.len() > 0 {
            p + "\r\n\r\n"@
        } else {
            p
        }) + chat_entry_v(ms.last())
    }
}

fn push_crlf_content(out: &mut Vec<char>, content: &str)
    ensures
        final(out)@ == old(out)@ + lf_to_crlf(content@),
{
    let c = chars_of(content);
    let ghost base = out@;
    let mut i: usize = 0;
    while i < c.len()
        invariant
            i <= c@.len(),
            c@ == content@,
            out@ == base + lf_to_crlf(c@.take(i as int)),
        decreases c@.len() - i,
    {
        let ghost t = c@.take(i + 1);
        assert(t.drop_last() =~= c@.take(i as int));
        if c[i] == '\n' {
            push_str(out, "\r\n");
            assert(out@ =~= base + lf_to_crlf(t));
        } else {
            out.push(c[i]);
            assert(out@ =~= base + lf_to_crlf(t));
        }
        i += 1;
    }
    assert(c@.take(i as int) =~= c@);
}

pub fn chat_transcript(messages: &[ChatMessage]) -> (r: String)
    ensures
        r@ == transcript_v(messages@),
{
    let mut out: Vec<char> = Vec::new();
    let mut i: usize = 0;
    while i < messages.len()
        invariant
            i <= messages@.len(),
            out@ == transcript_v(messages@.take(i as int)),
        decreases messages@.len() - i,
    {
        let ghost t = messages@.take(i + 1);
        assert(t.drop_last() =~= messages@.take(i as int));
        let ghost p = out@;
        if out.len() > 0 {
            push_str(&mut out, "\r\n\r\n");
        }
        let ghost q = out@;
        let m = &messages[i];
        if chars_eq(&chars_of(m.role.as_str()), &chars_of("user")) {
            push_str(&mut out, "你：\r\n");
        } else if m.plan_changed {
            push_str(&mut out, "AI [已修改目标]：\r\n");
        } else {
            push_str(&mut out, "AI：\r\n");
        }
        push_crlf_content(&mut out, m.content.as_str());
        assert(t.last() == *m);
        assert(out@ =~= transcript_v(t));
        i += 1;
    }
    assert(messages@.take(i as int) =~= messages@);
    string_of(&out)
}

/// How strongly a card-art file is preferred (smaller first): by extension,
/// then by the art folder it sits in, then by its lower-cased path.
pub open spec fn art_preference_v(extension: Seq<char>, path: Seq<char>) -> (u8, u8, Seq<char>) {
    let ext = lower_seq(extension);
    let lower = lower_seq(path);
    let ext_rank: u8 = if ext == "jpg"@ || ext == "jpeg"@ {
        0
    } else if ext == "webp"@ {
        1
    } else if ext == "png"@ {
        2
    } else {
        3
    };
    let folder_rank: u8 = if contains(lower, "cardportraits"@) {
        0
    } else if contains(lower, "cardtiles"@) {
        1
    } else if contains(lower, "cardimages"@) {
        2
    } else {
        3
    };
    (ext_rank, folder_rank, lower)
}

/// Takes the file's extension (empty when it has none) and its path as text.
pub fn card_art_preference(extension: &str, path: &str) -> (r: (u8, u8, String))
    ensures
        (r.0, r.1, r.2@) == art_preference_v(extension@, path@),
{
    let ext = lower_chars(&chars_of(extension));
    let lower = lower_chars(&chars_of(path));
    let ext_rank: u8 = if is(&ext, "jpg") || is(&ext, "jpeg") {
        0
    } else if is(&ext, "webp") {
        1
    } else if is(&ext, "png") {
        2
    } else {
        3
    };
    let folder_rank: u8 = if contains_chars(&lower, &chars_of("cardportraits")) {
        0
    } else if contains_chars(&lower, &chars_of("cardtiles")) {
        1
    } else if contains_chars(&lower, &chars_of("cardimages")) {
        2
    } else {
        3
    };
    (ext_rank, folder_rank, string_of(&lower))
}


/// The eight bytes every PNG file starts with.
pub open spec fn png_signature() -> Seq<u8> {
    seq![0x89u8, 0x50u8, 0x4eu8, 0x47u8, 0x0du8, 0x0au8, 0x1au8, 0x0au8]
}

/// The big-endian 32-bit number at `at`.
pub open spec fn be_u32_at(b: Seq<u8>, at: int) -> int {
    b[at] * 0x1000000 + b[at + 1] * 0x10000 + b[at + 2] * 0x100 + b[at + 3]
}

/// Chunk type `iCCP`.
pub open spec fn is_iccp(b: Seq<u8>, at: int) -> bool {
    b[at] == 0x69u8 && b[at + 1] == 0x43u8 && b[at + 2] == 0x43u8 && b[at + 3] == 0x50u8
}

/// Chunk type `IEND`.
pub open spec fn is_iend(b: Seq<u8>, at: int) -> bool {
    b[at] == 0x49u8 && b[at + 1] == 0x45u8 && b[at + 2] == 0x4eu8 && b[at + 3] == 0x44u8
}

/// The chunks from `at` on, without their `iCCP` chunks, and whether one was
/// dropped (or `dropped` already). A chunk is its length, type, data and CRC;
/// `IEND` ends the walk, and bytes that do not make a whole chunk header are
/// kept as they are. `None` when a chunk runs past the end.
pub open spec fn strip_chunks(b: Seq<u8>, at: int, dropped: bool) -> Option<(Seq<u8>, bool)>
    decreases b.len() - at,
{
    if at < 0 || at + 12 > b.len() {
        Some((if 0 <= at < b.len() {
            b.skip(at)
        } else {
            Seq::empty()
        }, dropped))
    } else {
        let end = at + 12 + be_u32_at(b, at);
        if end > b.len() {
            None
        } else {
            let iccp = is_iccp(b, at + 4);
            let piece = if iccp {
                Seq::empty()
            } else {
                b.subrange(at, end)
            };
            let now_dropped = dropped || iccp;
            if is_iend(b, at + 4) {
                Some((piece + b.skip(end), now_dropped))
            } else {
                match strip_chunks(b, end, now_dropped) {
                    Some((rest, d)) => Some((piece + rest, d)),
                    None => None,
                }
            }
        }
    }
}

/// A PNG without its embedded colour profile (`iCCP`) chunks, for decoders
/// that reject broken profiles. `None` when the bytes are not a PNG, a chunk
/// is cut short, or there is no profile to drop.
pub open spec fn strip_iccp_v(b: Seq<u8>) -> Option<Seq<u8>> {
    if b.len() < 8 || b.take(8) != png_signature() {
        None
    } else {
        match strip_chunks(b, 8, false) {
            Some((rest, true)) => Some(png_signature() + rest),
            _ => None,
        }
    }
}

proof fn lemma_strip_chunks_len(b: Seq<u8>, at: int, dropped: bool)
    requires
        0 <= at <= b.len(),
    ensures
        strip_chunks(b, at, dropped) matches Some((rest, d)) ==> rest.len() <= b.len() - at && (d && !dropped
            ==> rest.len() + 12 <= b.len() - at),
    decreases b.len() - at,
{
    if at + 12 <= b.len() {
        let end = at + 12 + be_u32_at(b, at);
        lemma_be_u32_bound(b, at);
        if end <= b.len() && !is_iend(b, at + 4) {
            let iccp = is_iccp(b, at + 4);
            lemma_strip_chunks_len(b, end, dropped || iccp);
        }
    }
}

/// Dropping the colour profile leaves a PNG that is shorter by at least one
/// whole chunk.
pub proof fn lemma_stripped_png_is_shorter(b: Seq<u8>)
    ensures
        strip_iccp_v(b) matches Some(out) ==> out.len() + 12 <= b.len() && out.take(8) == png_signature(),
{
    if b.len() >= 8 && b.take(8) == png_signature() {
        lemma_strip_chunks_len(b, 8, false);
        if let Some((rest, true)) = strip_chunks(b, 8, false) {
            assert((png_signature() + rest).take(8) =~= png_signature());
        }
    }
}

proof fn lemma_be_u32_bound(b: Seq<u8>, at: int)
    requires
        0 <= at && at + 4 <= b.len(),
    ensures
        0 <= be_u32_at(b, at) <= 0xffff_ffff,
{
}

fn append_bytes(out: &mut Vec<u8>, b: &[u8], lo: usize, hi: usize)
    requires
        lo <= hi <= b@.len(),
    ensures
        final(out)@ == old(out)@ + b@.subrange(lo as int, hi as int),
{
    let ghost base = out@;
    let mut i: usize = lo;
    while i < hi
        invariant
            lo <= i <= hi,
            hi <= b@.len(),
            out@ == base + b@.subrange(lo as int, i as int),
        decreases hi - i,
    {
        out.push(b[i]);
        assert(b@.subrange(lo as int, i + 1) =~= b@.subrange(lo as int, i as int).push(b@[i as int]));
        i += 1;
    }
}

pub fn strip_png_iccp_chunk(bytes: &[u8]) -> (r: Option<Vec<u8>>)
    ensures
        match r {
            Some(v) => strip_iccp_v(bytes@) == Some(v@),
            None => strip_iccp_v(bytes@) is None,
        },
{
    let n = bytes.len();
    if n < 8 || !(bytes[0] == 0x89 && bytes[1] == 0x50 && bytes[2] == 0x4e && bytes[3] == 0x47 && bytes[4] == 0x0d
        && bytes[5] == 0x0a && bytes[6] == 0x1a && bytes[7] == 0x0a) {
        proof {
            if n >= 8 && bytes@.take(8) == png_signature() {
                assert(bytes@.take(8)[0] == bytes@[0]);
                assert(bytes@.take(8)[1] == bytes@[1]);
                assert(bytes@.take(8)[2] == bytes@[2]);
                assert(bytes@.take(8)[3] == bytes@[3]);
                assert(bytes@.take(8)[4] == bytes@[4]);
                assert(bytes@.take(8)[5] == bytes@[5]);
                assert(bytes@.take(8)[6] == bytes@[6]);
                assert(bytes@.take(8)[7] == bytes@[7]);
            }
        }
        return None;
    }
    assert(bytes@.take(8) =~= png_signature());
    let mut out: Vec<u8> = Vec::new();
    append_bytes(&mut out, bytes, 0, 8);
    assert(out@ =~= png_signature());
    let mut offset: usize = 8;
    let mut removed = false;
    let ghost total = strip_chunks(bytes@, 8, false);
    loop
        invariant_except_break
            8 <= offset <= n,
            n == bytes@.len(),
            total == strip_chunks(bytes@, 8, false),
            total == match strip_chunks(bytes@, offset as int, removed) {
                Some((rest, d)) => Some((out@.skip(8) + rest, d)),
                None => None,
            },
            out@.len() >= 8,
            out@.take(8) == png_signature(),
        ensures
            8 <= offset <= n,
            out@.len() >= 8,
            out@.take(8) == png_signature(),
            total == strip_chunks(bytes@, 8, false),
            total == Some((out@.skip(8) + (if offset < n {
                bytes@.skip(offset as int)
            } else {
                Seq::empty()
            }), removed)),
        decreases n - offset,
    {
        if n - offset < 12 {
            break;
        }
        proof {
            lemma_be_u32_bound(bytes@, offset as int);
        }
        let len: u64 = (bytes[offset] as u64) * 0x1000000 + (bytes[offset + 1] as u64) * 0x10000
            + (bytes[offset + 2] as u64) * 0x100 + (bytes[offset + 3] as u64);
        assert(len == be_u32_at(bytes@, offset as int));
        if len > (n - offset - 12) as u64 {
            assert(strip_chunks(bytes@, offset as int, removed) is None);
            return None;
        }
        let chunk_end: usize = offset + 12 + len as usize;
        let iccp = bytes[offset + 4] == 0x69 && bytes[offset + 5] == 0x43 && bytes[offset + 6] == 0x43
            && bytes[offset + 7] == 0x50;
        let iend = bytes[offset + 4] == 0x49 && bytes[offset + 5] == 0x45 && bytes[offset + 6] == 0x4e
            && bytes[offset + 7] == 0x44;
        let ghost before = out@;
        if iccp {
            removed = true;
        } else {
            append_bytes(&mut out, bytes, offset, chunk_end);
        }
        let ghost piece = if iccp {
            Seq::<u8>::empty()
        } else {
            bytes@.subrange(offset as int, chunk_end as int)
        };
        assert(out@ =~= before + piece);
        assert(out@.take(8) =~= before.take(8));
        assert(out@.skip(8) =~= before.skip(8) + piece);
        offset = chunk_end;
        if iend {
            assert(total == Some((out@.skip(8) + (if offset < n {
                bytes@.skip(offset as int)
            } else {
                Seq::<u8>::empty()
            }), removed))) by {
                if offset >= n {
                    assert(bytes@.skip(offset as int) =~= Seq::<u8>::empty());
                }
            }
            break;
        }
    }
    if !removed {
        return None;
    }
    if offset < n {
        append_bytes(&mut out, bytes, offset, n);
        assert(bytes@.subrange(offset as int, n as int) =~= bytes@.skip(offset as int));
    }
    assert(png_signature() + out@.skip(8) =~= out@);
    Some(out)
}

/// A screen rectangle in pixels: left and top inclusive, right and bottom
/// exclusive.
#[derive(Debug, Clone, Copy, PartialEq, Eq, Structural)]
pub struct UiRect {
    pub left: i32,
    pub top: i32,
    pub right: i32,
    pub bottom: i32,
}

impl UiRect {
    /// Whether the point lies in the rectangle.
    pub fn contains(self, x: i32, y: i32) -> (r: bool)
        ensures
            r == (x >= self.left && x < self.right && y >= self.top && y < self.bottom),
    {
        x >= self.left && x < self.right && y >= self.top && y < self.bottom
    }
}

/// A side of at least one pixel.
pub open spec fn side_v(lo: i32, hi: i32) -> int {
    if hi - lo > 1 {
        hi - lo
    } else {
        1
    }
}

/// `v` held between `lo` and `hi`.
pub open spec fn clamp_v(v: int, lo: int, hi: int) -> int {
    if v < lo {
        lo
    } else if v > hi {
        hi
    } else {
        v
    }
}

/// Where a panel lands inside the game window: its size kept (at least one
/// pixel each way), moved just far enough to lie inside the window, and to
/// the window's left/top edge when it is larger than the window.
pub open spec fn clamped_panel_v(rect: UiRect, game: UiRect) -> (int, int, int, int) {
    let w = side_v(rect.left, rect.right);
    let h = side_v(rect.top, rect.bottom);
    let max_left = if game.right - w > game.left {
        game.right - w
    } else {
        game.left as int
    };
    let max_top = if game.bottom - h > game.top {
        game.bottom - h
    } else {
        game.top as int
    };
    let left = clamp_v(rect.left as int, game.left as int, max_left);
    let top = clamp_v(rect.top as int, game.top as int, max_top);
    (left, top, left + w, top + h)
}

/// The coordinates that `clamp_panel_rect` computes fit in `i32`.
pub open spec fn panel_fits_i32(rect: UiRect, game: UiRect) -> bool {
    let w = side_v(rect.left, rect.right);
    let h = side_v(rect.top, rect.bottom);
    &&& i32::MIN <= rect.right - rect.left <= i32::MAX
    &&& i32::MIN <= rect.bottom - rect.top <= i32::MAX
    &&& game.right - w >= i32::MIN
    &&& game.bottom - h >= i32::MIN
    &&& game.left + w <= i32::MAX
    &&& game.top + h <= i32::MAX
}

/// Keeps a panel inside the game window; see `clamped_panel_v`.
pub fn clamp_panel_rect(rect: UiRect, game_rect: UiRect) -> (r: UiRect)
    requires
        panel_fits_i32(rect, game_rect),
    ensures
        (r.left as int, r.top as int, r.right as int, r.bottom as int) == clamped_panel_v(rect, game_rect),
        r.right - r.left == side_v(rect.left, rect.right),
        r.bottom - r.top == side_v(rect.top, rect.bottom),
        side_v(rect.left, rect.right) <= game_rect.right - game_rect.left ==> game_rect.left <= r.left
            && r.right <= game_rect.right,
        side_v(rect.top, rect.bottom) <= game_rect.bottom - game_rect.top ==> game_rect.top <= r.top
            && r.bottom <= game_rect.bottom,
{
    let width = if rect.right - rect.left > 1 {
        rect.right - rect.left
    } else {
        1
    };
    let height = if rect.bottom - rect.top > 1 {
        rect.bottom - rect.top
    } else {
        1
    };
    let max_left = if game_rect.right - width > game_rect.left {
        game_rect.right - width
    } else {
        game_rect.left
    };
    let max_top = if game_rect.bottom - height > game_rect.top {
        game_rect.bottom - height
    } else {
        game_rect.top
    };
    let left = if rect.left < game_rect.left {
        game_rect.left
    } else if rect.left > max_left {
        max_left
    } else {
        rect.left
    };
    let top = if rect.top < game_rect.top {
        game_rect.top
    } else if rect.top > max_top {
        max_top
    } else {
        rect.top
    };
    UiRect { left, top, right: left + width, bottom: top + height }
}

/// The panel's resize grip: its bottom-right 24 by 24 pixels.
pub fn panel_resize_handle(width: i32, height: i32) -> (r: UiRect)
    requires
        width >= i32::MIN + 24,
        height >= i32::MIN + 24,
    ensures
        r.left == (if width - 24 > 0 {
            width - 24
        } else {
            0
        }),
        r.top == (if height - 24 > 0 {
            height - 24
        } else {
            0
        }),
        r.right == width,
        r.bottom == height,
{
    UiRect {
        left: if width - 24 > 0 {
            width - 24
        } else {
            0
        },
        top: if height - 24 > 0 {
            height - 24
        } else {
            0
        },
        right: width,
        bottom: height,
    }
}

/// A Win32 `COLORREF`: red in the low byte, then green, then blue.
pub fn rgb(r: u8, g: u8, b: u8) -> (c: u32)
    ensures
        c == r + 256 * g + 65536 * b,
{
    r as u32 + 256 * (g as u32) + 65536 * (b as u32)
}

/// The highlight colour of a watch priority: red for `S`, amber for `A`,
/// blue for the rest.
pub fn priority_color(priority: &str) -> (c: u32)
    ensures
        c == match priority_rank_v(priority@) {
            0 => 255 + 256 * 74 + 65536 * 74,
            1 => 255 + 256 * 190 + 65536 * 46,
            _ => 80 + 256 * 207 + 65536 * 255,
        },
{
    match priority_rank(priority) {
        0 => rgb(255, 74, 74),
        1 => rgb(255, 190, 46),
        _ => rgb(80, 207, 255),
    }
}

} // verus!
