//! Decisions of the Power.log watcher: where an unfinished match starts in a
//! log, and the tribe list given on the command line.
use vstd::prelude::*;

use crate::harness::card_catalog::{normalize_tribe_chars, spec_normalize_tribe};
use crate::text::{
    lemma_lex_asym, lemma_lex_total, lemma_lex_trans, lex_less, lex_lt, chars_eq, chars_of, contains, contains_chars, find, find_exec, set_insert, starts_with, starts_with_exec,
    strictly_sorted, string_of, strs_view, subrange, trim, trim_chars,
};

verus! {

/// What follows the first `GameState.DebugPrintPower() - ` of a line, trimmed.
pub open spec fn power_payload(line: Seq<char>) -> Option<Seq<char>> {
    let marker = "GameState.DebugPrintPower() - "@;
    match find(line, marker) {
        Some(i) => Some(trim(line.skip(i + marker.len()))),
        None => None,
    }
}

pub open spec fn starts_game(p: Seq<char>) -> bool {
    p == "CREATE_GAME"@ || starts_with(p, "CREATE_GAME "@)
}

pub open spec fn completes_game(p: Seq<char>) -> bool {
    starts_with(p, "TAG_CHANGE Entity=GameEntity"@) && contains(p, " tag=STATE "@) && contains(p, " value=COMPLETE"@)
}

/// The offset of the last line whose payload satisfies `starts` (when
/// `starts`) or `completes_game` (otherwise).
pub open spec fn last_marked(lines: Seq<(u64, String)>, starts: bool) -> Option<u64>
    decreases lines.len(),
{
    if lines.len() == 0 {
        None
    } else {
        let (offset, line) = lines.last();
        let hit = match power_payload(line@) {
            Some(p) => if starts {
                starts_game(p)
            } else {
                completes_game(p)
            },
            None => false,
        };
        if hit {
            Some(offset)
        } else {
            last_marked(lines.drop_last(), starts)
        }
    }
}

/// Where to resume reading: the newest `CREATE_GAME` that no later
/// `STATE=COMPLETE` closed.
pub open spec fn match_start_v(lines: Seq<(u64, String)>) -> Option<u64> {
    match (last_marked(lines, true), last_marked(lines, false)) {
        (Some(c), Some(d)) => if c > d {
            Some(c)
        } else {
            None
        },
        (Some(c), None) => Some(c),
        _ => None,
    }
}

fn payload_of(line: &str) -> (r: Option<Vec<char>>)
    ensures
        match r {
            Some(p) => power_payload(line@) == Some(p@),
            None => power_payload(line@) is None,
        },
{
    let l = chars_of(line);
    let marker = chars_of("GameState.DebugPrintPower() - ");
    match find_exec(&l, &marker) {
        Some(i) => {
            let n = l.len();
            assert(i + marker@.len() <= n);
            let rest = subrange(&l, i + marker.len(), n);
            assert(rest@ =~= l@.skip(i + marker@.len()));
            Some(trim_chars(&rest))
        },
        None => None,
    }
}

/// Finds where an unfinished match starts among the lines of a log, each
/// given with its byte offset.
pub fn active_match_start(lines: &Vec<(u64, String)>) -> (r: Option<u64>)
    ensures
        r == match_start_v(lines@),
{
    let mut last_create: Option<u64> = None;
    let mut last_complete: Option<u64> = None;
    let mut i: usize = 0;
    assert(lines@.take(0) =~= Seq::<(u64, String)>::empty());
    while i < lines.len()
        invariant
            i <= lines@.len(),
            last_create == last_marked(lines@.take(i as int), true),
            last_complete == last_marked(lines@.take(i as int), false),
        decreases lines@.len() - i,
    {
        assert(lines@.take(i + 1).drop_last() =~= lines@.take(i as int));
        assert(lines@.take(i + 1).last() == lines@[i as int]);
        let (offset, line) = &lines[i];
        match payload_of(line.as_str()) {
            Some(p) => {
                if chars_eq(&p, &chars_of("CREATE_GAME")) || starts_with_exec(&p, &chars_of("CREATE_GAME ")) {
                    last_create = Some(*offset);
                }
                if starts_with_exec(&p, &chars_of("TAG_CHANGE Entity=GameEntity")) && contains_chars(
                    &p,
                    &chars_of(" tag=STATE "),
                ) && contains_chars(&p, &chars_of(" value=COMPLETE")) {
                    last_complete = Some(*offset);
                }
            },
            None => {},
        }
        i += 1;
    }
    assert(lines@.take(i as int) =~= lines@);
    match (last_create, last_complete) {
        (Some(c), Some(d)) => if c > d {
            Some(c)
        } else {
            None
        },
        (Some(c), None) => Some(c),
        _ => None,
    }
}

/// The pieces of `s` between the `c`s.
pub open spec fn split_char(s: Seq<char>, c: char) -> Seq<Seq<char>>
    decreases s.len(),
{
    if s.len() == 0 {
        seq![Seq::empty()]
    } else {
        let p = split_char(s.drop_last(), c);
        if s.last() == c {
            p.push(Seq::empty())
        } else {
            p.update(p.len() - 1, p.last().push(s.last()))
        }
    }
}

proof fn lemma_split_char_nonempty(s: Seq<char>, c: char)
    ensures
        split_char(s, c).len() >= 1,
    decreases s.len(),
{
    if s.len() > 0 {
        lemma_split_char_nonempty(s.drop_last(), c);
    }
}

/// The tribes that the pieces of the list name.
pub open spec fn named_tribes(pieces: Seq<Seq<char>>) -> Set<Seq<char>> {
    Set::new(
        |t: Seq<char>|
            exists|i: int| 0 <= i < pieces.len() && spec_normalize_tribe(#[trigger] pieces[i]) == Some(t),
    )
}

/// A comma-separated tribe list: each piece normalized, unknown ones dropped,
/// sorted and without repeats.
pub fn parse_tribes(raw: &str) -> (r: Vec<String>)
    ensures
        strictly_sorted(strs_view(r@)),
        strs_view(r@).to_set() == named_tribes(split_char(raw@, ',')),
{
    let s = chars_of(raw);
    let mut out: Vec<String> = Vec::new();
    let mut current: Vec<char> = Vec::new();
    let mut i: usize = 0;
    assert(strs_view(out@).to_set() =~= Set::<Seq<char>>::empty());
    assert(s@.take(0) =~= Seq::<char>::empty());
    assert(named_tribes(split_char(s@.take(0), ',').drop_last()) =~= Set::<Seq<char>>::empty());
    while i < s.len()
        invariant
            i <= s@.len(),
            s@ == raw@,
            strictly_sorted(strs_view(out@)),
            split_char(s@.take(i as int), ',').len() >= 1,
            current@ == split_char(s@.take(i as int), ',').last(),
            strs_view(out@).to_set() == named_tribes(split_char(s@.take(i as int), ',').drop_last()),
        decreases s@.len() - i,
    {
        let ghost pre = split_char(s@.take(i as int), ',');
        assert(s@.take(i + 1).drop_last() =~= s@.take(i as int));
        if s[i] == ',' {
            match normalize_tribe_chars(&current) {
                Some(t) => set_insert(&mut out, t),
                None => {},
            }
            current = Vec::new();
            proof {
                let next = split_char(s@.take(i + 1), ',');
                assert(next == pre.push(Seq::empty()));
                assert(next.drop_last() =~= pre);
                assert(pre =~= pre.drop_last().push(pre.last()));
                assert(named_tribes(pre) =~= named_tribes(pre.drop_last()).union(
                    match spec_normalize_tribe(pre.last()) {
                        Some(t) => set![t],
                        None => Set::empty(),
                    },
                )) by {
                    assert forall|t: Seq<char>| named_tribes(pre).contains(t) implies named_tribes(
                        pre.drop_last(),
                    ).contains(t) || spec_normalize_tribe(pre.last()) == Some(t) by {
                        let k = choose|k: int| 0 <= k < pre.len() && spec_normalize_tribe(#[trigger] pre[k]) == Some(t);
                        if k < pre.len() - 1 {
                            assert(pre.drop_last()[k] == pre[k]);
                        }
                    }
                    assert forall|t: Seq<char>| named_tribes(pre.drop_last()).contains(t) implies named_tribes(
                        pre,
                    ).contains(t) by {
                        let k = choose|k: int|
                            0 <= k < pre.drop_last().len() && spec_normalize_tribe(#[trigger] pre.drop_last()[k])
                                == Some(t);
                        assert(pre[k] == pre.drop_last()[k]);
                    }
                    if let Some(t) = spec_normalize_tribe(pre.last()) {
                        assert(named_tribes(pre).contains(t)) by {
                            assert(spec_normalize_tribe(pre[pre.len() - 1]) == Some(t));
                        }
                    }
                }
                assert(current@ =~= next.last());
            }
        } else {
            current.push(s[i]);
            proof {
                let next = split_char(s@.take(i + 1), ',');
                assert(next == pre.update(pre.len() - 1, pre.last().push(s@[i as int])));
                assert(next.drop_last() =~= pre.drop_last());
            }
        }
        i += 1;
    }
    assert(s@.take(i as int) =~= raw@);
    let ghost all = split_char(raw@, ',');
    match normalize_tribe_chars(&current) {
        Some(t) => set_insert(&mut out, t),
        None => {},
    }
    proof {
        assert(all =~= all.drop_last().push(all.last()));
        assert(strs_view(out@).to_set() =~= named_tribes(all)) by {
            assert forall|t: Seq<char>| named_tribes(all).contains(t) implies strs_view(out@).to_set().contains(
                t,
            ) by {
                let k = choose|k: int| 0 <= k < all.len() && spec_normalize_tribe(#[trigger] all[k]) == Some(t);
                if k < all.len() - 1 {
                    assert(all.drop_last()[k] == all[k]);
                    assert(named_tribes(all.drop_last()).contains(t));
                }
            }
            assert forall|t: Seq<char>| strs_view(out@).to_set().contains(t) implies named_tribes(all).contains(
                t,
            ) by {
                if named_tribes(all.drop_last()).contains(t) {
                    let k = choose|k: int|
                        0 <= k < all.drop_last().len() && spec_normalize_tribe(#[trigger] all.drop_last()[k])
                            == Some(t);
                    assert(all[k] == all.drop_last()[k]);
                } else {
                    assert(spec_normalize_tribe(all[all.len() - 1]) == Some(t));
                }
            }
        }
    }
    out
}

/// What the live watcher has seen when it decides what to do next.
#[derive(Debug, Clone, Copy)]
pub struct WatchObservation {
    /// A newer Power.log than the one followed has appeared.
    pub newer_log_detected: bool,
    /// The user asked to reopen the newest Power.log.
    pub manual_refresh_requested: bool,
    /// A Power.log is being followed.
    pub following_log: bool,
    pub match_active: bool,
    pub complete_seen: bool,
    /// The lobby's tribes are already recorded.
    pub tribes_known: bool,
    /// Lines were read in this round of reading.
    pub read_any: bool,
    pub ms_since_start: u64,
    /// Time since the tribe source was last asked, if it ever was.
    pub ms_since_tribe_poll: Option<u64>,
    /// Time the completed match has been quiet, if that is being timed.
    pub ms_since_complete_idle: Option<u64>,
}

/// The watcher's pacing: how long to wait before yielding while no match is
/// active, between tribe queries, and after the match completed.
#[derive(Debug, Clone, Copy)]
pub struct WatchTimings {
    pub source_refresh_ms: u64,
    pub tribe_poll_ms: u64,
    pub completion_grace_ms: u64,
}

/// What to do before reading more lines.
#[derive(Debug, Clone, PartialEq, Eq)]
pub enum WatchStart {
    /// Close the match as interrupted, with this reason, and yield.
    Interrupt(String),
    /// Yield so the caller can look for a log again.
    RefreshSource,
    /// Nothing to read yet; wait a poll interval.
    Sleep,
    /// Read the new lines.
    Read,
}

/// What to do with a completed match's quiet time.
#[derive(Debug, Clone, Copy, PartialEq, Eq, Structural)]
pub enum CompletionStep {
    /// No completion seen yet.
    NotComplete,
    /// Lines still arrive: time the quiet period from now.
    RestartQuietTimer,
    /// Quiet, but not for long enough (start timing if not yet).
    KeepWaiting,
    /// Quiet for the whole grace period: finish and return the archive.
    Finish,
}

/// What to do after reading.
#[derive(Debug, Clone, Copy)]
pub struct WatchAfterRead {
    pub poll_tribes: bool,
    pub completion: CompletionStep,
    pub refresh_source: bool,
}

pub open spec fn newer_log_reason() -> Seq<char> {
    "检测到更新的 Power.log，切换到最新日志"@
}

pub open spec fn manual_refresh_reason() -> Seq<char> {
    "用户请求刷新 Power.log"@
}

/// Before reading: a newer log or a manual refresh interrupts the match;
/// without a log to follow, the watcher yields once it has waited the
/// refresh period with no match, and sleeps otherwise.
pub fn watch_before_read(obs: &WatchObservation, timings: &WatchTimings) -> (r: WatchStart)
    ensures
        obs.newer_log_detected ==> (r matches WatchStart::Interrupt(m) && m@ == newer_log_reason()),
        !obs.newer_log_detected && obs.manual_refresh_requested ==> (r matches WatchStart::Interrupt(m) && m@
            == manual_refresh_reason()),
        !obs.newer_log_detected && !obs.manual_refresh_requested ==> r == (if obs.following_log {
            WatchStart::Read
        } else if !obs.match_active && obs.ms_since_start >= timings.source_refresh_ms {
            WatchStart::RefreshSource
        } else {
            WatchStart::Sleep
        }),
{
    if obs.newer_log_detected {
        return WatchStart::Interrupt(string_of(&chars_of("检测到更新的 Power.log，切换到最新日志")));
    }
    if obs.manual_refresh_requested {
        return WatchStart::Interrupt(string_of(&chars_of("用户请求刷新 Power.log")));
    }
    if obs.following_log {
        WatchStart::Read
    } else if !obs.match_active && obs.ms_since_start >= timings.source_refresh_ms {
        WatchStart::RefreshSource
    } else {
        WatchStart::Sleep
    }
}

/// The completion step for a quiet period of `idle` (none timed yet: zero).
pub open spec fn completion_v(obs: WatchObservation, grace: u64) -> CompletionStep {
    if !obs.complete_seen {
        CompletionStep::NotComplete
    } else if obs.read_any {
        CompletionStep::RestartQuietTimer
    } else {
        let idle = match obs.ms_since_complete_idle {
            Some(ms) => ms,
            None => 0,
        };
        if idle >= grace {
            CompletionStep::Finish
        } else {
            CompletionStep::KeepWaiting
        }
    }
}

/// After reading: ask the tribe source during a match whose tribes are not
/// known, at most once per poll period; finish a completed match after it has
/// been quiet for the grace period; yield when no match has started within
/// the refresh period.
pub fn watch_after_read(obs: &WatchObservation, timings: &WatchTimings) -> (r: WatchAfterRead)
    ensures
        r.poll_tribes == (obs.match_active && !obs.tribes_known && match obs.ms_since_tribe_poll {
            Some(ms) => ms >= timings.tribe_poll_ms,
            None => true,
        }),
        r.completion == completion_v(*obs, timings.completion_grace_ms),
        r.refresh_source == (r.completion != CompletionStep::Finish && !obs.match_active && obs.ms_since_start
            >= timings.source_refresh_ms),
{
    let poll_tribes = obs.match_active && !obs.tribes_known && match obs.ms_since_tribe_poll {
        Some(ms) => ms >= timings.tribe_poll_ms,
        None => true,
    };
    let completion = if !obs.complete_seen {
        CompletionStep::NotComplete
    } else if obs.read_any {
        CompletionStep::RestartQuietTimer
    } else {
        let idle = match obs.ms_since_complete_idle {
            Some(ms) => ms,
            None => 0,
        };
        if idle >= timings.completion_grace_ms {
            CompletionStep::Finish
        } else {
            CompletionStep::KeepWaiting
        }
    };
    let finishing = match completion {
        CompletionStep::Finish => true,
        _ => false,
    };
    let refresh_source = !finishing && !obs.match_active && obs.ms_since_start >= timings.source_refresh_ms;
    WatchAfterRead { poll_tribes, completion, refresh_source }
}


/// Component-wise order of two paths, each component compared by its text.
pub open spec fn path_lt(a: Seq<Seq<char>>, b: Seq<Seq<char>>) -> bool
    decreases a.len(),
{
    if a.len() == 0 {
        b.len() > 0
    } else if b.len() == 0 {
        false
    } else if a[0] != b[0] {
        lex_lt(a[0], b[0])
    } else {
        path_lt(a.drop_first(), b.drop_first())
    }
}

proof fn lemma_path_irreflexive(a: Seq<Seq<char>>)
    ensures
        !path_lt(a, a),
    decreases a.len(),
{
    if a.len() > 0 {
        lemma_path_irreflexive(a.drop_first());
    }
}

proof fn lemma_path_trans(a: Seq<Seq<char>>, b: Seq<Seq<char>>, c: Seq<Seq<char>>)
    requires
        path_lt(a, b),
        path_lt(b, c),
    ensures
        path_lt(a, c),
    decreases a.len(),
{
    if a.len() > 0 && b.len() > 0 && c.len() > 0 {
        if a[0] == b[0] && b[0] == c[0] {
            lemma_path_trans(a.drop_first(), b.drop_first(), c.drop_first());
        } else if a[0] != b[0] && b[0] != c[0] {
            lemma_lex_trans(a[0], b[0], c[0]);
            if a[0] == c[0] {
                lemma_lex_asym(a[0], b[0]);
            }
        } else if a[0] != b[0] {
            lemma_lex_asym(a[0], b[0]);
        } else {
            lemma_lex_asym(b[0], c[0]);
        }
    }
}

proof fn lemma_path_total(a: Seq<Seq<char>>, b: Seq<Seq<char>>)
    ensures
        a == b || path_lt(a, b) || path_lt(b, a),
    decreases a.len(),
{
    if a.len() > 0 && b.len() > 0 {
        if a[0] == b[0] {
            lemma_path_total(a.drop_first(), b.drop_first());
            if a.drop_first() == b.drop_first() {
                assert(a =~= seq![a[0]] + a.drop_first());
                assert(b =~= seq![b[0]] + b.drop_first());
            }
        } else {
            lemma_lex_total(a[0], b[0]);
        }
    } else if a.len() == 0 && b.len() == 0 {
        assert(a =~= b);
    }
}

fn path_less(a: &Vec<String>, b: &Vec<String>) -> (r: bool)
    ensures
        r == path_lt(strs_view(a@), strs_view(b@)),
{
    let ghost sa = strs_view(a@);
    let ghost sb = strs_view(b@);
    let mut i: usize = 0;
    assert(sa.skip(0) == sa);
    assert(sb.skip(0) == sb);
    while i < a.len() && i < b.len() && chars_eq(&chars_of(a[i].as_str()), &chars_of(b[i].as_str()))
        invariant
            i <= a.len(),
            i <= b.len(),
            sa == strs_view(a@),
            sb == strs_view(b@),
            path_lt(sa, sb) == path_lt(sa.skip(i as int), sb.skip(i as int)),
        decreases a.len() - i,
    {
        assert(sa.skip(i as int).drop_first() == sa.skip(i + 1));
        assert(sb.skip(i as int).drop_first() == sb.skip(i + 1));
        i += 1;
    }
    if i == a.len() {
        i < b.len()
    } else if i == b.len() {
        false
    } else {
        lex_less(&chars_of(a[i].as_str()), &chars_of(b[i].as_str()))
    }
}

/// A Power.log found under the Logs directory: when it was last modified,
/// in nanoseconds since the Unix epoch, and its path component by component.
#[derive(Debug, Clone)]
pub struct LogCandidate {
    pub modified_nanos: u128,
    pub path: Vec<String>,
}

/// `a` is older than `b`, or as old and earlier in path order.
pub open spec fn log_before(a: LogCandidate, b: LogCandidate) -> bool {
    a.modified_nanos < b.modified_nanos || (a.modified_nanos == b.modified_nanos && path_lt(
        strs_view(a.path@),
        strs_view(b.path@),
    ))
}

proof fn lemma_log_before_order(a: LogCandidate, b: LogCandidate, c: LogCandidate)
    ensures
        !log_before(a, a),
        log_before(a, b) && log_before(b, c) ==> log_before(a, c),
        log_before(a, b) ==> !log_before(b, a),
        log_before(a, b) || log_before(b, a) || (a.modified_nanos == b.modified_nanos && strs_view(a.path@)
            == strs_view(b.path@)),
{
    lemma_path_irreflexive(strs_view(a.path@));
    lemma_path_total(strs_view(a.path@), strs_view(b.path@));
    if path_lt(strs_view(a.path@), strs_view(b.path@)) && path_lt(strs_view(b.path@), strs_view(c.path@)) {
        lemma_path_trans(strs_view(a.path@), strs_view(b.path@), strs_view(c.path@));
    }
    if path_lt(strs_view(a.path@), strs_view(b.path@)) && path_lt(strs_view(b.path@), strs_view(a.path@)) {
        lemma_path_trans(strs_view(a.path@), strs_view(b.path@), strs_view(a.path@));
    }
}

/// The newest Power.log among the candidates: the latest modified, and of
/// those the last in path order; of candidates alike in both, the last
/// listed. `None` when there is none.
pub fn newest_log(candidates: &Vec<LogCandidate>) -> (r: Option<usize>)
    ensures
        r is None <==> candidates@.len() == 0,
        r matches Some(i) ==> i < candidates@.len() && (forall|j: int|
            0 <= j < i ==> !log_before(candidates@[i as int], #[trigger] candidates@[j])) && (forall|j: int|
            i < j < candidates@.len() ==> log_before(#[trigger] candidates@[j], candidates@[i as int])),
{
    if candidates.len() == 0 {
        return None;
    }
    let mut best: usize = 0;
    let mut k: usize = 1;
    while k < candidates.len()
        invariant
            1 <= k <= candidates@.len(),
            best < k,
            forall|j: int| 0 <= j < best ==> !log_before(candidates@[best as int], #[trigger] candidates@[j]),
            forall|j: int| best < j < k ==> log_before(#[trigger] candidates@[j], candidates@[best as int]),
        decreases candidates@.len() - k,
    {
        let c = &candidates[k];
        let b = &candidates[best];
        let older = c.modified_nanos < b.modified_nanos || (c.modified_nanos == b.modified_nanos && path_less(
            &c.path,
            &b.path,
        ));
        if !older {
            proof {
                let cb = candidates@[best as int];
                let ck = candidates@[k as int];
                assert forall|j: int| 0 <= j < k implies !log_before(ck, #[trigger] candidates@[j]) by {
                    let cj = candidates@[j];
                    lemma_log_before_order(ck, cb, cj);
                    lemma_log_before_order(ck, cj, cb);
                    lemma_log_before_order(cj, cb, ck);
                    lemma_log_before_order(cb, cj, ck);
                    lemma_log_before_order(cb, ck, cj);
                    if log_before(ck, cj) {
                        if j < best {
                            assert(!log_before(cb, cj));
                        } else if j > best {
                            assert(log_before(cj, cb));
                        }
                    }
                }
            }
            best = k;
        }
        k += 1;
    }
    Some(best)
}

} // verus!
