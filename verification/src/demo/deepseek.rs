//! Checks and text shaping around the coach model's requests and replies:
//! grounding validation of chat replies, prompt budgeting and priority labels.
use vstd::prelude::*;

use crate::demo::agent::{debug_tier, debug_tier_exec, AgentCard, AgentSnapshot};
use crate::demo::hdt_knowledge::{join_sep, join_strings, sanitize, sanitize_v, HdtKnowledgeBase};
use crate::demo::model::{AiUsage, CompositionOption, StageWatchlist, WatchlistResponse};
use crate::harness::card_catalog::{CardCatalog, ResolvedCardMeta, ResolvedV};
use crate::harness::state::snapshot::{lemma_sorted_of, sorted_of};
use crate::text::{eq_ignore_ascii_case, eq_ignore_case, set_insert, strictly_sorted,
    chars_of, contains, contains_chars, find, find_exec, matches_at, nat_text, push_str, rfind, rfind_exec,
    rfind_upto, starts_with, starts_with_exec, string_of, strs_contain, strs_view, subrange, trim, trim_chars,
    u64_text, upper_chars, upper_seq,
};

verus! {

/// What one model request reported when it ended: its task, kind, start and
/// end times, status, error and token usage.
#[derive(Debug, Clone)]
pub struct ApiCallObservation {
    pub task_id: Option<u64>,
    pub kind: String,
    pub started_at_ms: u64,
    pub finished_at_ms: u64,
    pub status: String,
    pub error: Option<String>,
    pub usage: AiUsage,
}

/// Token usage as a provider reports it: DeepSeek's top-level cache fields,
/// or the cached count OpenAI-compatible providers nest in the prompt
/// details. A field the reply leaves out reads 0.
#[derive(Debug, Clone, Copy)]
pub struct ReportedUsage {
    pub prompt_tokens: u64,
    pub completion_tokens: u64,
    pub total_tokens: u64,
    pub prompt_cache_hit_tokens: u64,
    pub prompt_cache_miss_tokens: u64,
    pub nested_cached_tokens: Option<u64>,
}

/// The usage recorded for a reply: cache hits are the larger of the two
/// reported counts; misses fall back to the prompt tokens not hit, and the
/// total to prompt plus completion, when the reply gives 0.
pub open spec fn normalized_usage_v(u: ReportedUsage) -> AiUsage {
    let nested = match u.nested_cached_tokens {
        Some(n) => n,
        None => 0,
    };
    let hit = if u.prompt_cache_hit_tokens >= nested {
        u.prompt_cache_hit_tokens
    } else {
        nested
    };
    AiUsage {
        prompt_tokens: u.prompt_tokens,
        completion_tokens: u.completion_tokens,
        total_tokens: if u.total_tokens > 0 {
            u.total_tokens
        } else if u.prompt_tokens + u.completion_tokens <= u64::MAX {
            (u.prompt_tokens + u.completion_tokens) as u64
        } else {
            u64::MAX
        },
        prompt_cache_hit_tokens: hit,
        prompt_cache_miss_tokens: if u.prompt_cache_miss_tokens > 0 {
            u.prompt_cache_miss_tokens
        } else if u.prompt_tokens >= hit {
            (u.prompt_tokens - hit) as u64
        } else {
            0
        },
    }
}

/// Normalizes a reply's reported usage; a reply without usage counts as no
/// usage at all.
pub fn normalize_usage(reported: Option<ReportedUsage>) -> (r: AiUsage)
    ensures
        r == match reported {
            Some(u) => normalized_usage_v(u),
            None => AiUsage {
                prompt_tokens: 0,
                completion_tokens: 0,
                total_tokens: 0,
                prompt_cache_hit_tokens: 0,
                prompt_cache_miss_tokens: 0,
            },
        },
{
    match reported {
        None => AiUsage::default(),
        Some(u) => {
            let nested = match u.nested_cached_tokens {
                Some(n) => n,
                None => 0,
            };
            let hit = if u.prompt_cache_hit_tokens >= nested {
                u.prompt_cache_hit_tokens
            } else {
                nested
            };
            let miss = if u.prompt_cache_miss_tokens > 0 {
                u.prompt_cache_miss_tokens
            } else {
                u.prompt_tokens.saturating_sub(hit)
            };
            let total = if u.total_tokens > 0 {
                u.total_tokens
            } else {
                u.prompt_tokens.saturating_add(u.completion_tokens)
            };
            AiUsage {
                prompt_tokens: u.prompt_tokens,
                completion_tokens: u.completion_tokens,
                total_tokens: total,
                prompt_cache_hit_tokens: hit,
                prompt_cache_miss_tokens: miss,
            }
        },
    }
}

/// Why a model request is not sent at all.
#[derive(Debug, Clone, Copy, PartialEq, Eq, Structural)]
pub enum CallRefusal {
    /// DeepSeek compatibility needs a key and none is configured.
    MissingApiKey,
    /// The task was cancelled before the request went out.
    Cancelled,
}

pub open spec fn call_refusal_v(api_key: Seq<char>, api_compatibility: Seq<char>, cancelled: bool) -> Option<
    CallRefusal,
> {
    if trim(api_key).len() == 0 && eq_ignore_case(api_compatibility, "deepseek"@) {
        Some(CallRefusal::MissingApiKey)
    } else if cancelled {
        Some(CallRefusal::Cancelled)
    } else {
        None
    }
}

/// Checks made before a request is sent: a missing DeepSeek key first, then
/// a cancelled task.
pub fn call_refusal(api_key: &str, api_compatibility: &str, cancelled: bool) -> (r: Option<CallRefusal>)
    ensures
        r == call_refusal_v(api_key@, api_compatibility@, cancelled),
{
    let key = trim_chars(&chars_of(api_key));
    if key.len() == 0 && eq_ignore_ascii_case(&chars_of(api_compatibility), &chars_of("deepseek")) {
        Some(CallRefusal::MissingApiKey)
    } else if cancelled {
        Some(CallRefusal::Cancelled)
    } else {
        None
    }
}

/// Whether requests use DeepSeek's own options (thinking mode and a JSON
/// object response format).
pub fn uses_deepseek_options(api_compatibility: &str) -> (r: bool)
    ensures
        r == eq_ignore_case(api_compatibility@, "deepseek"@),
{
    eq_ignore_ascii_case(&chars_of(api_compatibility), &chars_of("deepseek"))
}

/// The text without its trailing slashes.
pub open spec fn without_trailing_slashes(s: Seq<char>) -> Seq<char>
    decreases s.len(),
{
    if s.len() > 0 && s.last() == '/' {
        without_trailing_slashes(s.drop_last())
    } else {
        s
    }
}

/// The chat completions endpoint under a base URL.
pub open spec fn completions_url_v(base_url: Seq<char>) -> Seq<char> {
    without_trailing_slashes(base_url) + "/chat/completions"@
}

pub fn completions_url(base_url: &str) -> (r: String)
    ensures
        r@ == completions_url_v(base_url@),
{
    let b = chars_of(base_url);
    let mut n: usize = b.len();
    assert(b@.take(n as int) =~= b@);
    while n > 0 && b[n - 1] == '/'
        invariant
            n <= b@.len(),
            without_trailing_slashes(b@.take(n as int)) == without_trailing_slashes(b@),
        decreases n,
    {
        assert(b@.take(n as int).drop_last() =~= b@.take(n - 1));
        n -= 1;
    }
    let mut out: Vec<char> = Vec::new();
    let mut i: usize = 0;
    while i < n
        invariant
            i <= n <= b@.len(),
            out@ == b@.take(i as int),
        decreases n - i,
    {
        out.push(b[i]);
        assert(b@.take(i + 1) =~= b@.take(i as int).push(b@[i as int]));
        i += 1;
    }
    assert(without_trailing_slashes(b@.take(n as int)) == b@.take(n as int));
    push_str(&mut out, "/chat/completions");
    string_of(&out)
}

/// The text a reply yields: its first choice's content, unless that is
/// missing or blank.
pub fn reply_content(first_content: Option<&str>) -> (r: Option<String>)
    ensures
        match first_content {
            Some(c) => if trim(c@).len() > 0 {
                r matches Some(t) && t@ == c@
            } else {
                r is None
            },
            None => r is None,
        },
{
    match first_content {
        Some(c) => {
            if trim_chars(&chars_of(c)).len() > 0 {
                Some(string_of(&chars_of(c)))
            } else {
                None
            }
        },
        None => None,
    }
}

/// How a sent request ended.
#[derive(Debug, Clone, Copy, PartialEq, Eq, Structural)]
pub enum CallEnd {
    /// The transport failed; `cancelled` when the task was cancelled.
    TransportFailed { cancelled: bool },
    /// The reply could not be read as a chat response.
    Unreadable,
    /// The provider reported an error.
    ProviderError,
    /// The reply held no content.
    EmptyContent,
    /// The content was not the JSON expected.
    InvalidJson,
    /// The content was read.
    Parsed,
}

pub open spec fn call_status_v(end: CallEnd) -> Seq<char> {
    match end {
        CallEnd::TransportFailed { cancelled } => if cancelled {
            "cancelled"@
        } else {
            "failed"@
        },
        CallEnd::InvalidJson => "invalid_json"@,
        CallEnd::Parsed => "ok"@,
        _ => "failed"@,
    }
}

/// The status a request's observation records.
pub fn call_status(end: CallEnd) -> (r: &'static str)
    ensures
        r@ == call_status_v(end),
{
    match end {
        CallEnd::TransportFailed { cancelled } => if cancelled {
            "cancelled"
        } else {
            "failed"
        },
        CallEnd::InvalidJson => "invalid_json",
        CallEnd::Parsed => "ok",
        _ => "failed",
    }
}

/// What grounding validation reads of a coach chat reply.
pub struct CoachReply {
    pub reply: String,
    /// The round the model claims to be coaching.
    pub observed_round: u32,
    /// CardIds the reply cites for its card facts.
    pub cited_card_ids: Vec<String>,
}

/// `第{k}回合`.
pub open spec fn round_phrase(k: nat) -> Seq<char> {
    "第"@ + nat_text(k) + "回合"@
}

/// `第 {k} 回合`.
pub open spec fn spaced_round_phrase(k: nat) -> Seq<char> {
    "第 "@ + nat_text(k) + " 回合"@
}

/// The first cited id, in citation order, that is not trusted.
pub open spec fn first_untrusted(cited: Seq<Seq<char>>, trusted: Seq<Seq<char>>) -> Option<Seq<char>>
    decreases cited.len(),
{
    if cited.len() == 0 {
        None
    } else if !trusted.contains(cited[0]) {
        Some(cited[0])
    } else {
        first_untrusted(cited.drop_first(), trusted)
    }
}

/// The user asks about card facts.
pub open spec fn asks_card_facts(msg: Seq<char>) -> bool {
    ||| contains(msg, "核心卡"@)
    ||| contains(msg, "卡牌"@)
    ||| contains(msg, "什么牌"@)
    ||| contains(msg, "哪些牌"@)
    ||| contains(msg, "哪张牌"@)
    ||| contains(msg, "牌是什么"@)
}

/// The user asks about the core cards of the composition.
pub open spec fn asks_core_cards(msg: Seq<char>) -> bool {
    contains(msg, "核心卡"@) || contains(msg, "核心牌"@)
}

/// Round `k` is named in `text`, in either spelling.
pub open spec fn names_round(text: Seq<char>, k: nat) -> bool {
    contains(text, round_phrase(k)) || contains(text, spaced_round_phrase(k))
}

/// The first round from `k` up to 30, other than the current round and the
/// round the plan was made for, that the reply names and the user did not.
pub open spec fn contradicted_round(
    reply: Seq<char>,
    msg: Seq<char>,
    current: u32,
    allowed: Option<u32>,
    k: nat,
) -> Option<nat>
    decreases 31 - k,
{
    if k > 30 {
        None
    } else if k != current && !(allowed matches Some(a) && a == k) && names_round(reply, k) && !names_round(
        msg,
        k,
    ) {
        Some(k)
    } else {
        contradicted_round(reply, msg, current, allowed, k + 1)
    }
}

/// Why a chat reply is not grounded in the authoritative state, as the message
/// reported for it; `None` when it is grounded.
pub open spec fn grounding_v(
    reply: Seq<char>,
    observed: u32,
    cited: Seq<Seq<char>>,
    msg: Seq<char>,
    current: u32,
    allowed: Option<u32>,
    trusted: Seq<Seq<char>>,
    core: Seq<Seq<char>>,
) -> Option<Seq<char>> {
    if observed != current {
        Some(
            "chat observed_round="@ + nat_text(observed as nat) + " but authoritative round is "@ + nat_text(
                current as nat,
            ),
        )
    } else if first_untrusted(cited, trusted) is Some {
        Some("chat cited untrusted card id "@ + first_untrusted(cited, trusted)->0)
    } else if asks_card_facts(msg) && cited.len() == 0 && trusted.len() > 0 {
        Some("card-specific answer omitted cited_card_ids"@)
    } else if asks_core_cards(msg) && core.len() > 0 && (cited.len() == 0 || exists|i: int|
        0 <= i < cited.len() && !core.contains(#[trigger] cited[i])) {
        Some("core-card answer must cite only selected composition core_card_ids"@)
    } else {
        match contradicted_round(reply, msg, current, allowed, 1) {
            Some(k) => Some(
                "chat reply contradicts current round "@ + nat_text(current as nat) + " by mentioning "@
                    + round_phrase(k) + " as current context"@,
            ),
            None => None,
        }
    }
}

proof fn lemma_first_untrusted_skip(cited: Seq<Seq<char>>, trusted: Seq<Seq<char>>, i: int)
    requires
        0 <= i < cited.len(),
    ensures
        first_untrusted(cited.skip(i), trusted) == if !trusted.contains(cited[i]) {
            Some(cited[i])
        } else {
            first_untrusted(cited.skip(i + 1), trusted)
        },
{
    assert(cited.skip(i).drop_first() =~= cited.skip(i + 1));
    assert(cited.skip(i)[0] == cited[i]);
}

proof fn lemma_first_untrusted_none(cited: Seq<Seq<char>>, trusted: Seq<Seq<char>>)
    requires
        first_untrusted(cited, trusted) is None,
    ensures
        forall|i: int| 0 <= i < cited.len() ==> trusted.contains(#[trigger] cited[i]),
    decreases cited.len(),
{
    if cited.len() > 0 {
        lemma_first_untrusted_none(cited.drop_first(), trusted);
        assert forall|i: int| 0 <= i < cited.len() implies trusted.contains(#[trigger] cited[i]) by {
            if i > 0 {
                assert(cited[i] == cited.drop_first()[i - 1]);
            }
        }
    }
}

/// A reply that passes grounding echoes the authoritative round and cites
/// only trusted cards; when the user asks for the core cards of a selected
/// composition, it cites some and only those.
pub proof fn lemma_grounded_reply_is_trusted(
    reply: Seq<char>,
    observed: u32,
    cited: Seq<Seq<char>>,
    msg: Seq<char>,
    current: u32,
    allowed: Option<u32>,
    trusted: Seq<Seq<char>>,
    core: Seq<Seq<char>>,
)
    requires
        grounding_v(reply, observed, cited, msg, current, allowed, trusted, core) is None,
    ensures
        observed == current,
        forall|i: int| 0 <= i < cited.len() ==> trusted.contains(#[trigger] cited[i]),
        asks_core_cards(msg) && core.len() > 0 ==> cited.len() > 0 && forall|i: int|
            0 <= i < cited.len() ==> core.contains(#[trigger] cited[i]),
{
    lemma_first_untrusted_none(cited, trusted);
}

fn round_phrase_exec(k: u32, spaced: bool) -> (r: Vec<char>)
    ensures
        r@ == if spaced {
            spaced_round_phrase(k as nat)
        } else {
            round_phrase(k as nat)
        },
{
    let mut out: Vec<char> = Vec::new();
    let ghost e = out@;
    assert(e =~= Seq::<char>::empty());
    if spaced {
        push_str(&mut out, "第 ");
    } else {
        push_str(&mut out, "第");
    }
    out.append(&mut u64_text(k as u64));
    if spaced {
        push_str(&mut out, " 回合");
    } else {
        push_str(&mut out, "回合");
    }
    out
}

fn names_round_exec(text: &[char], k: u32) -> (r: bool)
    ensures
        r == names_round(text@, k as nat),
{
    contains_chars(text, &round_phrase_exec(k, false)) || contains_chars(text, &round_phrase_exec(k, true))
}

fn contains_str(text: &[char], pat: &str) -> (r: bool)
    ensures
        r == contains(text@, pat@),
{
    contains_chars(text, &chars_of(pat))
}

/// Checks a chat reply against the authoritative state before it reaches the
/// user: the round it echoes, the cards it cites, and the rounds it names.
/// The error is the message reported for the rejected reply.
pub fn validate_chat_grounding(
    response: &CoachReply,
    user_message: &str,
    current_round: u32,
    allowed_plan_round: Option<u32>,
    trusted_card_ids: &Vec<String>,
    selected_core_card_ids: &Vec<String>,
) -> (r: Result<(), String>)
    ensures
        r is Ok <==> grounding_v(
            response.reply@,
            response.observed_round,
            strs_view(response.cited_card_ids@),
            user_message@,
            current_round,
            allowed_plan_round,
            strs_view(trusted_card_ids@),
            strs_view(selected_core_card_ids@),
        ) is None,
        r matches Err(m) ==> Some(m@) == grounding_v(
            response.reply@,
            response.observed_round,
            strs_view(response.cited_card_ids@),
            user_message@,
            current_round,
            allowed_plan_round,
            strs_view(trusted_card_ids@),
            strs_view(selected_core_card_ids@),
        ),
{
    let ghost cited = strs_view(response.cited_card_ids@);
    let ghost trusted = strs_view(trusted_card_ids@);
    let ghost core = strs_view(selected_core_card_ids@);
    if response.observed_round != current_round {
        let mut m: Vec<char> = Vec::new();
        push_str(&mut m, "chat observed_round=");
        m.append(&mut u64_text(response.observed_round as u64));
        push_str(&mut m, " but authoritative round is ");
        m.append(&mut u64_text(current_round as u64));
        return Err(string_of(&m));
    }
    let mut i: usize = 0;
    assert(cited.skip(0) =~= cited);
    while i < response.cited_card_ids.len()
        invariant
            i <= cited.len(),
            cited == strs_view(response.cited_card_ids@),
            trusted == strs_view(trusted_card_ids@),
            response.observed_round == current_round,
            first_untrusted(cited, trusted) == first_untrusted(cited.skip(i as int), trusted),
        decreases cited.len() - i,
    {
        proof {
            lemma_first_untrusted_skip(cited, trusted, i as int);
            assert(cited[i as int] == response.cited_card_ids@[i as int]@);
            assert(strs_view(trusted_card_ids@).to_set().contains(cited[i as int]) == trusted.contains(
                cited[i as int],
            ));
        }
        if !strs_contain(trusted_card_ids, &response.cited_card_ids[i]) {
            let mut m: Vec<char> = Vec::new();
            push_str(&mut m, "chat cited untrusted card id ");
            push_str(&mut m, response.cited_card_ids[i].as_str());
            assert(first_untrusted(cited, trusted) == Some(cited[i as int]));
            assert(m@ =~= "chat cited untrusted card id "@ + cited[i as int]);
            return Err(string_of(&m));
        }
        i += 1;
    }
    assert(cited.skip(i as int) =~= Seq::<Seq<char>>::empty());
    let msg = chars_of(user_message);
    let asks_facts = contains_str(&msg, "核心卡") || contains_str(&msg, "卡牌") || contains_str(&msg, "什么牌")
        || contains_str(&msg, "哪些牌") || contains_str(&msg, "哪张牌") || contains_str(&msg, "牌是什么");
    if asks_facts && response.cited_card_ids.len() == 0 && trusted_card_ids.len() > 0 {
        return Err(string_of(&chars_of("card-specific answer omitted cited_card_ids")));
    }
    let asks_core = contains_str(&msg, "核心卡") || contains_str(&msg, "核心牌");
    if asks_core && selected_core_card_ids.len() > 0 {
        let mut all_core = true;
        let mut j: usize = 0;
        while j < response.cited_card_ids.len()
            invariant
                j <= cited.len(),
                cited == strs_view(response.cited_card_ids@),
                core == strs_view(selected_core_card_ids@),
                all_core <==> forall|k: int| 0 <= k < j ==> core.contains(#[trigger] cited[k]),
            decreases cited.len() - j,
        {
            if !strs_contain(selected_core_card_ids, &response.cited_card_ids[j]) {
                assert(!core.contains(cited[j as int]));
                all_core = false;
            }
            j += 1;
        }
        if response.cited_card_ids.len() == 0 || !all_core {
            return Err(
                string_of(&chars_of("core-card answer must cite only selected composition core_card_ids")),
            );
        }
    }
    let reply = chars_of(response.reply.as_str());
    let mut round: u32 = 1;
    let ghost passed = first_untrusted(cited, trusted) is None && !(asks_card_facts(user_message@) && cited.len()
        == 0 && trusted.len() > 0) && !(asks_core_cards(user_message@) && core.len() > 0 && (cited.len() == 0
        || exists|i: int| 0 <= i < cited.len() && !core.contains(#[trigger] cited[i])));
    assert(passed);
    while round <= 30
        invariant
            1 <= round <= 31,
            passed,
            response.observed_round == current_round,
            cited == strs_view(response.cited_card_ids@),
            trusted == strs_view(trusted_card_ids@),
            core == strs_view(selected_core_card_ids@),
            passed == (first_untrusted(cited, trusted) is None && !(asks_card_facts(user_message@) && cited.len()
                == 0 && trusted.len() > 0) && !(asks_core_cards(user_message@) && core.len() > 0 && (cited.len()
                == 0 || exists|i: int| 0 <= i < cited.len() && !core.contains(#[trigger] cited[i])))),
            reply@ == response.reply@,
            msg@ == user_message@,
            contradicted_round(reply@, msg@, current_round, allowed_plan_round, 1) == contradicted_round(
                reply@,
                msg@,
                current_round,
                allowed_plan_round,
                round as nat,
            ),
        decreases 31 - round,
    {
        let skip = round == current_round || (match allowed_plan_round {
            Some(a) => a == round,
            None => false,
        });
        if !skip && names_round_exec(&reply, round) && !names_round_exec(&msg, round) {
            let mut m: Vec<char> = Vec::new();
            push_str(&mut m, "chat reply contradicts current round ");
            m.append(&mut u64_text(current_round as u64));
            push_str(&mut m, " by mentioning ");
            m.append(&mut round_phrase_exec(round, false));
            push_str(&mut m, " as current context");
            assert(contradicted_round(reply@, msg@, current_round, allowed_plan_round, round as nat) == Some(
                round as nat,
            ));
            return Err(string_of(&m));
        }
        round += 1;
    }
    Ok(())
}

/// The priority label after trimming and ASCII upper-casing: `S` and `A` are
/// kept, anything else is `B`.
pub open spec fn priority_v(raw: Seq<char>) -> Seq<char> {
    let t = upper_seq(trim(raw));
    if t == "S"@ {
        "S"@
    } else if t == "A"@ {
        "A"@
    } else {
        "B"@
    }
}

pub fn normalize_priority(raw: &str) -> (r: String)
    ensures
        r@ == priority_v(raw@),
{
    let t = upper_chars(&trim_chars(&chars_of(raw)));
    let s = chars_of("S");
    let a = chars_of("A");
    proof {
        reveal_strlit("S");
        reveal_strlit("A");
    }
    if t.len() == 1 && t[0] == 'S' {
        assert(t@ =~= "S"@);
        string_of(&s)
    } else if t.len() == 1 && t[0] == 'A' {
        assert(t@ =~= "A"@);
        string_of(&a)
    } else {
        assert(t@ != "S"@ && t@ != "A"@) by {
            if t@ == "S"@ {
                assert(t@.len() == 1 && t@[0] == 'S');
            }
            if t@ == "A"@ {
                assert(t@.len() == 1 && t@[0] == 'A');
            }
        }
        string_of(&chars_of("B"))
    }
}

/// The game stage named in prompts: rounds up to 4 are early, up to 8 mid.
pub open spec fn stage_v(round: u32) -> Seq<char> {
    if round <= 4 {
        "early"@
    } else if round <= 8 {
        "mid"@
    } else {
        "late"@
    }
}

pub fn stage_for_round(round: u32) -> (r: &'static str)
    ensures
        r@ == stage_v(round),
{
    if round <= 4 {
        "early"
    } else if round <= 8 {
        "mid"
    } else {
        "late"
    }
}

/// Characters the prompt may use: twice the tokens left for input after the
/// output budget, with at least 512 input tokens (saturating at `usize::MAX`).
pub open spec fn prompt_char_budget(context_window: u32, max_output_tokens: u32) -> int {
    let left = if context_window >= max_output_tokens {
        context_window - max_output_tokens
    } else {
        0
    };
    let tokens = if left >= 512 {
        left
    } else {
        512
    };
    if 2 * tokens <= usize::MAX {
        2 * tokens
    } else {
        usize::MAX as int
    }
}

/// The marker placed where the middle of an oversized user prompt was cut.
pub open spec fn truncation_marker() -> Seq<char> {
    "\n\n...[context truncated by configured context_window]...\n\n"@
}

/// Prompts fitted to the character budget. When both fit they are kept. Else
/// the system prompt keeps at most a third of the budget, the user prompt gets
/// the rest (at least 256 characters); a user prompt over its share keeps its
/// first three fifths and its last part around the truncation marker.
pub open spec fn fitted_prompts(system: Seq<char>, user: Seq<char>, budget: int) -> (Seq<char>, Seq<char>) {
    let sys_n = system.len() as int;
    let user_n = user.len() as int;
    if sys_n + user_n <= budget || (sys_n + user_n > usize::MAX && budget == usize::MAX) {
        (system, user)
    } else {
        let keep_system = if sys_n <= budget / 3 {
            sys_n
        } else {
            budget / 3
        };
        let keep_user = if budget - keep_system >= 256 {
            budget - keep_system
        } else {
            256
        };
        let sys_t = system.take(keep_system);
        if user_n <= keep_user {
            (sys_t, user)
        } else {
            let head = keep_user * 3 / 5;
            let tail = keep_user - head;
            (sys_t, user.take(head) + truncation_marker() + user.skip(user_n - tail))
        }
    }
}

/// Fits the system and user prompts to the configured context window before a
/// request is sent.
pub fn fit_prompt_to_context(system: &str, user: &str, context_window: u32, max_output_tokens: u32) -> (r: (
    String,
    String,
))
    ensures
        (r.0@, r.1@) == fitted_prompts(system@, user@, prompt_char_budget(context_window, max_output_tokens)),
{
    let left: u32 = if context_window >= max_output_tokens {
        context_window - max_output_tokens
    } else {
        0
    };
    let tokens: u64 = if left >= 512 {
        left as u64
    } else {
        512
    };
    let max_chars: usize = if 2 * tokens <= usize::MAX as u64 {
        (2 * tokens) as usize
    } else {
        usize::MAX
    };
    let ghost budget = prompt_char_budget(context_window, max_output_tokens);
    assert(max_chars == budget);
    let sys = chars_of(system);
    let usr = chars_of(user);
    let system_chars = sys.len();
    let user_chars = usr.len();
    let total: usize = if system_chars <= usize::MAX - user_chars {
        system_chars + user_chars
    } else {
        usize::MAX
    };
    if total <= max_chars {
        return (string_of(&sys), string_of(&usr));
    }
    let third = max_chars / 3;
    let keep_system: usize = if system_chars <= third {
        system_chars
    } else {
        third
    };
    let rest = max_chars - keep_system;
    let keep_user: usize = if rest >= 256 {
        rest
    } else {
        256
    };
    let system_trimmed = string_of(&subrange(&sys, 0, keep_system));
    assert(sys@.subrange(0, keep_system as int) =~= system@.take(keep_system as int));
    if user_chars <= keep_user {
        return (system_trimmed, string_of(&usr));
    }
    let head: usize = ((keep_user as u128) * 3 / 5) as usize;
    let tail: usize = keep_user - head;
    let mut out = subrange(&usr, 0, head);
    push_str(&mut out, "\n\n...[context truncated by configured context_window]...\n\n");
    let mut back = subrange(&usr, user_chars - tail, user_chars);
    out.append(&mut back);
    assert(usr@.subrange(0, head as int) =~= user@.take(head as int));
    assert(usr@.subrange(user_chars - tail, user_chars as int) =~= user@.skip(user_chars - tail));
    (system_trimmed, string_of(&out))
}


/// The text with every CR that ends a line (stands before an LF) removed.
pub open spec fn crlf_to_lf(s: Seq<char>) -> Seq<char>
    decreases s.len(),
{
    if s.len() == 0 {
        s
    } else if s.len() >= 2 && s[0] == '\r' && s[1] == '\n' {
        crlf_to_lf(s.drop_first())
    } else {
        seq![s[0]] + crlf_to_lf(s.drop_first())
    }
}

/// The lines of a fenced block between its opening line and a closing fence
/// line, joined by LF and trimmed.
pub open spec fn fence_body(t: Seq<char>) -> Seq<char> {
    let rest = match find(t, "\n"@) {
        Some(i) => t.skip(i + 1),
        None => Seq::empty(),
    };
    let kept = match rfind(rest, "\n"@) {
        Some(j) => if starts_with(trim(rest.skip(j + 1)), "```"@) {
            rest.take(j)
        } else {
            rest
        },
        None => if starts_with(trim(rest), "```"@) {
            Seq::empty()
        } else {
            rest
        },
    };
    trim(crlf_to_lf(kept))
}

/// The JSON text of a model reply: the trimmed content, or the body of the
/// code fence that the content starts with.
pub open spec fn json_text_v(content: Seq<char>) -> Seq<char> {
    let t = trim(content);
    if starts_with(t, "```"@) {
        fence_body(t)
    } else {
        t
    }
}

/// From the first `{` to the last `}`, when the last comes after the first.
pub open spec fn object_span_v(text: Seq<char>) -> Option<Seq<char>> {
    match (find(text, "{"@), rfind(text, "}"@)) {
        (Some(a), Some(b)) => if a < b {
            Some(text.subrange(a, b + 1))
        } else {
            None
        },
        _ => None,
    }
}

proof fn lemma_rfind_upto_bounds(s: Seq<char>, pat: Seq<char>, i: int)
    ensures
        rfind_upto(s, pat, i) matches Some(k) ==> 0 <= k && k + pat.len() <= s.len() && k <= i,
    decreases i + 1,
{
    if i >= 0 && !matches_at(s, pat, i) {
        lemma_rfind_upto_bounds(s, pat, i - 1);
    }
}

fn crlf_to_lf_exec(s: &[char]) -> (r: Vec<char>)
    ensures
        r@ == crlf_to_lf(s@),
{
    let mut out: Vec<char> = Vec::new();
    let mut i: usize = 0;
    assert(s@.skip(0) =~= s@);
    assert(out@ + crlf_to_lf(s@.skip(0)) =~= crlf_to_lf(s@));
    while i < s.len()
        invariant
            i <= s@.len(),
            out@ + crlf_to_lf(s@.skip(i as int)) == crlf_to_lf(s@),
        decreases s@.len() - i,
    {
        let ghost rest = s@.skip(i as int);
        assert(rest.drop_first() =~= s@.skip(i + 1));
        assert(rest[0] == s@[i as int]);
        if !(s[i] == '\r' && i + 1 < s.len() && s[i + 1] == '\n') {
            out.push(s[i]);
            assert(out@ + crlf_to_lf(s@.skip(i + 1)) =~= out@.drop_last() + (seq![s@[i as int]] + crlf_to_lf(
                s@.skip(i + 1),
            )));
        } else {
            assert(rest[1] == s@[i + 1]);
        }
        i += 1;
    }
    assert(s@.skip(i as int) =~= Seq::<char>::empty());
    assert(out@ + Seq::<char>::empty() =~= out@);
    out
}

fn fence_body_exec(t: &[char]) -> (r: Vec<char>)
    ensures
        r@ == fence_body(t@),
{
    let nl = chars_of("\n");
    let fence = chars_of("```");
    proof {
        reveal_strlit("\n");
    }
    assert(nl@.len() == 1);
    let first_nl = find_exec(t, &nl);
    let rest: Vec<char> = match first_nl {
        Some(i) => {
            let n = t.len();
            assert(i + nl@.len() <= n);
            subrange(t, i + 1, n)
        },
        None => Vec::new(),
    };
    assert(rest@ == match find(t@, "\n"@) {
        Some(i) => t@.skip(i + 1),
        None => Seq::<char>::empty(),
    }) by {
        if let Some(i) = find(t@, "\n"@) {
            assert(t@.subrange(i + 1, t@.len() as int) =~= t@.skip(i + 1));
        }
    }
    let kept: Vec<char> = match rfind_exec(&rest, &nl) {
        Some(j) => {
            proof {
                lemma_rfind_upto_bounds(rest@, nl@, rest@.len() - nl@.len());
            }
            let last = subrange(&rest, j + 1, rest.len());
            assert(last@ =~= rest@.skip(j + 1));
            if starts_with_exec(&trim_chars(&last), &fence) {
                let k = subrange(&rest, 0, j);
                assert(k@ =~= rest@.take(j as int));
                k
            } else {
                rest
            }
        },
        None => if starts_with_exec(&trim_chars(&rest), &fence) {
            Vec::new()
        } else {
            rest
        },
    };
    trim_chars(&crlf_to_lf_exec(&kept))
}

/// Locates the JSON of a model reply: the trimmed content, or the inside of
/// the code fence it starts with.
pub fn json_text(content: &str) -> (r: String)
    ensures
        r@ == json_text_v(content@),
{
    let t = trim_chars(&chars_of(content));
    if starts_with_exec(&t, &chars_of("```")) {
        string_of(&fence_body_exec(&t))
    } else {
        string_of(&t)
    }
}

/// The outermost-looking JSON object of a text, tried when the whole text
/// does not parse.
pub fn json_object_span(text: &str) -> (r: Option<String>)
    ensures
        match r {
            Some(s) => object_span_v(text@) == Some(s@),
            None => object_span_v(text@) is None,
        },
{
    let t = chars_of(text);
    proof {
        reveal_strlit("{");
        reveal_strlit("}");
    }
    let open = find_exec(&t, &chars_of("{"));
    let close = rfind_exec(&t, &chars_of("}"));
    match (open, close) {
        (Some(a), Some(b)) => {
            proof {
                reveal_strlit("}");
                assert("}"@.len() == 1);
                lemma_rfind_upto_bounds(t@, "}"@, t@.len() - 1);
                assert(rfind(t@, "}"@) == Some(b as int));
                assert(b + 1 <= t@.len());
            }
            let n = t.len();
            assert(b + 1 <= n);
            if a < b {
                Some(string_of(&subrange(&t, a, b + 1)))
            } else {
                None
            }
        },
        _ => None,
    }
}


/// The non-blank CardIds of `cards`.
pub open spec fn card_ids_of(cards: Seq<AgentCard>) -> Set<Seq<char>> {
    Set::new(|x: Seq<char>| trim(x).len() > 0 && exists|i: int| 0 <= i < cards.len() && cards[i].card_id@ == x)
}

/// The non-blank strings of `v`.
pub open spec fn nonblank_of(v: Seq<String>) -> Set<Seq<char>> {
    Set::new(|x: Seq<char>| trim(x).len() > 0 && exists|i: int| 0 <= i < v.len() && v[i]@ == x)
}

/// The non-blank CardIds of the watched cards of every stage.
pub open spec fn watch_ids_of(stages: Seq<StageWatchlist>) -> Set<Seq<char>> {
    Set::new(
        |x: Seq<char>|
            trim(x).len() > 0 && exists|j: int, k: int|
                0 <= j < stages.len() && 0 <= k < stages[j].cards@.len() && stages[j].cards@[k].card_id@ == x,
    )
}

/// Every CardId the chat may talk about: the cards of the snapshot, the core
/// cards of the selected composition and the watched cards.
pub open spec fn chat_ids(
    s: AgentSnapshot,
    selected: Option<CompositionOption>,
    watchlist: Option<WatchlistResponse>,
) -> Set<Seq<char>> {
    card_ids_of(s.board@) + card_ids_of(s.hand@) + card_ids_of(s.shop@) + card_ids_of(s.trinkets@) + card_ids_of(
        s.opponent_board@,
    ) + match selected {
        Some(c) => nonblank_of(c.core_card_ids@),
        None => Set::empty(),
    } + match watchlist {
        Some(w) => watch_ids_of(w.stages@),
        None => Set::empty(),
    }
}

/// The CardId a resolved card is cited by: its normal card's, else its own.
pub open spec fn canonical_id(r: ResolvedV, id: Seq<char>) -> Seq<char> {
    match r.normal_card_id() {
        Some(n) => n,
        None => id,
    }
}

/// The fact line of a resolved card.
pub open spec fn fact_row(r: ResolvedV, id: Seq<char>) -> Seq<char> {
    canonical_id(r, id) + " | "@ + (match r.name() {
        Some(n) => n,
        None => id,
    }) + " | type="@ + (match r.card_type() {
        Some(t) => t,
        None => "UNKNOWN"@,
    }) + " | tier="@ + debug_tier(r.tavern_tier()) + " | tribes="@ + join_sep(sorted_of(r.tribe_set()), "/"@)
        + " | text="@ + sanitize_v(
        match r.text() {
            Some(t) => t,
            None => Seq::empty(),
        },
    )
}

/// The fact lines of the ids that the catalog knows.
pub open spec fn fact_rows(cat: CardCatalog, ids: Set<Seq<char>>) -> Set<Seq<char>> {
    Set::new(
        |row: Seq<char>|
            exists|id: Seq<char>|
                ids.contains(id) && cat.spec_resolve(id) is Some && row == fact_row(cat.spec_resolve(id)->0, id),
    )
}

/// The ids a reply may cite: each known id and its canonical id.
pub open spec fn citable_ids(cat: CardCatalog, ids: Set<Seq<char>>) -> Set<Seq<char>> {
    Set::new(
        |x: Seq<char>|
            exists|id: Seq<char>|
                ids.contains(id) && cat.spec_resolve(id) is Some && (x == id || x == canonical_id(
                    cat.spec_resolve(id)->0,
                    id,
                )),
    )
}

fn add_card_ids(ids: &mut Vec<String>, cards: &Vec<AgentCard>)
    requires
        strictly_sorted(strs_view(old(ids)@)),
    ensures
        strictly_sorted(strs_view(final(ids)@)),
        strs_view(final(ids)@).to_set() == strs_view(old(ids)@).to_set() + card_ids_of(cards@),
{
    let mut i: usize = 0;
    while i < cards.len()
        invariant
            i <= cards@.len(),
            strictly_sorted(strs_view(ids@)),
            strs_view(ids@).to_set() == strs_view(old(ids)@).to_set() + card_ids_of(cards@.take(i as int)),
        decreases cards@.len() - i,
    {
        let id = &cards[i].card_id;
        if trim_chars(&chars_of(id.as_str())).len() > 0 {
            set_insert(ids, string_of(&chars_of(id.as_str())));
        }
        assert(strs_view(ids@).to_set() =~= strs_view(old(ids)@).to_set() + card_ids_of(cards@.take(i + 1))) by {
            assert forall|x: Seq<char>| card_ids_of(cards@.take(i + 1)).contains(x) implies (card_ids_of(
                cards@.take(i as int),
            ).contains(x) || x == cards@[i as int].card_id@) by {
                let k = choose|k: int| 0 <= k < i + 1 && (#[trigger] cards@.take(i + 1)[k]).card_id@ == x;
                if k < i {
                    assert(cards@.take(i as int)[k] == cards@[k]);
                }
            }
            assert forall|x: Seq<char>| card_ids_of(cards@.take(i as int)).contains(x) implies card_ids_of(
                cards@.take(i + 1),
            ).contains(x) by {
                let k = choose|k: int| 0 <= k < i && (#[trigger] cards@.take(i as int)[k]).card_id@ == x;
                assert(cards@.take(i + 1)[k] == cards@[k]);
            }
            assert(trim(cards@[i as int].card_id@).len() > 0 ==> card_ids_of(cards@.take(i + 1)).contains(
                cards@[i as int].card_id@,
            )) by {
                assert(cards@.take(i + 1)[i as int] == cards@[i as int]);
            }
        }
        i += 1;
    }
    assert(cards@.take(i as int) =~= cards@);
}

fn add_nonblank(ids: &mut Vec<String>, v: &Vec<String>)
    requires
        strictly_sorted(strs_view(old(ids)@)),
    ensures
        strictly_sorted(strs_view(final(ids)@)),
        strs_view(final(ids)@).to_set() == strs_view(old(ids)@).to_set() + nonblank_of(v@),
{
    let mut i: usize = 0;
    while i < v.len()
        invariant
            i <= v@.len(),
            strictly_sorted(strs_view(ids@)),
            strs_view(ids@).to_set() == strs_view(old(ids)@).to_set() + nonblank_of(v@.take(i as int)),
        decreases v@.len() - i,
    {
        let id = &v[i];
        if trim_chars(&chars_of(id.as_str())).len() > 0 {
            set_insert(ids, string_of(&chars_of(id.as_str())));
        }
        assert(strs_view(ids@).to_set() =~= strs_view(old(ids)@).to_set() + nonblank_of(v@.take(i + 1))) by {
            assert forall|x: Seq<char>| nonblank_of(v@.take(i + 1)).contains(x) implies (nonblank_of(
                v@.take(i as int),
            ).contains(x) || x == v@[i as int]@) by {
                let k = choose|k: int| 0 <= k < i + 1 && (#[trigger] v@.take(i + 1)[k])@ == x;
                if k < i {
                    assert(v@.take(i as int)[k] == v@[k]);
                }
            }
            assert forall|x: Seq<char>| nonblank_of(v@.take(i as int)).contains(x) implies nonblank_of(
                v@.take(i + 1),
            ).contains(x) by {
                let k = choose|k: int| 0 <= k < i && (#[trigger] v@.take(i as int)[k])@ == x;
                assert(v@.take(i + 1)[k] == v@[k]);
            }
            assert(trim(v@[i as int]@).len() > 0 ==> nonblank_of(v@.take(i + 1)).contains(v@[i as int]@)) by {
                assert(v@.take(i + 1)[i as int] == v@[i as int]);
            }
        }
        i += 1;
    }
    assert(v@.take(i as int) =~= v@);
}

fn add_watch_ids(ids: &mut Vec<String>, stages: &Vec<StageWatchlist>)
    requires
        strictly_sorted(strs_view(old(ids)@)),
    ensures
        strictly_sorted(strs_view(final(ids)@)),
        strs_view(final(ids)@).to_set() == strs_view(old(ids)@).to_set() + watch_ids_of(stages@),
{
    let mut j: usize = 0;
    while j < stages.len()
        invariant
            j <= stages@.len(),
            strictly_sorted(strs_view(ids@)),
            strs_view(ids@).to_set() == strs_view(old(ids)@).to_set() + watch_ids_of(stages@.take(j as int)),
        decreases stages@.len() - j,
    {
        let ghost before = strs_view(ids@).to_set();
        let cards = &stages[j].cards;
        let mut k: usize = 0;
        while k < cards.len()
            invariant
                k <= cards@.len(),
                cards == &stages@[j as int].cards,
                strictly_sorted(strs_view(ids@)),
                strs_view(ids@).to_set() == before + Set::new(
                    |x: Seq<char>|
                        trim(x).len() > 0 && exists|m: int| 0 <= m < k && cards@[m].card_id@ == x,
                ),
            decreases cards@.len() - k,
        {
            let id = &cards[k].card_id;
            if trim_chars(&chars_of(id.as_str())).len() > 0 {
                set_insert(ids, string_of(&chars_of(id.as_str())));
            }
            assert(strs_view(ids@).to_set() =~= before + Set::new(
                |x: Seq<char>| trim(x).len() > 0 && exists|m: int| 0 <= m < k + 1 && cards@[m].card_id@ == x,
            ));
            k += 1;
        }
        assert(strs_view(ids@).to_set() =~= strs_view(old(ids)@).to_set() + watch_ids_of(stages@.take(j + 1))) by {
            assert forall|x: Seq<char>| watch_ids_of(stages@.take(j + 1)).contains(x) implies (watch_ids_of(
                stages@.take(j as int),
            ).contains(x) || (trim(x).len() > 0 && exists|m: int|
                0 <= m < cards@.len() && cards@[m].card_id@ == x)) by {
                let (a, b) = choose|a: int, b: int|
                    0 <= a < j + 1 && 0 <= b < stages@.take(j + 1)[a].cards@.len()
                        && (#[trigger] stages@.take(j + 1)[a].cards@[b]).card_id@ == x;
                if a < j {
                    assert(stages@.take(j as int)[a] == stages@[a]);
                } else {
                    assert(cards@[b].card_id@ == x);
                }
            }
            assert forall|x: Seq<char>| watch_ids_of(stages@.take(j as int)).contains(x) implies watch_ids_of(
                stages@.take(j + 1),
            ).contains(x) by {
                let (a, b) = choose|a: int, b: int|
                    0 <= a < j && 0 <= b < stages@.take(j as int)[a].cards@.len()
                        && (#[trigger] stages@.take(j as int)[a].cards@[b]).card_id@ == x;
                assert(stages@.take(j + 1)[a] == stages@[a]);
            }
            assert forall|x: Seq<char>|
                (trim(x).len() > 0 && exists|m: int| 0 <= m < cards@.len() && cards@[m].card_id@ == x) implies watch_ids_of(
                stages@.take(j + 1),
            ).contains(x) by {
                let m = choose|m: int| 0 <= m < cards@.len() && (#[trigger] cards@[m]).card_id@ == x;
                assert(stages@.take(j + 1)[j as int] == stages@[j as int]);
                assert(stages@.take(j + 1)[j as int].cards@[m].card_id@ == x);
            }
        }
        j += 1;
    }
    assert(stages@.take(j as int) =~= stages@);
}


proof fn lemma_facts_insert(cat: CardCatalog, done: Set<Seq<char>>, x: Seq<char>)
    requires
        cat.spec_resolve(x) is Some,
    ensures
        fact_rows(cat, done.insert(x)) == fact_rows(cat, done).insert(fact_row(cat.spec_resolve(x)->0, x)),
        citable_ids(cat, done.insert(x)) == citable_ids(cat, done).insert(x).insert(
            canonical_id(cat.spec_resolve(x)->0, x),
        ),
{
    let r = cat.spec_resolve(x)->0;
    assert forall|row: Seq<char>| #[trigger]
        fact_rows(cat, done.insert(x)).contains(row) implies fact_rows(cat, done).insert(fact_row(r, x)).contains(
        row,
    ) by {
        let id = choose|id: Seq<char>|
            done.insert(x).contains(id) && cat.spec_resolve(id) is Some && row == fact_row(
                cat.spec_resolve(id)->0,
                id,
            );
        if id != x {
            assert(done.contains(id));
        }
    }
    assert forall|row: Seq<char>| #[trigger]
        fact_rows(cat, done).insert(fact_row(r, x)).contains(row) implies fact_rows(cat, done.insert(x)).contains(
        row,
    ) by {
        if row != fact_row(r, x) {
            let id = choose|id: Seq<char>|
                done.contains(id) && cat.spec_resolve(id) is Some && row == fact_row(cat.spec_resolve(id)->0, id);
            assert(done.insert(x).contains(id));
        } else {
            assert(done.insert(x).contains(x));
        }
    }
    assert(fact_rows(cat, done.insert(x)) =~= fact_rows(cat, done).insert(fact_row(r, x)));
    assert forall|y: Seq<char>| #[trigger]
        citable_ids(cat, done.insert(x)).contains(y) implies citable_ids(cat, done).insert(x).insert(
        canonical_id(r, x),
    ).contains(y) by {
        let id = choose|id: Seq<char>|
            done.insert(x).contains(id) && cat.spec_resolve(id) is Some && (y == id || y == canonical_id(
                cat.spec_resolve(id)->0,
                id,
            ));
        if id != x {
            assert(done.contains(id));
        }
    }
    assert forall|y: Seq<char>| #[trigger]
        citable_ids(cat, done).insert(x).insert(canonical_id(r, x)).contains(y) implies citable_ids(
        cat,
        done.insert(x),
    ).contains(y) by {
        if y != x && y != canonical_id(r, x) {
            let id = choose|id: Seq<char>|
                done.contains(id) && cat.spec_resolve(id) is Some && (y == id || y == canonical_id(
                    cat.spec_resolve(id)->0,
                    id,
                ));
            assert(done.insert(x).contains(id));
        } else {
            assert(done.insert(x).contains(x));
        }
    }
    assert(citable_ids(cat, done.insert(x)) =~= citable_ids(cat, done).insert(x).insert(canonical_id(r, x)));
}

proof fn lemma_facts_skip(cat: CardCatalog, done: Set<Seq<char>>, x: Seq<char>)
    requires
        cat.spec_resolve(x) is None,
    ensures
        fact_rows(cat, done.insert(x)) == fact_rows(cat, done),
        citable_ids(cat, done.insert(x)) == citable_ids(cat, done),
{
    assert forall|row: Seq<char>| #[trigger] fact_rows(cat, done.insert(x)).contains(row) implies fact_rows(
        cat,
        done,
    ).contains(row) by {
        let id = choose|id: Seq<char>|
            done.insert(x).contains(id) && cat.spec_resolve(id) is Some && row == fact_row(
                cat.spec_resolve(id)->0,
                id,
            );
        assert(id != x);
        assert(done.contains(id));
    }
    assert forall|row: Seq<char>| #[trigger] fact_rows(cat, done).contains(row) implies fact_rows(
        cat,
        done.insert(x),
    ).contains(row) by {
        let id = choose|id: Seq<char>|
            done.contains(id) && cat.spec_resolve(id) is Some && row == fact_row(cat.spec_resolve(id)->0, id);
        assert(done.insert(x).contains(id));
    }
    assert(fact_rows(cat, done.insert(x)) =~= fact_rows(cat, done));
    assert forall|y: Seq<char>| #[trigger] citable_ids(cat, done.insert(x)).contains(y) implies citable_ids(
        cat,
        done,
    ).contains(y) by {
        let id = choose|id: Seq<char>|
            done.insert(x).contains(id) && cat.spec_resolve(id) is Some && (y == id || y == canonical_id(
                cat.spec_resolve(id)->0,
                id,
            ));
        assert(id != x);
        assert(done.contains(id));
    }
    assert forall|y: Seq<char>| #[trigger] citable_ids(cat, done).contains(y) implies citable_ids(
        cat,
        done.insert(x),
    ).contains(y) by {
        let id = choose|id: Seq<char>|
            done.contains(id) && cat.spec_resolve(id) is Some && (y == id || y == canonical_id(
                cat.spec_resolve(id)->0,
                id,
            ));
        assert(done.insert(x).contains(id));
    }
    assert(citable_ids(cat, done.insert(x)) =~= citable_ids(cat, done));
}

fn fact_row_exec(r: &ResolvedCardMeta, id: &String) -> (row: String)
    ensures
        row@ == fact_row(r@, id@),
{
    let mut out: Vec<char> = Vec::new();
    match r.normal_card_id() {
        Some(n) => push_str(&mut out, n),
        None => push_str(&mut out, id.as_str()),
    }
    push_str(&mut out, " | ");
    match r.preferred_name() {
        Some(n) => push_str(&mut out, n),
        None => push_str(&mut out, id.as_str()),
    }
    push_str(&mut out, " | type=");
    match r.card_type() {
        Some(t) => push_str(&mut out, t),
        None => push_str(&mut out, "UNKNOWN"),
    }
    push_str(&mut out, " | tier=");
    out.append(&mut debug_tier_exec(r.tavern_tier()));
    push_str(&mut out, " | tribes=");
    let tribes = r.tribes();
    proof {
        lemma_sorted_of(strs_view(tribes@));
    }
    out.append(&mut join_strings(&tribes, "/"));
    push_str(&mut out, " | text=");
    let text = match r.preferred_text() {
        Some(t) => sanitize(t),
        None => sanitize(""),
    };
    push_str(&mut out, text.as_str());
    proof {
        assert(""@ =~= Seq::<char>::empty()) by {
            reveal_strlit("");
        }
    }
    string_of(&out)
}

/// The card facts a chat reply may rely on: one line per known CardId
/// (sorted, without repeats) and the CardIds it may cite (sorted).
pub fn chat_card_facts(
    knowledge: &HdtKnowledgeBase,
    snapshot: &AgentSnapshot,
    selected: Option<&CompositionOption>,
    watchlist: Option<&WatchlistResponse>,
) -> (r: (String, Vec<String>))
    ensures
        ({
            let ids = chat_ids(
                *snapshot,
                match selected {
                    Some(c) => Some(*c),
                    None => None,
                },
                match watchlist {
                    Some(w) => Some(*w),
                    None => None,
                },
            );
            &&& r.0@ == join_sep(sorted_of(fact_rows(knowledge.catalog_v(), ids)), "\n"@)
            &&& strictly_sorted(strs_view(r.1@))
            &&& strs_view(r.1@).to_set() == citable_ids(knowledge.catalog_v(), ids)
        }),
{
    let mut ids: Vec<String> = Vec::new();
    assert(strs_view(ids@).to_set() =~= Set::<Seq<char>>::empty());
    add_card_ids(&mut ids, &snapshot.board);
    add_card_ids(&mut ids, &snapshot.hand);
    add_card_ids(&mut ids, &snapshot.shop);
    add_card_ids(&mut ids, &snapshot.trinkets);
    add_card_ids(&mut ids, &snapshot.opponent_board);
    let ghost base = strs_view(ids@).to_set();
    match selected {
        Some(c) => add_nonblank(&mut ids, &c.core_card_ids),
        None => {},
    }
    let ghost with_core = strs_view(ids@).to_set();
    match watchlist {
        Some(w) => add_watch_ids(&mut ids, &w.stages),
        None => {},
    }
    let ghost all = chat_ids(
        *snapshot,
        match selected {
            Some(c) => Some(*c),
            None => None,
        },
        match watchlist {
            Some(w) => Some(*w),
            None => None,
        },
    );
    assert(strs_view(ids@).to_set() =~= all);
    let catalog = knowledge.catalog();
    let mut rows: Vec<String> = Vec::new();
    let mut trusted: Vec<String> = Vec::new();
    assert(strs_view(rows@).to_set() =~= Set::<Seq<char>>::empty());
    assert(strs_view(trusted@).to_set() =~= Set::<Seq<char>>::empty());
    let mut i: usize = 0;
    while i < ids.len()
        invariant
            i <= ids@.len(),
            *catalog == knowledge.catalog_v(),
            strictly_sorted(strs_view(rows@)),
            strictly_sorted(strs_view(trusted@)),
            strs_view(rows@).to_set() == fact_rows(*catalog, strs_view(ids@).take(i as int).to_set()),
            strs_view(trusted@).to_set() == citable_ids(*catalog, strs_view(ids@).take(i as int).to_set()),
        decreases ids@.len() - i,
    {
        let ghost done = strs_view(ids@).take(i as int).to_set();
        let ghost next = strs_view(ids@).take(i + 1).to_set();
        let ghost x = strs_view(ids@)[i as int];
        assert(next =~= done.insert(x)) by {
            assert(strs_view(ids@).take(i + 1) =~= strs_view(ids@).take(i as int).push(x));
            strs_view(ids@).take(i as int).lemma_push_to_set_commute(x);
        }
        let id = &ids[i];
        assert(id@ == x);
        match catalog.resolve(id.as_str()) {
            Some(meta) => {
                let row = fact_row_exec(&meta, id);
                set_insert(&mut rows, row);
                let canonical = match meta.normal_card_id() {
                    Some(n) => string_of(&chars_of(n)),
                    None => string_of(&chars_of(id.as_str())),
                };
                set_insert(&mut trusted, string_of(&chars_of(id.as_str())));
                set_insert(&mut trusted, canonical);
                proof {
                    lemma_facts_insert(*catalog, done, x);
                }
            },
            None => {
                proof {
                    lemma_facts_skip(*catalog, done, x);
                }
            },
        }
        i += 1;
    }
    assert(strs_view(ids@).take(i as int) =~= strs_view(ids@));
    proof {
        lemma_sorted_of(strs_view(rows@));
    }
    let text = join_strings(&rows, "\n");
    (string_of(&text), trusted)
}

} // verus!
