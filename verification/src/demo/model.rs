//! Plain data exchanged with the strategic planner: compositions, watchlists,
//! usage, policies and replan events, and the corrections that chat may make
//! to a plan's policies.

use vstd::prelude::*;

use crate::harness::power::event::opt_view;
use crate::text::{chars_eq, chars_of, lemma_trim_idempotent, string_of, strs_view, trim, trim_chars};

verus! {

#[derive(Debug, Clone)]
pub struct CompositionOption {
    pub id: String,
    pub name: String,
    pub summary: String,
    pub why: String,
    pub difficulty: String,
    pub key_tribes: Vec<String>,
    /// Current HDT pool cards used as factual evidence for this composition.
    pub core_card_ids: Vec<String>,
}

#[derive(Debug, Clone)]
pub struct CompositionResponse {
    pub compositions: Vec<CompositionOption>,
}

#[derive(Debug, Clone)]
pub struct WatchCard {
    pub card_id: String,
    pub name: String,
    pub tavern_tier: Option<u8>,
    pub priority: String,
    pub role: String,
    pub reason: String,
}

#[derive(Debug, Clone)]
pub struct StageWatchlist {
    pub stage: String,
    pub cards: Vec<WatchCard>,
}

#[derive(Debug, Clone)]
pub struct WatchlistResponse {
    pub composition_id: String,
    pub stages: Vec<StageWatchlist>,
}

/// `stage` holds no card with CardId `id`.
pub open spec fn stage_lacks(stage: StageWatchlist, id: Seq<char>) -> bool {
    forall|j: int| 0 <= j < stage.cards@.len() ==> stage.cards@[j].card_id@ != id
}

/// The first card with CardId `id` in `stage`, by index.
pub open spec fn first_in_stage(stage: StageWatchlist, id: Seq<char>, j: int) -> bool {
    &&& 0 <= j < stage.cards@.len()
    &&& stage.cards@[j].card_id@ == id
    &&& forall|m: int| 0 <= m < j ==> stage.cards@[m].card_id@ != id
}

fn find_in_stage(stage: &StageWatchlist, card_id: &str) -> (r: Option<usize>)
    ensures
        match r {
            Some(j) => first_in_stage(*stage, card_id@, j as int),
            None => stage_lacks(*stage, card_id@),
        },
{
    let want = crate::text::chars_of(card_id);
    let mut j: usize = 0;
    while j < stage.cards.len()
        invariant
            j <= stage.cards@.len(),
            want@ == card_id@,
            forall|m: int| 0 <= m < j ==> stage.cards@[m].card_id@ != card_id@,
        decreases stage.cards@.len() - j,
    {
        if crate::text::chars_eq(&crate::text::chars_of(stage.cards[j].card_id.as_str()), &want) {
            return Some(j);
        }
        j += 1;
    }
    None
}

impl WatchlistResponse {
    /// The first listing of `card_id`, stage by stage, with its stage name.
    pub fn find_card(&self, card_id: &str) -> (r: Option<(&str, &WatchCard)>)
        ensures
            match r {
                Some((stage, card)) => exists|i: int, j: int|
                    0 <= i < self.stages@.len() && first_in_stage(self.stages@[i], card_id@, j) && stage@
                        == self.stages@[i].stage@ && *card == self.stages@[i].cards@[j] && forall|k: int|
                        0 <= k < i ==> stage_lacks(#[trigger] self.stages@[k], card_id@),
                None => forall|i: int| 0 <= i < self.stages@.len() ==> stage_lacks(#[trigger] self.stages@[i], card_id@),
            },
    {
        let mut i: usize = 0;
        while i < self.stages.len()
            invariant
                i <= self.stages@.len(),
                forall|k: int| 0 <= k < i ==> stage_lacks(#[trigger] self.stages@[k], card_id@),
            decreases self.stages@.len() - i,
        {
            let stage = &self.stages[i];
            if let Some(j) = find_in_stage(stage, card_id) {
                return Some((stage.stage.as_str(), &stage.cards[j]));
            }
            i += 1;
        }
        None
    }

    /// The first listing of `card_id` in the first stage named `stage_name`.
    pub fn find_card_for_stage(&self, stage_name: &str, card_id: &str) -> (r: Option<(&str, &WatchCard)>)
        ensures
            match r {
                Some((stage, card)) => exists|i: int, j: int|
                    0 <= i < self.stages@.len() && self.stages@[i].stage@ == stage_name@ && (forall|k: int|
                        0 <= k < i ==> #[trigger] self.stages@[k].stage@ != stage_name@) && first_in_stage(
                        self.stages@[i],
                        card_id@,
                        j,
                    ) && stage@ == stage_name@ && *card == self.stages@[i].cards@[j],
                None => forall|i: int|
                    0 <= i < self.stages@.len() && #[trigger] self.stages@[i].stage@ == stage_name@ ==> (
                    stage_lacks(self.stages@[i], card_id@) || exists|k: int|
                        0 <= k < i && self.stages@[k].stage@ == stage_name@),
            },
    {
        let want = crate::text::chars_of(stage_name);
        let mut i: usize = 0;
        while i < self.stages.len()
            invariant
                i <= self.stages@.len(),
                want@ == stage_name@,
                forall|k: int| 0 <= k < i ==> #[trigger] self.stages@[k].stage@ != stage_name@,
            decreases self.stages@.len() - i,
        {
            let stage = &self.stages[i];
            if crate::text::chars_eq(&crate::text::chars_of(stage.stage.as_str()), &want) {
                return match find_in_stage(stage, card_id) {
                    Some(j) => Some((stage.stage.as_str(), &stage.cards[j])),
                    None => None,
                };
            }
            i += 1;
        }
        None
    }
}

#[derive(Debug, Clone)]
pub struct ShopHit {
    pub shop_index: usize,
    pub card_id: String,
    pub name: String,
    pub tavern_tier: Option<u8>,
    pub stage: String,
    pub priority: String,
    pub role: String,
    pub reason: String,
    pub text: String,
}

#[derive(Debug, Clone, Copy, PartialEq, Eq, Structural)]
pub struct AiUsage {
    pub prompt_tokens: u64,
    pub completion_tokens: u64,
    pub total_tokens: u64,
    /// Provider-reported cached prompt tokens when available.
    pub prompt_cache_hit_tokens: u64,
    pub prompt_cache_miss_tokens: u64,
}

impl Default for AiUsage {
    fn default() -> (r: AiUsage)
        ensures
            r == (AiUsage {
                prompt_tokens: 0,
                completion_tokens: 0,
                total_tokens: 0,
                prompt_cache_hit_tokens: 0,
                prompt_cache_miss_tokens: 0,
            }),
    {
        AiUsage {
            prompt_tokens: 0,
            completion_tokens: 0,
            total_tokens: 0,
            prompt_cache_hit_tokens: 0,
            prompt_cache_miss_tokens: 0,
        }
    }
}

#[derive(Debug, Clone)]
pub struct ChatMessage {
    /// `user` / `assistant` / `system`.
    pub role: String,
    pub content: String,
    /// True when this assistant turn changed the live RoundPlan.
    pub plan_changed: bool,
}

#[derive(Debug, Clone)]
pub struct EconomyPolicyPatch {
    pub max_rerolls: Option<u8>,
    pub gold_reserve: Option<i32>,
    pub reason: Option<String>,
}

#[derive(Debug, Clone)]
pub struct TierPolicyPatch {
    pub posture: Option<UpgradePosture>,
    pub target_tier: Option<u8>,
    pub reason: Option<String>,
}

#[derive(Debug, Clone)]
pub struct EconomyPolicy {
    pub max_rerolls: u8,
    pub gold_reserve: i32,
    pub reason: String,
}

impl Default for EconomyPolicy {
    /// Two rerolls, no gold held back.
    fn default() -> (r: EconomyPolicy)
        ensures
            r.max_rerolls == 2,
            r.gold_reserve == 0,
            r.reason@.len() == 0,
    {
        EconomyPolicy { max_rerolls: 2, gold_reserve: 0, reason: String::new() }
    }
}

#[derive(Debug, Clone, Copy, PartialEq, Eq, Structural)]
pub enum UpgradePosture {
    Prefer,
    Neutral,
    Delay,
}

impl Default for UpgradePosture {
    fn default() -> (r: UpgradePosture)
        ensures
            r == UpgradePosture::Neutral,
    {
        UpgradePosture::Neutral
    }
}

#[derive(Debug, Clone)]
pub struct TierPolicy {
    /// Strategic preference only. The deterministic local tier-curve can still
    /// override a soft Delay when the player has fallen badly behind curve.
    pub posture: UpgradePosture,
    pub target_tier: Option<u8>,
    pub reason: String,
}

impl Default for TierPolicy {
    fn default() -> (r: TierPolicy)
        ensures
            r.posture == UpgradePosture::Neutral,
            r.target_tier is None,
            r.reason@.len() == 0,
    {
        TierPolicy { posture: UpgradePosture::Neutral, target_tier: None, reason: String::new() }
    }
}

/// A text field of a correction: trimmed, and only when something is left.
pub open spec fn cleaned_v(value: Option<Seq<char>>) -> Option<Seq<char>> {
    match value {
        Some(v) => if trim(v).len() > 0 {
            Some(trim(v))
        } else {
            None
        },
        None => None,
    }
}

pub fn clean_optional_text(value: Option<&str>) -> (r: Option<String>)
    ensures
        opt_view(r) == cleaned_v(
            match value {
                Some(v) => Some(v@),
                None => None,
            },
        ),
{
    match value {
        Some(v) => {
            let t = trim_chars(&chars_of(v));
            if t.len() > 0 {
                Some(string_of(&t))
            } else {
                None
            }
        },
        None => None,
    }
}

/// The trimmed values that are not blank, in order.
pub open spec fn nonblank_trimmed(values: Seq<Seq<char>>) -> Seq<Seq<char>>
    decreases values.len(),
{
    if values.len() == 0 {
        Seq::empty()
    } else if trim(values.last()).len() > 0 {
        nonblank_trimmed(values.drop_last()).push(trim(values.last()))
    } else {
        nonblank_trimmed(values.drop_last())
    }
}

/// A list field of a correction: its first `limit` trimmed, non-blank values.
pub open spec fn cleaned_list_v(values: Seq<Seq<char>>, limit: usize) -> Seq<Seq<char>> {
    let all = nonblank_trimmed(values);
    if all.len() > limit {
        all.take(limit as int)
    } else {
        all
    }
}

pub fn clean_text_list(values: &Vec<String>, limit: usize) -> (r: Vec<String>)
    ensures
        strs_view(r@) == cleaned_list_v(strs_view(values@), limit),
{
    let ghost vals = strs_view(values@);
    let mut all: Vec<String> = Vec::new();
    let mut i: usize = 0;
    assert(vals.take(0) =~= Seq::<Seq<char>>::empty());
    assert(strs_view(all@) =~= Seq::<Seq<char>>::empty());
    while i < values.len()
        invariant
            i <= values@.len(),
            vals == strs_view(values@),
            strs_view(all@) == nonblank_trimmed(vals.take(i as int)),
        decreases values@.len() - i,
    {
        assert(vals.take(i + 1).drop_last() =~= vals.take(i as int));
        let t = trim_chars(&chars_of(values[i].as_str()));
        if t.len() > 0 {
            let ghost before = strs_view(all@);
            all.push(string_of(&t));
            assert(strs_view(all@) =~= before.push(trim(vals[i as int])));
        }
        i += 1;
    }
    assert(vals.take(i as int) =~= vals);
    if all.len() > limit {
        let mut out: Vec<String> = Vec::new();
        let mut k: usize = 0;
        while k < limit
            invariant
                k <= limit < all@.len(),
                strs_view(out@) == strs_view(all@).take(k as int),
            decreases limit - k,
        {
            let ghost before = strs_view(out@);
            out.push(string_of(&chars_of(all[k].as_str())));
            assert(strs_view(out@) =~= before.push(all@[k as int]@));
            assert(strs_view(all@)[k as int] == all@[k as int]@);
            assert(strs_view(out@) =~= strs_view(all@).take(k + 1));
            k += 1;
        }
        out
    } else {
        all
    }
}

fn same_text(a: &String, b: &String) -> (r: bool)
    ensures
        r == (a@ == b@),
{
    chars_eq(&chars_of(a.as_str()), &chars_of(b.as_str()))
}

/// `reason` replaced by the cleaned correction, when that differs.
pub open spec fn patched_text(current: Seq<char>, incoming: Option<Seq<char>>) -> Seq<char> {
    match cleaned_v(incoming) {
        Some(v) => v,
        None => current,
    }
}

/// Rerolls, reserve and reason of an economy policy after a correction.
pub open spec fn economy_after(patch: EconomyPolicyPatch, p: (u8, i32, Seq<char>)) -> (u8, i32, Seq<char>) {
    (
        match patch.max_rerolls {
            Some(v) => if v < 8 {
                v
            } else {
                8
            },
            None => p.0,
        },
        match patch.gold_reserve {
            Some(v) => if v > 0 {
                v
            } else {
                0
            },
            None => p.1,
        },
        patched_text(p.2, opt_view(patch.reason)),
    )
}

/// Posture, target tier and reason of a tier policy after a correction.
pub open spec fn tier_after(patch: TierPolicyPatch, p: (UpgradePosture, Option<u8>, Seq<char>)) -> (
    UpgradePosture,
    Option<u8>,
    Seq<char>,
) {
    (
        match patch.posture {
            Some(q) => q,
            None => p.0,
        },
        match patch.target_tier {
            Some(t) => Some(
                if t < 1 {
                    1u8
                } else if t > 6 {
                    6u8
                } else {
                    t
                },
            ),
            None => p.1,
        },
        patched_text(p.2, opt_view(patch.reason)),
    )
}

pub open spec fn economy_fields(p: EconomyPolicy) -> (u8, i32, Seq<char>) {
    (p.max_rerolls, p.gold_reserve, p.reason@)
}

pub open spec fn tier_fields(p: TierPolicy) -> (UpgradePosture, Option<u8>, Seq<char>) {
    (p.posture, p.target_tier, p.reason@)
}

/// A correction applied a second time changes nothing: every cleaned field
/// is already what the correction asks for.
pub proof fn lemma_policy_patches_are_idempotent(
    economy: EconomyPolicyPatch,
    e: (u8, i32, Seq<char>),
    tier: TierPolicyPatch,
    t: (UpgradePosture, Option<u8>, Seq<char>),
)
    ensures
        economy_after(economy, economy_after(economy, e)) == economy_after(economy, e),
        tier_after(tier, tier_after(tier, t)) == tier_after(tier, t),
{
    match opt_view(economy.reason) {
        Some(r) => lemma_trim_idempotent(r),
        None => {},
    }
    match opt_view(tier.reason) {
        Some(r) => lemma_trim_idempotent(r),
        None => {},
    }
}

impl EconomyPolicyPatch {
    /// Applies the correction: rerolls capped at 8, a reserve of at least 0,
    /// a non-blank reason trimmed. `true` when a field changed.
    pub fn apply_to(&self, policy: &mut EconomyPolicy) -> (changed: bool)
        ensures
            economy_fields(*final(policy)) == economy_after(*self, economy_fields(*old(policy))),
            changed == (economy_fields(*final(policy)) != economy_fields(*old(policy))),
    {
        let mut changed = false;
        if let Some(value) = self.max_rerolls {
            let value = if value < 8 {
                value
            } else {
                8
            };
            if policy.max_rerolls != value {
                policy.max_rerolls = value;
                changed = true;
            }
        }
        if let Some(value) = self.gold_reserve {
            let value = if value > 0 {
                value
            } else {
                0
            };
            if policy.gold_reserve != value {
                policy.gold_reserve = value;
                changed = true;
            }
        }
        let reason = match &self.reason {
            Some(r) => clean_optional_text(Some(r.as_str())),
            None => None,
        };
        if let Some(value) = reason {
            if !same_text(&policy.reason, &value) {
                policy.reason = value;
                changed = true;
            }
        }
        changed
    }
}

impl TierPolicyPatch {
    /// Applies the correction: the posture, a target tier clamped to 1..=6,
    /// a non-blank reason trimmed. `true` when a field changed.
    pub fn apply_to(&self, policy: &mut TierPolicy) -> (changed: bool)
        ensures
            tier_fields(*final(policy)) == tier_after(*self, tier_fields(*old(policy))),
            changed == (tier_fields(*final(policy)) != tier_fields(*old(policy))),
    {
        let mut changed = false;
        if let Some(value) = self.posture {
            if policy.posture != value {
                policy.posture = value;
                changed = true;
            }
        }
        if let Some(value) = self.target_tier {
            let value = if value < 1 {
                1u8
            } else if value > 6 {
                6u8
            } else {
                value
            };
            if policy.target_tier != Some(value) {
                policy.target_tier = Some(value);
                changed = true;
            }
        }
        let reason = match &self.reason {
            Some(r) => clean_optional_text(Some(r.as_str())),
            None => None,
        };
        if let Some(value) = reason {
            if !same_text(&policy.reason, &value) {
                policy.reason = value;
                changed = true;
            }
        }
        changed
    }
}

#[derive(Debug, Clone)]
pub struct ChoiceOptionView {
    pub card_id: String,
    pub name: String,
    pub text: String,
}

#[derive(Debug, Clone, Copy, PartialEq, Eq, Structural, PartialOrd, Ord)]
pub enum ReplanLevel {
    Tactical,
    Strategic,
    LongTerm,
}

impl Default for ReplanLevel {
    fn default() -> (r: ReplanLevel)
        ensures
            r == ReplanLevel::Tactical,
    {
        ReplanLevel::Tactical
    }
}

#[derive(Debug, Clone)]
pub struct ReplanEvent {
    pub level: ReplanLevel,
    pub code: String,
    pub detail: String,
}

pub struct ReplanEventV {
    pub level: ReplanLevel,
    pub code: Seq<char>,
    pub detail: Seq<char>,
}

impl View for ReplanEvent {
    type V = ReplanEventV;

    open spec fn view(&self) -> ReplanEventV {
        ReplanEventV { level: self.level, code: self.code@, detail: self.detail@ }
    }
}

impl ReplanEvent {
    pub fn new(level: ReplanLevel, code: String, detail: String) -> (r: ReplanEvent)
        ensures
            r@ == (ReplanEventV { level, code: code@, detail: detail@ }),
    {
        ReplanEvent { level, code, detail }
    }
}

} // verus!
