//! Bookkeeping of the coach's live state: the bounded chat and replan
//! histories, usage totals, the options of an open choice and the cards of
//! the shop as the panel shows them.
use vstd::prelude::*;

use crate::demo::model::{AiUsage, ChatMessage, ChoiceOptionView, ReplanEvent, ReplanEventV};
use crate::harness::archive::ChoiceArchive;
use crate::harness::card_catalog::CardCatalog;
use crate::harness::state::snapshot::{cards_view, CardSnapshotV};
use crate::text::{chars_eq, chars_of, nat_text, string_of, u64_text};

verus! {

/// The chat keeps its 20 latest messages.
pub fn trim_chat_history(messages: &mut Vec<ChatMessage>)
    ensures
        final(messages)@ == if old(messages)@.len() > 20 {
            old(messages)@.skip(old(messages)@.len() - 20)
        } else {
            old(messages)@
        },
{
    let n = messages.len();
    if n > 20 {
        let mut kept: Vec<ChatMessage> = Vec::new();
        let mut rest = messages.split_off(n - 20);
        assert(rest@ =~= old(messages)@.skip(n - 20));
        kept.append(&mut rest);
        *messages = kept;
        assert(messages@ =~= old(messages)@.skip(n - 20));
    }
}

pub open spec fn replans_v(v: Seq<ReplanEvent>) -> Seq<ReplanEventV> {
    v.map_values(|e: ReplanEvent| e@)
}

/// `e` repeats (by code and detail) one of the last eight events of `t`.
pub open spec fn recent_repeat(t: Seq<ReplanEventV>, e: ReplanEventV) -> bool {
    exists|i: int| t.len() - 8 <= i < t.len() && 0 <= i && t[i].code == e.code && t[i].detail == e.detail
}

/// The incoming events appended in order, each unless it repeats a recent one.
pub open spec fn append_new(t: Seq<ReplanEventV>, incoming: Seq<ReplanEventV>) -> Seq<ReplanEventV>
    decreases incoming.len(),
{
    if incoming.len() == 0 {
        t
    } else {
        let t1 = append_new(t, incoming.drop_last());
        if recent_repeat(t1, incoming.last()) {
            t1
        } else {
            t1.push(incoming.last())
        }
    }
}

/// The last `n` items.
pub open spec fn keep_last<A>(s: Seq<A>, n: nat) -> Seq<A> {
    if s.len() > n {
        s.skip(s.len() - n)
    } else {
        s
    }
}

fn copy_event(e: &ReplanEvent) -> (r: ReplanEvent)
    ensures
        r@ == e@,
{
    ReplanEvent::new(e.level, string_of(&chars_of(e.code.as_str())), string_of(&chars_of(e.detail.as_str())))
}

fn repeats_recent(t: &Vec<ReplanEvent>, e: &ReplanEvent) -> (r: bool)
    ensures
        r == recent_repeat(replans_v(t@), e@),
{
    let n = t.len();
    let lo: usize = if n > 8 {
        n - 8
    } else {
        0
    };
    let code = chars_of(e.code.as_str());
    let detail = chars_of(e.detail.as_str());
    let mut i: usize = lo;
    while i < n
        invariant
            lo <= i <= n,
            n == t@.len(),
            lo == (if n > 8 {
                n - 8
            } else {
                0
            }),
            code@ == e.code@,
            detail@ == e.detail@,
            forall|k: int|
                lo <= k < i ==> !(replans_v(t@)[k].code == e@.code && replans_v(t@)[k].detail == e@.detail),
        decreases n - i,
    {
        if chars_eq(&chars_of(t[i].code.as_str()), &code) && chars_eq(
            &chars_of(t[i].detail.as_str()),
            &detail,
        ) {
            assert(replans_v(t@)[i as int] == t@[i as int]@);
            return true;
        }
        assert(replans_v(t@)[i as int] == t@[i as int]@);
        i += 1;
    }
    false
}

/// Appends the events that do not repeat one of the last eight, then keeps
/// the 12 latest.
pub fn append_replan_events(target: &mut Vec<ReplanEvent>, incoming: &[ReplanEvent])
    ensures
        replans_v(final(target)@) == keep_last(append_new(replans_v(old(target)@), replans_v(incoming@)), 12),
{
    let ghost start = replans_v(target@);
    let mut i: usize = 0;
    while i < incoming.len()
        invariant
            i <= incoming@.len(),
            start == replans_v(old(target)@),
            replans_v(target@) == append_new(start, replans_v(incoming@).take(i as int)),
        decreases incoming@.len() - i,
    {
        let ghost t = replans_v(incoming@).take(i + 1);
        assert(t.drop_last() =~= replans_v(incoming@).take(i as int));
        assert(t.last() == incoming@[i as int]@);
        if !repeats_recent(target, &incoming[i]) {
            let ghost before = replans_v(target@);
            target.push(copy_event(&incoming[i]));
            assert(replans_v(target@) =~= before.push(incoming@[i as int]@));
        }
        i += 1;
    }
    assert(replans_v(incoming@).take(i as int) =~= replans_v(incoming@));
    let n = target.len();
    if n > 12 {
        let mut rest = target.split_off(n - 12);
        let ghost before = target@;
        let mut kept: Vec<ReplanEvent> = Vec::new();
        kept.append(&mut rest);
        *target = kept;
        assert(replans_v(target@) =~= append_new(start, replans_v(incoming@)).skip(n - 12));
    }
}

/// `a + b`, at most `u64::MAX`.
pub open spec fn sat_add(a: u64, b: u64) -> u64 {
    if a + b > u64::MAX {
        u64::MAX
    } else {
        (a + b) as u64
    }
}

/// Adds one call's usage to a running total, saturating each counter.
pub fn add_usage(total: &mut AiUsage, delta: &AiUsage)
    ensures
        final(total).prompt_tokens == sat_add(old(total).prompt_tokens, delta.prompt_tokens),
        final(total).completion_tokens == sat_add(old(total).completion_tokens, delta.completion_tokens),
        final(total).total_tokens == sat_add(old(total).total_tokens, delta.total_tokens),
        final(total).prompt_cache_hit_tokens == sat_add(
            old(total).prompt_cache_hit_tokens,
            delta.prompt_cache_hit_tokens,
        ),
        final(total).prompt_cache_miss_tokens == sat_add(
            old(total).prompt_cache_miss_tokens,
            delta.prompt_cache_miss_tokens,
        ),
{
    total.prompt_tokens = total.prompt_tokens.saturating_add(delta.prompt_tokens);
    total.completion_tokens = total.completion_tokens.saturating_add(delta.completion_tokens);
    total.total_tokens = total.total_tokens.saturating_add(delta.total_tokens);
    total.prompt_cache_hit_tokens = total.prompt_cache_hit_tokens.saturating_add(delta.prompt_cache_hit_tokens);
    total.prompt_cache_miss_tokens = total.prompt_cache_miss_tokens.saturating_add(delta.prompt_cache_miss_tokens);
}

/// How an option of a choice is offered: its CardId (or `entity:` and its
/// entity id), its name (or CardId, or `unknown`) and its text.
pub open spec fn option_view_v(c: CardSnapshotV) -> (Seq<char>, Seq<char>, Seq<char>) {
    let id = match c.card_id {
        Some(id) => id,
        None => "entity:"@ + nat_text(c.entity_id as nat),
    };
    let name = match c.name {
        Some(n) => n,
        None => match c.card_id {
            Some(id) => id,
            None => "unknown"@,
        },
    };
    let text = match c.text {
        Some(t) => t,
        None => Seq::empty(),
    };
    (id, name, text)
}

/// The offered views of the options, in order.
pub open spec fn option_views_of(cards: Seq<CardSnapshotV>) -> Seq<(Seq<char>, Seq<char>, Seq<char>)>
    decreases cards.len(),
{
    if cards.len() == 0 {
        Seq::empty()
    } else {
        option_views_of(cards.drop_last()).push(option_view_v(cards.last()))
    }
}

pub open spec fn option_views_v(v: Seq<ChoiceOptionView>) -> Seq<(Seq<char>, Seq<char>, Seq<char>)> {
    v.map_values(|o: ChoiceOptionView| (o.card_id@, o.name@, o.text@))
}

fn copy_text(s: &String) -> (r: String)
    ensures
        r@ == s@,
{
    string_of(&chars_of(s.as_str()))
}

pub fn choice_option_views(choice: &ChoiceArchive) -> (r: Vec<ChoiceOptionView>)
    ensures
        option_views_v(r@) == option_views_of(cards_view(choice.options@)),
{
    let mut out: Vec<ChoiceOptionView> = Vec::new();
    let mut i: usize = 0;
    assert(cards_view(choice.options@).take(0) =~= Seq::<CardSnapshotV>::empty());
    assert(option_views_v(out@) =~= Seq::<(Seq<char>, Seq<char>, Seq<char>)>::empty());
    while i < choice.options.len()
        invariant
            i <= choice.options@.len(),
            option_views_v(out@) == option_views_of(cards_view(choice.options@).take(i as int)),
        decreases choice.options@.len() - i,
    {
        let card = &choice.options[i];
        let card_id = match &card.card_id {
            Some(id) => copy_text(id),
            None => {
                let mut t = chars_of("entity:");
                t.append(&mut u64_text(card.entity_id as u64));
                string_of(&t)
            },
        };
        let name = match &card.name {
            Some(n) => copy_text(n),
            None => match &card.card_id {
                Some(id) => copy_text(id),
                None => string_of(&chars_of("unknown")),
            },
        };
        let text = match &card.text {
            Some(t) => copy_text(t),
            None => String::new(),
        };
        let ghost before = option_views_v(out@);
        let view = ChoiceOptionView { card_id, name, text };
        assert((view.card_id@, view.name@, view.text@) == option_view_v(choice.options@[i as int]@));
        out.push(view);
        assert(cards_view(choice.options@)[i as int] == choice.options@[i as int]@);
        assert(cards_view(choice.options@).take(i + 1).drop_last() =~= cards_view(choice.options@).take(i as int));
        assert(option_views_v(out@) =~= before.push(option_view_v(choice.options@[i as int]@)));
        i += 1;
    }
    assert(cards_view(choice.options@).take(i as int) =~= cards_view(choice.options@));
    out
}

/// A shop card as the panel shows it: its slot, id, name, tier and text.
#[derive(Debug, Clone, Default)]
pub struct ShopCardView {
    pub index: usize,
    pub card_id: String,
    pub name: String,
    pub tavern_tier: Option<u8>,
    pub text: String,
}

pub struct ShopCardViewV {
    pub index: usize,
    pub card_id: Seq<char>,
    pub name: Seq<char>,
    pub tavern_tier: Option<u8>,
    pub text: Seq<char>,
}

impl View for ShopCardView {
    type V = ShopCardViewV;

    open spec fn view(&self) -> ShopCardViewV {
        ShopCardViewV {
            index: self.index,
            card_id: self.card_id@,
            name: self.name@,
            tavern_tier: self.tavern_tier,
            text: self.text@,
        }
    }
}

/// The view of the card in slot `index` with id `id`: the catalog's name
/// (else the id), tier and text (else empty) for the resolved card.
pub open spec fn shop_card_view_v(catalog: CardCatalog, index: usize, id: Seq<char>) -> ShopCardViewV {
    let r = catalog.spec_resolve(id);
    ShopCardViewV {
        index,
        card_id: id,
        name: match r {
            Some(m) => match m.name() {
                Some(n) => n,
                None => id,
            },
            None => id,
        },
        tavern_tier: match r {
            Some(m) => m.tavern_tier(),
            None => None,
        },
        text: match r {
            Some(m) => match m.text() {
                Some(t) => t,
                None => Seq::empty(),
            },
            None => Seq::empty(),
        },
    }
}

/// The shop's cards, slot by slot, as the panel shows them.
pub fn shop_card_views(card_ids: &Vec<String>, catalog: &CardCatalog) -> (r: Vec<ShopCardView>)
    ensures
        r@.len() == card_ids@.len(),
        forall|i: int| 0 <= i < r@.len() ==> #[trigger] r@[i]@ == shop_card_view_v(*catalog, i as usize, card_ids@[i]@),
{
    let mut out: Vec<ShopCardView> = Vec::new();
    let mut i: usize = 0;
    while i < card_ids.len()
        invariant
            i <= card_ids@.len(),
            out@.len() == i,
            forall|k: int| 0 <= k < i ==> #[trigger] out@[k]@ == shop_card_view_v(*catalog, k as usize, card_ids@[k]@),
        decreases card_ids@.len() - i,
    {
        let id = card_ids[i].as_str();
        let resolved = catalog.resolve(id);
        let name = match &resolved {
            Some(m) => match m.preferred_name() {
                Some(n) => copy_text_str(n),
                None => copy_text_str(id),
            },
            None => copy_text_str(id),
        };
        let tavern_tier = match &resolved {
            Some(m) => m.tavern_tier(),
            None => None,
        };
        let text = match &resolved {
            Some(m) => match m.preferred_text() {
                Some(t) => copy_text_str(t),
                None => String::new(),
            },
            None => String::new(),
        };
        let view = ShopCardView { index: i, card_id: copy_text_str(id), name, tavern_tier, text };
        assert(view@ == shop_card_view_v(*catalog, i, card_ids@[i as int]@));
        out.push(view);
        i += 1;
    }
    out
}

fn copy_text_str(s: &str) -> (r: String)
    ensures
        r@ == s@,
{
    string_of(&chars_of(s))
}

} // verus!
