//! The runtime's decision rules on single values: rounds, shop revision
//! causes, combat results and choice kinds.

use vstd::prelude::*;

use crate::harness::archive::{ChoiceKind, CombatResult, RecruitActionKind, ShopRevisionCause};
use crate::harness::power::event::{opt_view, PowerEvent, PowerEventV, TagTarget, TagTargetV, TagValue, TagValueV};
use crate::harness::state::projector::position_key;
use crate::harness::state::snapshot::{cards_view, CardSnapshot, CardSnapshotV};
use crate::text::{chars_eq, chars_of, contains, find_exec, lower_chars, lower_seq, upper_chars, upper_seq};

verus! {

/// Battlegrounds round of a raw game turn: turns 1 and 2 are round 1.
pub open spec fn round_of(raw_turn: u32) -> u32 {
    ((raw_turn as int + 1) / 2) as u32
}

/// Round `r` is made of raw turns `2r - 1` (its recruit) and `2r` (its
/// combat).
pub proof fn lemma_two_turns_per_round(r: u32)
    requires
        1 <= r,
        2 * r <= u32::MAX,
    ensures
        round_of((2 * r - 1) as u32) == r,
        round_of((2 * r) as u32) == r,
{
}

pub fn round_number(raw_turn: u32) -> (r: u32)
    ensures
        r == round_of(raw_turn),
{
    raw_turn / 2 + raw_turn % 2
}

pub open spec fn positive_drop_v(start: Option<i32>, end: Option<i32>) -> Option<i32> {
    match (start, end) {
        (Some(s), Some(e)) => {
            let d = vstd::wrapping::i32_specs::wrapping_sub(s, e);
            Some(
                if d > 0 {
                    d
                } else {
                    0
                },
            )
        },
        _ => None,
    }
}

/// How far a health value fell between two readings, never negative.
pub fn positive_drop(start: Option<i32>, end: Option<i32>) -> (r: Option<i32>)
    ensures
        r == positive_drop_v(start, end),
{
    match (start, end) {
        (Some(s), Some(e)) => {
            let d = s.wrapping_sub(e);
            Some(
                if d > 0 {
                    d
                } else {
                    0
                },
            )
        },
        _ => None,
    }
}

/// The shop revision cause that a recruit action opens, if it can change
/// Bob's offer.
pub open spec fn shop_cause_v(kind: RecruitActionKind) -> Option<ShopRevisionCause> {
    match kind {
        RecruitActionKind::Refresh => Some(ShopRevisionCause::Refresh),
        RecruitActionKind::BuyMinion | RecruitActionKind::BuySpell => Some(ShopRevisionCause::Buy),
        RecruitActionKind::SellMinion => Some(ShopRevisionCause::Sell),
        RecruitActionKind::CastSpell | RecruitActionKind::PlayMinion | RecruitActionKind::PlayCard
        | RecruitActionKind::Activate | RecruitActionKind::SpecialAction
        | RecruitActionKind::UseHeroPower => Some(ShopRevisionCause::SpellOrEffect),
        RecruitActionKind::TavernUpgrade => Some(ShopRevisionCause::OtherAction),
        RecruitActionKind::FreezeToggle | RecruitActionKind::Reorder
        | RecruitActionKind::RecruitAttack => None,
    }
}

pub fn shop_cause_for_action(kind: &RecruitActionKind) -> (r: Option<ShopRevisionCause>)
    ensures
        r == shop_cause_v(*kind),
{
    match kind {
        RecruitActionKind::Refresh => Some(ShopRevisionCause::Refresh),
        RecruitActionKind::BuyMinion | RecruitActionKind::BuySpell => Some(ShopRevisionCause::Buy),
        RecruitActionKind::SellMinion => Some(ShopRevisionCause::Sell),
        RecruitActionKind::CastSpell | RecruitActionKind::PlayMinion | RecruitActionKind::PlayCard
        | RecruitActionKind::Activate | RecruitActionKind::SpecialAction
        | RecruitActionKind::UseHeroPower => Some(ShopRevisionCause::SpellOrEffect),
        RecruitActionKind::TavernUpgrade => Some(ShopRevisionCause::OtherAction),
        RecruitActionKind::FreezeToggle | RecruitActionKind::Reorder
        | RecruitActionKind::RecruitAttack => None,
    }
}

/// The new raw game turn announced by `TAG_CHANGE Entity=GameEntity tag=TURN`.
pub open spec fn game_turn_v(e: PowerEventV) -> Option<u32> {
    match e {
        PowerEventV::TagChanged { target: TagTargetV::GameEntity, tag, value: TagValueV::Int(v) } => if tag
            == "TURN"@ && 0 <= v <= u32::MAX {
            Some(v as u32)
        } else {
            None
        },
        _ => None,
    }
}

pub fn game_turn_from_event(event: &PowerEvent) -> (r: Option<u32>)
    ensures
        r == game_turn_v(event@),
{
    match event {
        PowerEvent::TagChanged { target: TagTarget::GameEntity, tag, value: TagValue::Int(v) } => {
            if chars_eq(&chars_of(tag.as_str()), &chars_of("TURN")) && 0 <= *v && *v <= u32::MAX as i64 {
                Some(*v as u32)
            } else {
                None
            }
        },
        _ => None,
    }
}

/// A combat's outcome: the game's own verdict when it gives one, else what
/// the damage on each side shows.
pub open spec fn combat_result_v(won: Option<bool>, taken: Option<i32>, dealt: Option<i32>) -> CombatResult {
    let t = match taken {
        Some(v) => v > 0,
        None => false,
    };
    let d = match dealt {
        Some(v) => v > 0,
        None => false,
    };
    match won {
        Some(true) => CombatResult::Win,
        Some(false) => if t {
            CombatResult::Loss
        } else {
            CombatResult::Tie
        },
        None => if t && !d {
            CombatResult::Loss
        } else if !t && d {
            CombatResult::Win
        } else if !t && !d {
            CombatResult::Tie
        } else {
            CombatResult::Unknown
        },
    }
}

pub fn combat_result(won: Option<bool>, taken: Option<i32>, dealt: Option<i32>) -> (r: CombatResult)
    ensures
        r == combat_result_v(won, taken, dealt),
{
    let t = match taken {
        Some(v) => v > 0,
        None => false,
    };
    let d = match dealt {
        Some(v) => v > 0,
        None => false,
    };
    match won {
        Some(true) => CombatResult::Win,
        Some(false) => if t {
            CombatResult::Loss
        } else {
            CombatResult::Tie
        },
        None => if t && !d {
            CombatResult::Loss
        } else if !t && d {
            CombatResult::Win
        } else if !t && !d {
            CombatResult::Tie
        } else {
            CombatResult::Unknown
        },
    }
}

pub open spec fn text_or_empty(o: Option<Seq<char>>) -> Seq<char> {
    match o {
        Some(s) => s,
        None => Seq::empty(),
    }
}

/// What identifies a shop card for change detection: entity id, position
/// (unplaced last) and CardId.
pub open spec fn signature_v(cards: Seq<CardSnapshotV>) -> Seq<(u32, i32, Seq<char>)> {
    cards.map_values(|c: CardSnapshotV| (c.entity_id, position_key(c) as i32, text_or_empty(c.card_id)))
}

pub open spec fn sig_view(s: Seq<(u32, i32, String)>) -> Seq<(u32, i32, Seq<char>)> {
    s.map_values(|t: (u32, i32, String)| (t.0, t.1, t.2@))
}

pub fn shop_signature(cards: &Vec<CardSnapshot>) -> (r: Vec<(u32, i32, String)>)
    ensures
        sig_view(r@) == signature_v(cards_view(cards@)),
{
    let mut r: Vec<(u32, i32, String)> = Vec::new();
    let mut i: usize = 0;
    while i < cards.len()
        invariant
            i <= cards@.len(),
            sig_view(r@) == signature_v(cards_view(cards@)).take(i as int),
        decreases cards@.len() - i,
    {
        let c = &cards[i];
        let pos: i32 = match c.zone_position {
            Some(p) => p,
            None => i32::MAX,
        };
        let id: String = match &c.card_id {
            Some(s) => s.clone(),
            None => String::new(),
        };
        let ghost before = r@;
        r.push((c.entity_id, pos, id));
        assert(sig_view(r@) =~= sig_view(before).push((c.entity_id, pos, text_or_empty(opt_view(c.card_id)))));
        assert(signature_v(cards_view(cards@)).take(i + 1) =~= signature_v(cards_view(cards@)).take(i as int).push(
            signature_v(cards_view(cards@))[i as int],
        ));
        i += 1;
    }
    assert(signature_v(cards_view(cards@)).take(i as int) =~= signature_v(cards_view(cards@)));
    r
}

pub fn signature_eq(a: &Vec<(u32, i32, String)>, b: &Vec<(u32, i32, String)>) -> (r: bool)
    ensures
        r == (sig_view(a@) == sig_view(b@)),
{
    if a.len() != b.len() {
        assert(sig_view(a@).len() != sig_view(b@).len());
        return false;
    }
    let mut i: usize = 0;
    while i < a.len()
        invariant
            i <= a@.len(),
            a@.len() == b@.len(),
            forall|k: int| 0 <= k < i ==> sig_view(a@)[k] == sig_view(b@)[k],
        decreases a@.len() - i,
    {
        if a[i].0 != b[i].0 || a[i].1 != b[i].1 || !chars_eq(&chars_of(a[i].2.as_str()), &chars_of(b[i].2.as_str())) {
            assert(sig_view(a@)[i as int] != sig_view(b@)[i as int]);
            return false;
        }
        i += 1;
    }
    assert(sig_view(a@) =~= sig_view(b@));
    true
}

fn contains_exec(s: &[char], p: &str) -> (r: bool)
    ensures
        r == contains(s@, p@),
{
    find_exec(s, &chars_of(p)).is_some()
}

/// Whether a card's type or CardId, upper-cased, contains `pat`.
pub open spec fn card_mentions(c: CardSnapshotV, pat: Seq<char>) -> bool {
    (c.card_type is Some && contains(upper_seq(c.card_type->0), pat)) || (c.card_id is Some && contains(
        upper_seq(c.card_id->0),
        pat,
    ))
}

fn card_mentions_exec(c: &CardSnapshot, pat: &str) -> (r: bool)
    ensures
        r == card_mentions(c@, pat@),
{
    (match &c.card_type {
        Some(t) => contains_exec(&upper_chars(&chars_of(t.as_str())), pat),
        None => false,
    }) || (match &c.card_id {
        Some(t) => contains_exec(&upper_chars(&chars_of(t.as_str())), pat),
        None => false,
    })
}

pub open spec fn any_trinket(options: Seq<CardSnapshotV>) -> bool {
    exists|i: int| 0 <= i < options.len() && card_mentions(#[trigger] options[i], "TRINKET"@)
}

pub open spec fn is_dark_gift_card(c: CardSnapshotV) -> bool {
    card_mentions(c, "DARK_GIFT"@) || card_mentions(c, "DARKGIFT"@)
}

pub open spec fn any_dark_gift(options: Seq<CardSnapshotV>) -> bool {
    exists|i: int| 0 <= i < options.len() && is_dark_gift_card(#[trigger] options[i])
}

/// The kind of a choice: the mulligan offers heroes; a trinket or dark gift
/// source or option marks those; other general choices are discovers.
pub open spec fn classify_v(
    choice_type: Seq<char>,
    source_card_id: Option<Seq<char>>,
    source_name: Option<Seq<char>>,
    options: Seq<CardSnapshotV>,
) -> ChoiceKind {
    let sid = upper_seq(text_or_empty(source_card_id));
    let sname = lower_seq(text_or_empty(source_name));
    if choice_type == "MULLIGAN"@ {
        ChoiceKind::Hero
    } else if contains(sid, "TRINKET"@) || contains(sname, "trinket"@) || contains(sname, "饰品"@)
        || any_trinket(options) {
        ChoiceKind::Trinket
    } else if contains(sid, "DARK_GIFT"@) || contains(sid, "DARKGIFT"@) || contains(sname, "dark gift"@)
        || contains(sname, "黑暗赠礼"@) || any_dark_gift(options) {
        ChoiceKind::DarkGift
    } else if choice_type == "GENERAL"@ {
        ChoiceKind::Discover
    } else {
        ChoiceKind::Other
    }
}

pub fn classify_choice(
    choice_type: &str,
    source_card_id: Option<&str>,
    source_name: Option<&str>,
    options: &Vec<CardSnapshot>,
) -> (r: ChoiceKind)
    ensures
        r == classify_v(
            choice_type@,
            crate::harness::card_catalog::opt_str_view(source_card_id),
            crate::harness::card_catalog::opt_str_view(source_name),
            cards_view(options@),
        ),
{
    if chars_eq(&chars_of(choice_type), &chars_of("MULLIGAN")) {
        return ChoiceKind::Hero;
    }
    let sid = upper_chars(
        &match source_card_id {
            Some(s) => chars_of(s),
            None => Vec::new(),
        },
    );
    let sname = lower_chars(
        &match source_name {
            Some(s) => chars_of(s),
            None => Vec::new(),
        },
    );
    let ghost ov = cards_view(options@);
    let mut trinket = false;
    let mut dark = false;
    let mut i: usize = 0;
    while i < options.len()
        invariant
            i <= options@.len(),
            ov == cards_view(options@),
            trinket == exists|k: int| 0 <= k < i && card_mentions(#[trigger] ov[k], "TRINKET"@),
            dark == exists|k: int| 0 <= k < i && is_dark_gift_card(#[trigger] ov[k]),
        decreases options@.len() - i,
    {
        let o = &options[i];
        assert(ov[i as int] == o@);
        if card_mentions_exec(o, "TRINKET") {
            trinket = true;
        }
        if card_mentions_exec(o, "DARK_GIFT") || card_mentions_exec(o, "DARKGIFT") {
            dark = true;
        }
        i += 1;
    }
    if contains_exec(&sid, "TRINKET") || contains_exec(&sname, "trinket") || contains_exec(&sname, "饰品")
        || trinket {
        return ChoiceKind::Trinket;
    }
    if contains_exec(&sid, "DARK_GIFT") || contains_exec(&sid, "DARKGIFT") || contains_exec(&sname, "dark gift")
        || contains_exec(&sname, "黑暗赠礼") || dark {
        return ChoiceKind::DarkGift;
    }
    if chars_eq(&chars_of(choice_type), &chars_of("GENERAL")) {
        ChoiceKind::Discover
    } else {
        ChoiceKind::Other
    }
}


/// What the recruit block reveals of its source card.
pub struct ActionFacts {
    pub block_type: String,
    pub source_card_id: Option<String>,
    pub source_type: Option<String>,
    pub source_zone: Option<String>,
    /// The source's controller is the local player (both unknown counts).
    pub local_source: bool,
    /// The source has the Activate keyword and it is usable now.
    pub activatable: bool,
}

pub struct ActionFactsV {
    pub block_type: Seq<char>,
    pub source_card_id: Option<Seq<char>>,
    pub source_type: Option<Seq<char>>,
    pub source_zone: Option<Seq<char>>,
    pub local_source: bool,
    pub activatable: bool,
}

impl View for ActionFacts {
    type V = ActionFactsV;

    open spec fn view(&self) -> ActionFactsV {
        ActionFactsV {
            block_type: self.block_type@,
            source_card_id: opt_view(self.source_card_id),
            source_type: opt_view(self.source_type),
            source_zone: opt_view(self.source_zone),
            local_source: self.local_source,
            activatable: self.activatable,
        }
    }
}

/// The recruit action that a block opened after a SendOption stands for.
pub open spec fn action_kind_v(f: ActionFactsV) -> Option<RecruitActionKind> {
    let local = f.local_source;
    let ty = f.source_type;
    let zone = f.source_zone;
    if f.block_type == "MOVE_MINION"@ && local {
        Some(RecruitActionKind::Reorder)
    } else if f.block_type == "ATTACK"@ && local {
        Some(RecruitActionKind::RecruitAttack)
    } else if f.block_type == "POWER"@ && local && ty == Some("HERO_POWER"@) {
        Some(RecruitActionKind::UseHeroPower)
    } else if f.block_type == "POWER"@ && local && f.activatable {
        Some(RecruitActionKind::Activate)
    } else if f.block_type == "POWER"@ && local && ty == Some("GAME_MODE_BUTTON"@) {
        Some(RecruitActionKind::SpecialAction)
    } else if f.block_type == "PLAY"@ {
        let id = f.source_card_id;
        if id == Some("TB_BaconShop_8p_Reroll_Button"@) || id == Some("TB_BaconShop_8P_Reroll_Button"@) {
            Some(RecruitActionKind::Refresh)
        } else if id == Some("TB_BaconShop_DragBuy"@) {
            Some(RecruitActionKind::BuyMinion)
        } else if id == Some("TB_BaconShop_DragBuy_Spell"@) {
            Some(RecruitActionKind::BuySpell)
        } else if id == Some("TB_BaconShop_DragSell"@) {
            Some(RecruitActionKind::SellMinion)
        } else if id == Some("TB_BaconShopLockAll_Button"@) {
            Some(RecruitActionKind::FreezeToggle)
        } else if id is Some && crate::text::starts_with(id->0, "TB_BaconShopTechUp"@) {
            Some(RecruitActionKind::TavernUpgrade)
        } else if local && zone == Some("PLAY"@) && ty == Some("MINION"@) && f.activatable {
            Some(RecruitActionKind::Activate)
        } else if local && zone == Some("HAND"@) && ty == Some("MINION"@) {
            Some(RecruitActionKind::PlayMinion)
        } else if local && zone == Some("HAND"@) && (ty == Some("BATTLEGROUND_SPELL"@) || ty == Some("SPELL"@)) {
            Some(RecruitActionKind::CastSpell)
        } else if local && ty == Some("HERO_POWER"@) {
            Some(RecruitActionKind::UseHeroPower)
        } else if local && ty == Some("GAME_MODE_BUTTON"@) {
            Some(RecruitActionKind::SpecialAction)
        } else if local && zone == Some("HAND"@) {
            Some(RecruitActionKind::PlayCard)
        } else {
            None
        }
    } else {
        None
    }
}

fn opt_is(o: &Option<String>, lit: &str) -> (r: bool)
    ensures
        r == (opt_view(*o) == Some(lit@)),
{
    match o {
        Some(s) => chars_eq(&chars_of(s.as_str()), &chars_of(lit)),
        None => false,
    }
}

pub fn classify_action(f: &ActionFacts) -> (r: Option<RecruitActionKind>)
    ensures
        r == action_kind_v(f@),
{
    let bt = chars_of(f.block_type.as_str());
    let local = f.local_source;
    let hero_power = opt_is(&f.source_type, "HERO_POWER");
    let button = opt_is(&f.source_type, "GAME_MODE_BUTTON");
    let minion = opt_is(&f.source_type, "MINION");
    let spell = opt_is(&f.source_type, "BATTLEGROUND_SPELL") || opt_is(&f.source_type, "SPELL");
    let in_hand = opt_is(&f.source_zone, "HAND");
    let in_play = opt_is(&f.source_zone, "PLAY");
    if chars_eq(&bt, &chars_of("MOVE_MINION")) && local {
        Some(RecruitActionKind::Reorder)
    } else if chars_eq(&bt, &chars_of("ATTACK")) && local {
        Some(RecruitActionKind::RecruitAttack)
    } else if chars_eq(&bt, &chars_of("POWER")) && local && hero_power {
        Some(RecruitActionKind::UseHeroPower)
    } else if chars_eq(&bt, &chars_of("POWER")) && local && f.activatable {
        Some(RecruitActionKind::Activate)
    } else if chars_eq(&bt, &chars_of("POWER")) && local && button {
        Some(RecruitActionKind::SpecialAction)
    } else if chars_eq(&bt, &chars_of("PLAY")) {
        let id = &f.source_card_id;
        let tech_up = match id {
            Some(s) => crate::text::starts_with_exec(&chars_of(s.as_str()), &chars_of("TB_BaconShopTechUp")),
            None => false,
        };
        if opt_is(id, "TB_BaconShop_8p_Reroll_Button") || opt_is(id, "TB_BaconShop_8P_Reroll_Button") {
            Some(RecruitActionKind::Refresh)
        } else if opt_is(id, "TB_BaconShop_DragBuy") {
            Some(RecruitActionKind::BuyMinion)
        } else if opt_is(id, "TB_BaconShop_DragBuy_Spell") {
            Some(RecruitActionKind::BuySpell)
        } else if opt_is(id, "TB_BaconShop_DragSell") {
            Some(RecruitActionKind::SellMinion)
        } else if opt_is(id, "TB_BaconShopLockAll_Button") {
            Some(RecruitActionKind::FreezeToggle)
        } else if tech_up {
            Some(RecruitActionKind::TavernUpgrade)
        } else if local && in_play && minion && f.activatable {
            Some(RecruitActionKind::Activate)
        } else if local && in_hand && minion {
            Some(RecruitActionKind::PlayMinion)
        } else if local && in_hand && spell {
            Some(RecruitActionKind::CastSpell)
        } else if local && hero_power {
            Some(RecruitActionKind::UseHeroPower)
        } else if local && button {
            Some(RecruitActionKind::SpecialAction)
        } else if local && in_hand {
            Some(RecruitActionKind::PlayCard)
        } else {
            None
        }
    } else {
        None
    }
}


/// The shop's own buttons, played as cards, stand for fixed recruit actions
/// whoever the source belongs to and whatever else is known of it: the
/// reroll button refreshes, the drag-to-buy card buys a minion (its spell
/// variant buys a spell), the drag-to-sell card sells a minion, the lock
/// button toggles the freeze, and a tech-up card upgrades the tavern.
pub proof fn lemma_shop_buttons_classify(f: ActionFactsV)
    requires
        f.block_type == "PLAY"@,
    ensures
        f.source_card_id == Some("TB_BaconShop_8p_Reroll_Button"@) ==> action_kind_v(f) == Some(
            RecruitActionKind::Refresh,
        ),
        f.source_card_id == Some("TB_BaconShop_8P_Reroll_Button"@) ==> action_kind_v(f) == Some(
            RecruitActionKind::Refresh,
        ),
        f.source_card_id == Some("TB_BaconShop_DragBuy"@) ==> action_kind_v(f) == Some(RecruitActionKind::BuyMinion),
        f.source_card_id == Some("TB_BaconShop_DragBuy_Spell"@) ==> action_kind_v(f) == Some(
            RecruitActionKind::BuySpell,
        ),
        f.source_card_id == Some("TB_BaconShop_DragSell"@) ==> action_kind_v(f) == Some(
            RecruitActionKind::SellMinion,
        ),
        f.source_card_id == Some("TB_BaconShopLockAll_Button"@) ==> action_kind_v(f) == Some(
            RecruitActionKind::FreezeToggle,
        ),
        f.source_card_id == Some("TB_BaconShopTechUp02"@) ==> action_kind_v(f) == Some(
            RecruitActionKind::TavernUpgrade,
        ),
{
    reveal_strlit("PLAY");
    reveal_strlit("MOVE_MINION");
    reveal_strlit("ATTACK");
    reveal_strlit("POWER");
    reveal_strlit("TB_BaconShop_8p_Reroll_Button");
    reveal_strlit("TB_BaconShop_8P_Reroll_Button");
    reveal_strlit("TB_BaconShop_DragBuy");
    reveal_strlit("TB_BaconShop_DragBuy_Spell");
    reveal_strlit("TB_BaconShop_DragSell");
    reveal_strlit("TB_BaconShopLockAll_Button");
    reveal_strlit("TB_BaconShopTechUp");
    reveal_strlit("TB_BaconShopTechUp02");
    assert("PLAY"@.len() != "POWER"@.len());
    assert("PLAY"@.len() != "ATTACK"@.len());
    assert("PLAY"@.len() != "MOVE_MINION"@.len());
    let t = "TB_BaconShopTechUp02"@;
    assert(t.take(18) =~= "TB_BaconShopTechUp"@);
    assert(crate::text::starts_with(t, "TB_BaconShopTechUp"@));
    assert("TB_BaconShop_DragSell"@ != "TB_BaconShop_DragBuy"@) by {
        assert("TB_BaconShop_DragSell"@[17] != "TB_BaconShop_DragBuy"@[17]);
    }
    assert("TB_BaconShop_DragSell"@.len() != "TB_BaconShop_8p_Reroll_Button"@.len());
    assert("TB_BaconShop_DragBuy"@.len() != "TB_BaconShop_8P_Reroll_Button"@.len());
    assert("TB_BaconShop_DragBuy_Spell"@.len() != "TB_BaconShop_8P_Reroll_Button"@.len());
    assert("TB_BaconShop_DragBuy_Spell"@.len() != "TB_BaconShop_DragBuy"@.len());
    assert("TB_BaconShopLockAll_Button"@.len() != "TB_BaconShop_8P_Reroll_Button"@.len());
    assert("TB_BaconShopLockAll_Button"@.len() != "TB_BaconShop_DragBuy"@.len());
    assert("TB_BaconShopLockAll_Button"@.len() != "TB_BaconShop_DragSell"@.len());
    assert("TB_BaconShop_DragBuy_Spell"@.len() != "TB_BaconShop_DragSell"@.len());
    assert(t.len() != "TB_BaconShop_8P_Reroll_Button"@.len());
    assert(t != "TB_BaconShop_DragBuy"@) by {
        assert(t[12] != "TB_BaconShop_DragBuy"@[12]);
    }
    assert(t.len() != "TB_BaconShop_DragSell"@.len());
    assert("TB_BaconShop_8P_Reroll_Button"@ != "TB_BaconShop_8p_Reroll_Button"@) by {
        assert("TB_BaconShop_8P_Reroll_Button"@[14] != "TB_BaconShop_8p_Reroll_Button"@[14]);
    }
    assert("TB_BaconShopLockAll_Button"@ != "TB_BaconShop_DragBuy_Spell"@) by {
        assert("TB_BaconShopLockAll_Button"@[12] != "TB_BaconShop_DragBuy_Spell"@[12]);
    }
    assert(t != "TB_BaconShop_DragBuy_Spell"@) by {
        assert(t[12] != "TB_BaconShop_DragBuy_Spell"@[12]);
    }
    assert(t.len() != "TB_BaconShopLockAll_Button"@.len());
}

/// A card the player plays from their own hand is a minion played, a
/// spell cast, or another card played; a minion of theirs already in play
/// that can be activated is activated. (Shop buttons aside: the source here
/// names no CardId.)
pub proof fn lemma_hand_plays_classify(f: ActionFactsV)
    requires
        f.block_type == "PLAY"@,
        f.source_card_id is None,
        f.local_source,
    ensures
        f.source_zone == Some("HAND"@) && f.source_type == Some("MINION"@) ==> action_kind_v(f) == Some(
            RecruitActionKind::PlayMinion,
        ),
        f.source_zone == Some("HAND"@) && (f.source_type == Some("BATTLEGROUND_SPELL"@) || f.source_type == Some(
            "SPELL"@,
        )) ==> action_kind_v(f) == Some(RecruitActionKind::CastSpell),
        f.source_zone == Some("PLAY"@) && f.source_type == Some("MINION"@) && f.activatable ==> action_kind_v(f)
            == Some(RecruitActionKind::Activate),
        f.source_zone == Some("HAND"@) && f.source_type is None ==> action_kind_v(f) == Some(
            RecruitActionKind::PlayCard,
        ),
{
    reveal_strlit("PLAY");
    reveal_strlit("POWER");
    reveal_strlit("ATTACK");
    reveal_strlit("MOVE_MINION");
    reveal_strlit("HAND");
    reveal_strlit("MINION");
    reveal_strlit("SPELL");
    reveal_strlit("BATTLEGROUND_SPELL");
    reveal_strlit("HERO_POWER");
    reveal_strlit("GAME_MODE_BUTTON");
    assert("PLAY"@.len() != "POWER"@.len());
    assert("PLAY"@.len() != "ATTACK"@.len());
    assert("PLAY"@.len() != "MOVE_MINION"@.len());
    assert("HAND"@ != "PLAY"@) by {
        assert("HAND"@[0] != "PLAY"@[0]);
    }
    assert("MINION"@.len() != "BATTLEGROUND_SPELL"@.len());
    assert("MINION"@.len() != "SPELL"@.len());
    assert("MINION"@.len() != "HERO_POWER"@.len());
    assert("MINION"@.len() != "GAME_MODE_BUTTON"@.len());
    assert("SPELL"@.len() != "HERO_POWER"@.len());
    assert("SPELL"@.len() != "GAME_MODE_BUTTON"@.len());
    assert("BATTLEGROUND_SPELL"@.len() != "HERO_POWER"@.len());
    assert("BATTLEGROUND_SPELL"@.len() != "GAME_MODE_BUTTON"@.len());
}

/// Any tech-up card played is a tavern upgrade.
pub proof fn lemma_tech_up_classifies(f: ActionFactsV)
    requires
        f.block_type == "PLAY"@,
        f.source_card_id matches Some(id) && crate::text::starts_with(id, "TB_BaconShopTechUp"@),
    ensures
        action_kind_v(f) == Some(RecruitActionKind::TavernUpgrade),
{
    reveal_strlit("PLAY");
    reveal_strlit("POWER");
    reveal_strlit("ATTACK");
    reveal_strlit("MOVE_MINION");
    reveal_strlit("TB_BaconShopTechUp");
    reveal_strlit("TB_BaconShop_8p_Reroll_Button");
    reveal_strlit("TB_BaconShop_8P_Reroll_Button");
    reveal_strlit("TB_BaconShop_DragBuy");
    reveal_strlit("TB_BaconShop_DragBuy_Spell");
    reveal_strlit("TB_BaconShop_DragSell");
    reveal_strlit("TB_BaconShopLockAll_Button");
    assert("PLAY"@.len() != "POWER"@.len());
    assert("PLAY"@.len() != "ATTACK"@.len());
    assert("PLAY"@.len() != "MOVE_MINION"@.len());
    let id = f.source_card_id->0;
    assert(id[12] == "TB_BaconShopTechUp"@[12]) by {
        assert(id.take(18)[12] == id[12]);
    }
    assert(id != "TB_BaconShop_8p_Reroll_Button"@ && id != "TB_BaconShop_8P_Reroll_Button"@ && id
        != "TB_BaconShop_DragBuy"@ && id != "TB_BaconShop_DragBuy_Spell"@ && id != "TB_BaconShop_DragSell"@ && id
        != "TB_BaconShopLockAll_Button"@) by {
        assert("TB_BaconShop_8p_Reroll_Button"@[12] != id[12]);
        assert("TB_BaconShop_8P_Reroll_Button"@[12] != id[12]);
        assert("TB_BaconShop_DragBuy"@[12] != id[12]);
        assert("TB_BaconShop_DragBuy_Spell"@[12] != id[12]);
        assert("TB_BaconShop_DragSell"@[12] != id[12]);
        assert("TB_BaconShopLockAll_Button"@[12] != id[12]);
    }
}

/// A block whose source is not the player's own and that names no CardId
/// stands for no recruit action.
pub proof fn lemma_foreign_blocks_are_no_action(f: ActionFactsV)
    requires
        !f.local_source,
        f.source_card_id is None,
    ensures
        action_kind_v(f) is None,
{
}

/// Purchases settle the shop as a buy, sales as a sale, refreshes as a
/// refresh; reordering, attacking and freezing leave no shop revision cause.
pub proof fn lemma_shop_causes()
    ensures
        shop_cause_v(RecruitActionKind::BuyMinion) == Some(ShopRevisionCause::Buy),
        shop_cause_v(RecruitActionKind::BuySpell) == Some(ShopRevisionCause::Buy),
        shop_cause_v(RecruitActionKind::SellMinion) == Some(ShopRevisionCause::Sell),
        shop_cause_v(RecruitActionKind::Refresh) == Some(ShopRevisionCause::Refresh),
        shop_cause_v(RecruitActionKind::TavernUpgrade) == Some(ShopRevisionCause::OtherAction),
        shop_cause_v(RecruitActionKind::FreezeToggle) is None,
        shop_cause_v(RecruitActionKind::Reorder) is None,
        shop_cause_v(RecruitActionKind::RecruitAttack) is None,
{
}

/// Blocks other than a move, an attack, a power or a play stand for no
/// recruit action; a local move is a reorder and a local attack a recruit
/// attack.
pub proof fn lemma_block_kinds(f: ActionFactsV)
    ensures
        f.block_type != "MOVE_MINION"@ && f.block_type != "ATTACK"@ && f.block_type != "POWER"@ && f.block_type
            != "PLAY"@ ==> action_kind_v(f) is None,
        f.block_type == "MOVE_MINION"@ && f.local_source ==> action_kind_v(f) == Some(RecruitActionKind::Reorder),
        f.block_type == "ATTACK"@ && f.local_source ==> action_kind_v(f) == Some(RecruitActionKind::RecruitAttack),
        f.block_type == "POWER"@ && f.local_source && f.source_type == Some("HERO_POWER"@) ==> action_kind_v(f)
            == Some(RecruitActionKind::UseHeroPower),
{
    reveal_strlit("MOVE_MINION");
    reveal_strlit("ATTACK");
    reveal_strlit("POWER");
    reveal_strlit("PLAY");
    assert("MOVE_MINION"@.len() != "ATTACK"@.len());
    assert("MOVE_MINION"@.len() != "POWER"@.len());
    assert("ATTACK"@.len() != "POWER"@.len());
    assert("PLAY"@.len() != "POWER"@.len());
    assert("PLAY"@.len() != "ATTACK"@.len());
    assert("PLAY"@.len() != "MOVE_MINION"@.len());
}
} // verus!
