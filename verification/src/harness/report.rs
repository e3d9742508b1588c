//! The Markdown report of an archived match.
use vstd::prelude::*;

use crate::debug_fmt::{
    bool_text, debug_bool, debug_int, debug_opt_string, debug_string_list, debug_strs, debug_text, push_bool,
    push_debug_bool, push_debug_i32, push_debug_u8, push_i64, wide_i32, wide_u8,
};
use crate::demo::hdt_knowledge::{join_sep, join_strings};
use crate::harness::archive::{
    ChoiceArchive, ChoiceKind, CombatArchive, CombatResult, GameArchive, RecruitActionKind, RecruitActionRecord,
    RecruitArchive, RoundArchive, ShopRevision, ShopRevisionCause,
};
use crate::harness::power::event::opt_view;
use crate::harness::state::snapshot::{
    CardKeywords, CardSnapshot, HeroPowerSnapshot, HeroSnapshot, LobbyPlayerSnapshot,
};
use crate::text::{chars_of, int_text, nat_text, push_str, string_of, strs_view, u64_text};

verus! {

/// The text, or `d` when there is none.
pub open spec fn or_text(o: Option<String>, d: Seq<char>) -> Seq<char> {
    match o {
        Some(s) => s@,
        None => d,
    }
}

#[verifier::spinoff_prover]
fn push_or(out: &mut Vec<char>, o: &Option<String>, d: &str)
    ensures
        final(out)@ == old(out)@ + or_text(*o, d@),
{
    match o {
        Some(s) => push_str(out, s.as_str()),
        None => push_str(out, d),
    }
}

#[verifier::spinoff_prover]
fn push_nat(out: &mut Vec<char>, n: u32)
    ensures
        final(out)@ == old(out)@ + nat_text(n as nat),
{
    let mut t = u64_text(n as u64);
    out.append(&mut t);
}

/// `name(CardId)` of a card.
pub open spec fn card_label_v(c: CardSnapshot) -> Seq<char> {
    or_text(c.name, "unknown"@) + "("@ + or_text(c.card_id, "unknown"@) + ")"@
}

pub open spec fn labels_v(cards: Seq<CardSnapshot>) -> Seq<Seq<char>>
    decreases cards.len(),
{
    if cards.len() == 0 {
        Seq::empty()
    } else {
        labels_v(cards.drop_last()).push(card_label_v(cards.last()))
    }
}

/// The labels of the cards, separated by commas.
pub open spec fn label_list_v(cards: Seq<CardSnapshot>) -> Seq<char> {
    join_sep(labels_v(cards), ", "@)
}

#[verifier::spinoff_prover]
fn push_card_label(out: &mut Vec<char>, c: &CardSnapshot)
    ensures
        final(out)@ == old(out)@ + card_label_v(*c),
{
    let ghost start = out@;
    push_or(out, &c.name, "unknown");
    push_str(out, "(");
    push_or(out, &c.card_id, "unknown");
    push_str(out, ")");
    assert(out@ =~= start + card_label_v(*c));
}

#[verifier::spinoff_prover]
fn push_label_list(out: &mut Vec<char>, cards: &Vec<CardSnapshot>)
    ensures
        final(out)@ == old(out)@ + label_list_v(cards@),
{
    let ghost start = out@;
    let mut i: usize = 0;
    assert(labels_v(cards@.take(0)) =~= Seq::<Seq<char>>::empty());
    assert(out@ =~= start + join_sep(labels_v(cards@.take(0)), ", "@));
    while i < cards.len()
        invariant
            i <= cards@.len(),
            out@ == start + join_sep(labels_v(cards@.take(i as int)), ", "@),
        decreases cards@.len() - i,
    {
        let ghost before = out@;
        assert(cards@.take(i + 1).drop_last() =~= cards@.take(i as int));
        if i > 0 {
            push_str(out, ", ");
        }
        push_card_label(out, &cards[i]);
        proof {
            let l = labels_v(cards@.take(i + 1));
            assert(l.drop_last() == labels_v(cards@.take(i as int)));
            assert(l.last() == card_label_v(cards@[i as int]));
            if i == 0 {
                assert(l.len() == 1);
                assert(out@ =~= start + join_sep(l, ", "@));
            } else {
                assert(out@ =~= start + join_sep(l, ", "@));
            }
        }
        i += 1;
    }
    assert(cards@.take(i as int) =~= cards@);
}

/// A card's label, or `-` when there is no card.
pub open spec fn opt_label_v(c: Option<CardSnapshot>) -> Seq<char> {
    match c {
        Some(c) => card_label_v(c),
        None => "-"@,
    }
}

/// `name(CardId) effective_hp=..` of a hero, or `unknown`.
pub open spec fn hero_label_v(h: Option<HeroSnapshot>) -> Seq<char> {
    match h {
        Some(h) => or_text(h.name, "unknown"@) + "("@ + or_text(h.card_id, "unknown"@) + ") effective_hp="@
            + debug_int(wide_i32(h.effective_health)),
        None => "unknown"@,
    }
}

#[verifier::spinoff_prover]
fn push_hero_label(out: &mut Vec<char>, h: &Option<HeroSnapshot>)
    ensures
        final(out)@ == old(out)@ + hero_label_v(*h),
{
    let ghost start = out@;
    match h {
        Some(h) => {
            push_or(out, &h.name, "unknown");
            push_str(out, "(");
            push_or(out, &h.card_id, "unknown");
            push_str(out, ") effective_hp=");
            push_debug_i32(out, h.effective_health);
        },
        None => push_str(out, "unknown"),
    }
    assert(out@ =~= start + hero_label_v(*h));
}

pub open spec fn choice_kind_name(k: ChoiceKind) -> Seq<char> {
    match k {
        ChoiceKind::Hero => "Hero"@,
        ChoiceKind::Trinket => "Trinket"@,
        ChoiceKind::DarkGift => "DarkGift"@,
        ChoiceKind::Discover => "Discover"@,
        ChoiceKind::Other => "Other"@,
    }
}

#[verifier::spinoff_prover]
fn choice_kind_text(k: ChoiceKind) -> (r: &'static str)
    ensures
        r@ == choice_kind_name(k),
{
    match k {
        ChoiceKind::Hero => "Hero",
        ChoiceKind::Trinket => "Trinket",
        ChoiceKind::DarkGift => "DarkGift",
        ChoiceKind::Discover => "Discover",
        ChoiceKind::Other => "Other",
    }
}

pub open spec fn action_kind_name(k: RecruitActionKind) -> Seq<char> {
    match k {
        RecruitActionKind::Refresh => "Refresh"@,
        RecruitActionKind::BuyMinion => "BuyMinion"@,
        RecruitActionKind::BuySpell => "BuySpell"@,
        RecruitActionKind::SellMinion => "SellMinion"@,
        RecruitActionKind::PlayMinion => "PlayMinion"@,
        RecruitActionKind::CastSpell => "CastSpell"@,
        RecruitActionKind::TavernUpgrade => "TavernUpgrade"@,
        RecruitActionKind::FreezeToggle => "FreezeToggle"@,
        RecruitActionKind::UseHeroPower => "UseHeroPower"@,
        RecruitActionKind::Reorder => "Reorder"@,
        RecruitActionKind::Activate => "Activate"@,
        RecruitActionKind::RecruitAttack => "RecruitAttack"@,
        RecruitActionKind::SpecialAction => "SpecialAction"@,
        RecruitActionKind::PlayCard => "PlayCard"@,
    }
}

#[verifier::spinoff_prover]
fn action_kind_text(k: RecruitActionKind) -> (r: &'static str)
    ensures
        r@ == action_kind_name(k),
{
    match k {
        RecruitActionKind::Refresh => "Refresh",
        RecruitActionKind::BuyMinion => "BuyMinion",
        RecruitActionKind::BuySpell => "BuySpell",
        RecruitActionKind::SellMinion => "SellMinion",
        RecruitActionKind::PlayMinion => "PlayMinion",
        RecruitActionKind::CastSpell => "CastSpell",
        RecruitActionKind::TavernUpgrade => "TavernUpgrade",
        RecruitActionKind::FreezeToggle => "FreezeToggle",
        RecruitActionKind::UseHeroPower => "UseHeroPower",
        RecruitActionKind::Reorder => "Reorder",
        RecruitActionKind::Activate => "Activate",
        RecruitActionKind::RecruitAttack => "RecruitAttack",
        RecruitActionKind::SpecialAction => "SpecialAction",
        RecruitActionKind::PlayCard => "PlayCard",
    }
}

pub open spec fn cause_name(c: ShopRevisionCause) -> Seq<char> {
    match c {
        ShopRevisionCause::PhaseStart => "PhaseStart"@,
        ShopRevisionCause::Refresh => "Refresh"@,
        ShopRevisionCause::Buy => "Buy"@,
        ShopRevisionCause::Sell => "Sell"@,
        ShopRevisionCause::SpellOrEffect => "SpellOrEffect"@,
        ShopRevisionCause::OtherAction => "OtherAction"@,
        ShopRevisionCause::StateChange => "StateChange"@,
    }
}

#[verifier::spinoff_prover]
fn cause_text(c: ShopRevisionCause) -> (r: &'static str)
    ensures
        r@ == cause_name(c),
{
    match c {
        ShopRevisionCause::PhaseStart => "PhaseStart",
        ShopRevisionCause::Refresh => "Refresh",
        ShopRevisionCause::Buy => "Buy",
        ShopRevisionCause::Sell => "Sell",
        ShopRevisionCause::SpellOrEffect => "SpellOrEffect",
        ShopRevisionCause::OtherAction => "OtherAction",
        ShopRevisionCause::StateChange => "StateChange",
    }
}

pub open spec fn result_name(r: CombatResult) -> Seq<char> {
    match r {
        CombatResult::Win => "Win"@,
        CombatResult::Loss => "Loss"@,
        CombatResult::Tie => "Tie"@,
        CombatResult::Unknown => "Unknown"@,
    }
}

#[verifier::spinoff_prover]
fn result_text(r: CombatResult) -> (t: &'static str)
    ensures
        t@ == result_name(r),
{
    match r {
        CombatResult::Win => "Win",
        CombatResult::Loss => "Loss",
        CombatResult::Tie => "Tie",
        CombatResult::Unknown => "Unknown",
    }
}

/// `"NAME"` when the keyword is present.
pub open spec fn keyword_if(present: bool, name: Seq<char>) -> Seq<Seq<char>> {
    if present {
        seq!["\""@ + name + "\""@]
    } else {
        Seq::empty()
    }
}

/// The quoted names of the keywords a card shows in the report.
pub open spec fn keyword_names(k: CardKeywords) -> Seq<Seq<char>> {
    keyword_if(k.taunt, "TAUNT"@) + keyword_if(k.divine_shield, "DIVINE_SHIELD"@) + keyword_if(k.reborn, "REBORN"@)
        + keyword_if(k.poisonous, "POISONOUS"@) + keyword_if(k.venomous, "VENOMOUS"@) + keyword_if(
        k.windfury,
        "WINDFURY"@,
    ) + keyword_if(k.mega_windfury, "MEGA_WINDFURY"@) + keyword_if(k.stealth, "STEALTH"@) + keyword_if(
        k.battlecry,
        "BATTLECRY"@,
    ) + keyword_if(k.deathrattle, "DEATHRATTLE"@) + keyword_if(k.activate_keyword, "ACTIVATE"@) + keyword_if(
        k.activate_available_now,
        "ACTIVATE_AVAILABLE"@,
    )
}

#[verifier::spinoff_prover]
fn add_keyword(names: &mut Vec<String>, present: bool, name: &str)
    ensures
        strs_view(final(names)@) == strs_view(old(names)@) + keyword_if(present, name@),
{
    if present {
        let mut q = chars_of("\"");
        push_str(&mut q, name);
        push_str(&mut q, "\"");
        let ghost before = strs_view(names@);
        names.push(string_of(&q));
        assert(strs_view(names@) =~= before + keyword_if(present, name@));
    } else {
        assert(strs_view(names@) =~= strs_view(old(names)@) + keyword_if(present, name@));
    }
}

#[verifier::spinoff_prover]
fn keyword_list(k: &CardKeywords) -> (r: Vec<String>)
    ensures
        strs_view(r@) == keyword_names(*k),
{
    let mut names: Vec<String> = Vec::new();
    assert(strs_view(names@) =~= Seq::<Seq<char>>::empty());
    add_keyword(&mut names, k.taunt, "TAUNT");
    add_keyword(&mut names, k.divine_shield, "DIVINE_SHIELD");
    add_keyword(&mut names, k.reborn, "REBORN");
    add_keyword(&mut names, k.poisonous, "POISONOUS");
    add_keyword(&mut names, k.venomous, "VENOMOUS");
    add_keyword(&mut names, k.windfury, "WINDFURY");
    add_keyword(&mut names, k.mega_windfury, "MEGA_WINDFURY");
    add_keyword(&mut names, k.stealth, "STEALTH");
    add_keyword(&mut names, k.battlecry, "BATTLECRY");
    add_keyword(&mut names, k.deathrattle, "DEATHRATTLE");
    add_keyword(&mut names, k.activate_keyword, "ACTIVATE");
    add_keyword(&mut names, k.activate_available_now, "ACTIVATE_AVAILABLE");
    assert(strs_view(names@) =~= keyword_names(*k));
    names
}

/// A number, or `-` when there is none.
pub open spec fn num_or_dash(o: Option<i32>) -> Seq<char> {
    match o {
        Some(v) => int_text(v as int),
        None => "-"@,
    }
}

#[verifier::spinoff_prover]
fn push_num_or_dash(out: &mut Vec<char>, o: Option<i32>)
    ensures
        final(out)@ == old(out)@ + num_or_dash(o),
{
    match o {
        Some(v) => push_i64(out, v as i64),
        None => push_str(out, "-"),
    }
}

/// One card line of a card section: where it stands and what it is,
pub open spec fn card_line_head(c: CardSnapshot) -> Seq<char> {
    "- ["@ + num_or_dash(c.zone_position) + "] "@ + or_text(c.name, "unknown"@) + " (`"@ + or_text(
        c.card_id,
        "unknown"@,
    ) + "`) "@
}

/// its stats,
pub open spec fn card_line_stats(c: CardSnapshot) -> Seq<char> {
    num_or_dash(c.attack) + "/"@ + num_or_dash(c.remaining_health) + " tier="@ + debug_int(wide_u8(c.tavern_tier))
        + " printed_cost="@ + debug_int(wide_i32(c.printed_cost)) + " golden="@ + bool_text(c.is_golden)
}

/// and its tribes and keywords.
pub open spec fn card_line_tail(c: CardSnapshot) -> Seq<char> {
    " tribes="@ + debug_strs(strs_view(c.tribes@)) + " keywords=["@ + join_sep(keyword_names(c.keywords), ", "@)
        + "]\n"@
}

#[verifier::opaque]
pub open spec fn card_line_v(c: CardSnapshot) -> Seq<char> {
    card_line_head(c) + card_line_stats(c) + card_line_tail(c)
}

/// A card line reads `- [position] name (`CardId`) attack/health tier=...
/// printed_cost=... golden=... tribes=[...] keywords=[...]`: the attack
/// comes before the slash and the remaining health after it.
pub proof fn lemma_card_line_format(c: CardSnapshot)
    ensures
        card_line_v(c) == "- ["@ + num_or_dash(c.zone_position) + "] "@ + or_text(c.name, "unknown"@) + " (`"@
            + or_text(c.card_id, "unknown"@) + "`) "@ + num_or_dash(c.attack) + "/"@ + num_or_dash(c.remaining_health)
            + " tier="@ + debug_int(wide_u8(c.tavern_tier)) + " printed_cost="@ + debug_int(wide_i32(c.printed_cost))
            + " golden="@ + bool_text(c.is_golden) + " tribes="@ + debug_strs(strs_view(c.tribes@))
            + " keywords=["@ + join_sep(keyword_names(c.keywords), ", "@) + "]\n"@,
{
    reveal(card_line_v);
    assert(card_line_v(c) =~= "- ["@ + num_or_dash(c.zone_position) + "] "@ + or_text(c.name, "unknown"@) + " (`"@
        + or_text(c.card_id, "unknown"@) + "`) "@ + num_or_dash(c.attack) + "/"@ + num_or_dash(c.remaining_health)
        + " tier="@ + debug_int(wide_u8(c.tavern_tier)) + " printed_cost="@ + debug_int(wide_i32(c.printed_cost))
        + " golden="@ + bool_text(c.is_golden) + " tribes="@ + debug_strs(strs_view(c.tribes@))
        + " keywords=["@ + join_sep(keyword_names(c.keywords), ", "@) + "]\n"@);
}

#[verifier::spinoff_prover]
#[verifier::rlimit(40)]
fn push_card_line(out: &mut Vec<char>, c: &CardSnapshot)
    ensures
        final(out)@ == old(out)@ + card_line_v(*c),
{
    let ghost start = out@;
    push_str(out, "- [");
    push_num_or_dash(out, c.zone_position);
    push_str(out, "] ");
    push_or(out, &c.name, "unknown");
    push_str(out, " (`");
    push_or(out, &c.card_id, "unknown");
    push_str(out, "`) ");
    assert(out@ =~= start + card_line_head(*c));
    let ghost mid = out@;
    push_num_or_dash(out, c.attack);
    push_str(out, "/");
    push_num_or_dash(out, c.remaining_health);
    push_str(out, " tier=");
    push_debug_u8(out, c.tavern_tier);
    push_str(out, " printed_cost=");
    push_debug_i32(out, c.printed_cost);
    push_str(out, " golden=");
    push_bool(out, c.is_golden);
    assert(out@ =~= mid + card_line_stats(*c));
    let ghost mid2 = out@;
    push_str(out, " tribes=");
    push_str(out, debug_string_list(&c.tribes).as_str());
    push_str(out, " keywords=[");
    let mut kw = join_strings(&keyword_list(&c.keywords), ", ");
    out.append(&mut kw);
    push_str(out, "]\n");
    assert(out@ =~= mid2 + card_line_tail(*c));
    reveal(card_line_v);
    assert(out@ =~= start + card_line_v(*c));
}

pub open spec fn card_lines_v(cards: Seq<CardSnapshot>) -> Seq<char>
    decreases cards.len(),
{
    if cards.len() == 0 {
        Seq::empty()
    } else {
        card_lines_v(cards.drop_last()) + card_line_v(cards.last())
    }
}

/// A titled card section; `- (empty)` when there is no card.
#[verifier::opaque]
pub open spec fn cards_section_v(title: Seq<char>, cards: Seq<CardSnapshot>) -> Seq<char> {
    "\n#### "@ + title + "\n\n"@ + if cards.len() == 0 {
        "- (empty)\n"@
    } else {
        card_lines_v(cards)
    }
}

#[verifier::spinoff_prover]
fn push_cards_section(out: &mut Vec<char>, title: &str, cards: &Vec<CardSnapshot>)
    ensures
        final(out)@ == old(out)@ + cards_section_v(title@, cards@),
{
    let ghost start = out@;
    push_str(out, "\n#### ");
    push_str(out, title);
    push_str(out, "\n\n");
    if cards.len() == 0 {
        push_str(out, "- (empty)\n");
        reveal(cards_section_v);
        assert(out@ =~= start + cards_section_v(title@, cards@));
        return;
    }
    let ghost head = out@;
    let mut i: usize = 0;
    assert(card_lines_v(cards@.take(0)) =~= Seq::<char>::empty());
    assert(out@ =~= head + card_lines_v(cards@.take(0)));
    while i < cards.len()
        invariant
            i <= cards@.len(),
            out@ == head + card_lines_v(cards@.take(i as int)),
        decreases cards@.len() - i,
    {
        assert(cards@.take(i + 1).drop_last() =~= cards@.take(i as int));
        push_card_line(out, &cards[i]);
        assert(out@ =~= head + card_lines_v(cards@.take(i + 1)));
        i += 1;
    }
    assert(cards@.take(i as int) =~= cards@);
    reveal(cards_section_v);
    assert(out@ =~= start + cards_section_v(title@, cards@));
}


/// ` [YOU]` for the local player.
pub open spec fn you_mark(local: bool) -> Seq<char> {
    if local {
        " [YOU]"@
    } else {
        Seq::empty()
    }
}

/// A player of the archive's lobby: hero and final place.
#[verifier::opaque]
pub open spec fn lobby_entry_v(p: LobbyPlayerSnapshot) -> Seq<char> {
    "- P"@ + int_text(p.player_id as int) + you_mark(p.is_local) + ": "@ + or_text(p.hero.name, "unknown hero"@)
        + " (`"@ + or_text(p.hero.card_id, "unknown"@) + "`), place="@ + debug_int(wide_u8(p.hero.leaderboard_place))
        + "\n"@
}

pub open spec fn lobby_entries_v(ps: Seq<LobbyPlayerSnapshot>) -> Seq<char>
    decreases ps.len(),
{
    if ps.len() == 0 {
        Seq::empty()
    } else {
        lobby_entries_v(ps.drop_last()) + lobby_entry_v(ps.last())
    }
}

#[verifier::spinoff_prover]
fn push_you(out: &mut Vec<char>, local: bool)
    ensures
        final(out)@ == old(out)@ + you_mark(local),
{
    if local {
        push_str(out, " [YOU]");
    } else {
        assert(out@ =~= out@ + you_mark(local));
    }
}

#[verifier::spinoff_prover]
fn push_lobby_entries(out: &mut Vec<char>, ps: &Vec<LobbyPlayerSnapshot>)
    ensures
        final(out)@ == old(out)@ + lobby_entries_v(ps@),
{
    let ghost head = out@;
    let mut i: usize = 0;
    assert(lobby_entries_v(ps@.take(0)) =~= Seq::<char>::empty());
    assert(out@ =~= head + lobby_entries_v(ps@.take(0)));
    while i < ps.len()
        invariant
            i <= ps@.len(),
            out@ == head + lobby_entries_v(ps@.take(i as int)),
        decreases ps@.len() - i,
    {
        assert(ps@.take(i + 1).drop_last() =~= ps@.take(i as int));
        let p = &ps[i];
        let ghost before = out@;
        push_str(out, "- P");
        push_i64(out, p.player_id as i64);
        push_you(out, p.is_local);
        push_str(out, ": ");
        push_or(out, &p.hero.name, "unknown hero");
        push_str(out, " (`");
        push_or(out, &p.hero.card_id, "unknown");
        push_str(out, "`), place=");
        push_debug_u8(out, p.hero.leaderboard_place);
        push_str(out, "\n");
        reveal(lobby_entry_v);
        assert(out@ =~= before + lobby_entry_v(*p));
        assert(out@ =~= head + lobby_entries_v(ps@.take(i + 1)));
        i += 1;
    }
    assert(ps@.take(i as int) =~= ps@);
}

/// A player in a lobby snapshot: who and its health,
pub open spec fn lobby_state_head(p: LobbyPlayerSnapshot) -> Seq<char> {
    "- P"@ + int_text(p.player_id as int) + you_mark(p.is_local) + " "@ + or_text(p.hero.name, "unknown hero"@)
        + ": HP="@ + debug_int(wide_i32(p.hero.remaining_health))
}

/// then armor, tier, place and whether it is alive.
pub open spec fn lobby_state_tail(p: LobbyPlayerSnapshot) -> Seq<char> {
    " Armor="@ + debug_int(wide_i32(p.hero.armor)) + " Tier="@ + debug_int(wide_u8(p.hero.tavern_tier)) + " Place="@
        + debug_int(wide_u8(p.hero.leaderboard_place)) + " Alive="@ + bool_text(p.alive) + "\n"@
}

#[verifier::opaque]
pub open spec fn lobby_state_v(p: LobbyPlayerSnapshot) -> Seq<char> {
    lobby_state_head(p) + lobby_state_tail(p)
}

pub open spec fn lobby_states_v(ps: Seq<LobbyPlayerSnapshot>) -> Seq<char>
    decreases ps.len(),
{
    if ps.len() == 0 {
        Seq::empty()
    } else {
        lobby_states_v(ps.drop_last()) + lobby_state_v(ps.last())
    }
}

/// The lobby snapshot section; nothing for an empty lobby.
#[verifier::opaque]
pub open spec fn lobby_section_v(ps: Seq<LobbyPlayerSnapshot>) -> Seq<char> {
    if ps.len() == 0 {
        Seq::empty()
    } else {
        "\n#### Lobby Snapshot\n\n"@ + lobby_states_v(ps)
    }
}

#[verifier::spinoff_prover]
#[verifier::rlimit(40)]
fn push_lobby_state(out: &mut Vec<char>, p: &LobbyPlayerSnapshot)
    ensures
        final(out)@ == old(out)@ + lobby_state_v(*p),
{
    let ghost before = out@;
    push_str(out, "- P");
    push_i64(out, p.player_id as i64);
    push_you(out, p.is_local);
    push_str(out, " ");
    push_or(out, &p.hero.name, "unknown hero");
    push_str(out, ": HP=");
    push_debug_i32(out, p.hero.remaining_health);
    assert(out@ =~= before + lobby_state_head(*p));
    let ghost mid = out@;
    push_str(out, " Armor=");
    push_debug_i32(out, p.hero.armor);
    push_str(out, " Tier=");
    push_debug_u8(out, p.hero.tavern_tier);
    push_str(out, " Place=");
    push_debug_u8(out, p.hero.leaderboard_place);
    push_str(out, " Alive=");
    push_bool(out, p.alive);
    push_str(out, "\n");
    assert(out@ =~= mid + lobby_state_tail(*p));
    reveal(lobby_state_v);
    assert(out@ =~= before + lobby_state_v(*p));
}

#[verifier::spinoff_prover]
fn push_lobby_section(out: &mut Vec<char>, ps: &Vec<LobbyPlayerSnapshot>)
    ensures
        final(out)@ == old(out)@ + lobby_section_v(ps@),
{
    reveal(lobby_section_v);
    if ps.len() == 0 {
        assert(out@ =~= out@ + lobby_section_v(ps@));
        return;
    }
    let ghost start = out@;
    push_str(out, "\n#### Lobby Snapshot\n\n");
    let ghost head = out@;
    let mut i: usize = 0;
    assert(lobby_states_v(ps@.take(0)) =~= Seq::<char>::empty());
    assert(out@ =~= head + lobby_states_v(ps@.take(0)));
    while i < ps.len()
        invariant
            i <= ps@.len(),
            out@ == head + lobby_states_v(ps@.take(i as int)),
        decreases ps@.len() - i,
    {
        assert(ps@.take(i + 1).drop_last() =~= ps@.take(i as int));
        push_lobby_state(out, &ps[i]);
        assert(out@ =~= head + lobby_states_v(ps@.take(i + 1)));
        i += 1;
    }
    assert(ps@.take(i as int) =~= ps@);
    assert(out@ =~= start + lobby_section_v(ps@));
}

/// Where a choice came from: its source's name, else its CardId, else the
/// game itself.
pub open spec fn choice_source_v(c: ChoiceArchive) -> Seq<char> {
    match c.source_name {
        Some(n) => n@,
        None => or_text(c.source_card_id, "GameEntity"@),
    }
}

#[verifier::opaque]
pub open spec fn choice_line_v(c: ChoiceArchive) -> Seq<char> {
    "- Choice #"@ + nat_text(c.id as nat) + " `"@ + choice_kind_name(c.kind) + "` source="@ + choice_source_v(c)
        + " options=["@ + label_list_v(c.options@) + "] selected=["@ + label_list_v(c.selected@) + "]\n"@
}

pub open spec fn choice_lines_v(cs: Seq<ChoiceArchive>) -> Seq<char>
    decreases cs.len(),
{
    if cs.len() == 0 {
        Seq::empty()
    } else {
        choice_lines_v(cs.drop_last()) + choice_line_v(cs.last())
    }
}

#[verifier::spinoff_prover]
fn push_choice_line(out: &mut Vec<char>, c: &ChoiceArchive)
    ensures
        final(out)@ == old(out)@ + choice_line_v(*c),
{
    let ghost before = out@;
    push_str(out, "- Choice #");
    push_nat(out, c.id);
    push_str(out, " `");
    push_str(out, choice_kind_text(c.kind));
    push_str(out, "` source=");
    match &c.source_name {
        Some(n) => push_str(out, n.as_str()),
        None => push_or(out, &c.source_card_id, "GameEntity"),
    }
    push_str(out, " options=[");
    push_label_list(out, &c.options);
    push_str(out, "] selected=[");
    push_label_list(out, &c.selected);
    push_str(out, "]\n");
    reveal(choice_line_v);
    assert(out@ =~= before + choice_line_v(*c));
}

#[verifier::spinoff_prover]
fn push_choice_lines(out: &mut Vec<char>, cs: &Vec<ChoiceArchive>)
    ensures
        final(out)@ == old(out)@ + choice_lines_v(cs@),
{
    let ghost head = out@;
    let mut i: usize = 0;
    assert(choice_lines_v(cs@.take(0)) =~= Seq::<char>::empty());
    assert(out@ =~= head + choice_lines_v(cs@.take(0)));
    while i < cs.len()
        invariant
            i <= cs@.len(),
            out@ == head + choice_lines_v(cs@.take(i as int)),
        decreases cs@.len() - i,
    {
        assert(cs@.take(i + 1).drop_last() =~= cs@.take(i as int));
        push_choice_line(out, &cs[i]);
        assert(out@ =~= head + choice_lines_v(cs@.take(i + 1)));
        i += 1;
    }
    assert(cs@.take(i as int) =~= cs@);
}


#[verifier::opaque]
pub open spec fn action_line_v(n: nat, a: RecruitActionRecord) -> Seq<char> {
    nat_text(n) + ". `"@ + action_kind_name(a.kind) + "` source="@ + opt_label_v(a.source) + " target="@
        + opt_label_v(a.target) + " gold_after="@ + debug_int(wide_i32(a.state_after.gold)) + "\n"@
}

/// The actions, numbered from 1.
pub open spec fn action_lines_v(acts: Seq<RecruitActionRecord>) -> Seq<char>
    decreases acts.len(),
{
    if acts.len() == 0 {
        Seq::empty()
    } else {
        action_lines_v(acts.drop_last()) + action_line_v(acts.len(), acts.last())
    }
}

#[verifier::spinoff_prover]
fn push_opt_label(out: &mut Vec<char>, c: &Option<CardSnapshot>)
    ensures
        final(out)@ == old(out)@ + opt_label_v(*c),
{
    match c {
        Some(c) => push_card_label(out, c),
        None => push_str(out, "-"),
    }
}

#[verifier::spinoff_prover]
fn push_action_lines(out: &mut Vec<char>, acts: &Vec<RecruitActionRecord>)
    ensures
        final(out)@ == old(out)@ + action_lines_v(acts@),
{
    let ghost head = out@;
    let mut i: usize = 0;
    assert(action_lines_v(acts@.take(0)) =~= Seq::<char>::empty());
    assert(out@ =~= head + action_lines_v(acts@.take(0)));
    while i < acts.len()
        invariant
            i <= acts@.len(),
            out@ == head + action_lines_v(acts@.take(i as int)),
        decreases acts@.len() - i,
    {
        assert(acts@.take(i + 1).drop_last() =~= acts@.take(i as int));
        let a = &acts[i];
        let ghost before = out@;
        let mut num = u64_text((i + 1) as u64);
        out.append(&mut num);
        push_str(out, ". `");
        push_str(out, action_kind_text(a.kind));
        push_str(out, "` source=");
        push_opt_label(out, &a.source);
        push_str(out, " target=");
        push_opt_label(out, &a.target);
        push_str(out, " gold_after=");
        push_debug_i32(out, a.state_after.gold);
        push_str(out, "\n");
        reveal(action_line_v);
        assert(out@ =~= before + action_line_v((i + 1) as nat, *a));
        assert(out@ =~= head + action_lines_v(acts@.take(i + 1)));
        i += 1;
    }
    assert(acts@.take(i as int) =~= acts@);
}

#[verifier::opaque]
pub open spec fn revision_line_v(r: ShopRevision) -> Seq<char> {
    "- #"@ + nat_text(r.revision as nat) + " `"@ + cause_name(r.cause) + "` at "@ + debug_text(opt_view(r.timestamp))
        + ": ["@ + label_list_v(r.cards@) + "]\n"@
}

pub open spec fn revision_lines_v(rs: Seq<ShopRevision>) -> Seq<char>
    decreases rs.len(),
{
    if rs.len() == 0 {
        Seq::empty()
    } else {
        revision_lines_v(rs.drop_last()) + revision_line_v(rs.last())
    }
}

#[verifier::spinoff_prover]
fn push_revision_lines(out: &mut Vec<char>, rs: &Vec<ShopRevision>)
    ensures
        final(out)@ == old(out)@ + revision_lines_v(rs@),
{
    let ghost head = out@;
    let mut i: usize = 0;
    assert(revision_lines_v(rs@.take(0)) =~= Seq::<char>::empty());
    assert(out@ =~= head + revision_lines_v(rs@.take(0)));
    while i < rs.len()
        invariant
            i <= rs@.len(),
            out@ == head + revision_lines_v(rs@.take(i as int)),
        decreases rs@.len() - i,
    {
        assert(rs@.take(i + 1).drop_last() =~= rs@.take(i as int));
        let r = &rs[i];
        let ghost before = out@;
        push_str(out, "- #");
        push_nat(out, r.revision);
        push_str(out, " `");
        push_str(out, cause_text(r.cause));
        push_str(out, "` at ");
        push_str(out, debug_opt_string(&r.timestamp).as_str());
        push_str(out, ": [");
        push_label_list(out, &r.cards);
        push_str(out, "]\n");
        reveal(revision_line_v);
        assert(out@ =~= before + revision_line_v(*r));
        assert(out@ =~= head + revision_lines_v(rs@.take(i + 1)));
        i += 1;
    }
    assert(rs@.take(i as int) =~= rs@);
}

/// The heading and times of a recruit phase,
pub open spec fn recruit_times_v(r: RecruitArchive) -> Seq<char> {
    "\n### Recruit\n\n"@ + "- Time: "@ + debug_text(opt_view(r.started_at)) + " -> "@ + debug_text(
        opt_view(r.ended_at),
    ) + "\n"@
}

/// the gold and tier at both its ends,
pub open spec fn recruit_gold_v(r: RecruitArchive) -> Seq<char> {
    "- Start gold/tier: "@ + debug_int(wide_i32(r.start.gold)) + " / "@ + debug_int(wide_u8(r.start.tavern_tier))
        + "\n"@ + "- End gold/tier: "@ + debug_int(wide_i32(r.end.gold)) + " / "@ + debug_int(
        wide_u8(r.end.tavern_tier),
    ) + "\n"@
}

#[verifier::opaque]
pub open spec fn recruit_summary_v(r: RecruitArchive) -> Seq<char> {
    recruit_times_v(r) + recruit_gold_v(r)
}

/// its refresh and upgrade costs,
pub open spec fn recruit_cost_lines(r: RecruitArchive) -> Seq<char> {
    "- Start refresh/upgrade cost: "@ + debug_int(wide_i32(r.start.refresh_cost)) + " / "@ + debug_int(
        wide_i32(r.start.upgrade_cost),
    ) + "\n"@ + "- End refresh/upgrade cost: "@ + debug_int(wide_i32(r.end.refresh_cost)) + " / "@ + debug_int(
        wide_i32(r.end.upgrade_cost),
    ) + "\n"@
}

/// its freeze, timer and next opponent,
pub open spec fn recruit_window_lines(r: RecruitArchive) -> Seq<char> {
    "- Shop frozen: "@ + debug_bool(r.start.shop_frozen) + " -> "@ + debug_bool(r.end.shop_frozen) + "\n"@
        + "- Action window TIMEOUT: "@ + debug_int(wide_i32(r.start.timeout_seconds)) + " seconds\n"@
        + "- Next opponent: "@ + debug_int(wide_i32(r.end.next_opponent_player_id)) + "\n"@
}

#[verifier::opaque]
pub open spec fn recruit_costs_v(r: RecruitArchive) -> Seq<char> {
    recruit_cost_lines(r) + recruit_window_lines(r)
}

/// The hero's health line, when there is a hero.
#[verifier::opaque]
pub open spec fn hero_health_line(h: Option<HeroSnapshot>) -> Seq<char> {
    match h {
        Some(h) => "- Player HP/Armor: "@ + debug_int(wide_i32(h.remaining_health)) + "/"@ + debug_int(
            wide_i32(h.armor),
        ) + " (effective="@ + debug_int(wide_i32(h.effective_health)) + ")\n"@,
        None => Seq::empty(),
    }
}

/// The hero power's line, when there is one.
#[verifier::opaque]
pub open spec fn hero_power_line(p: Option<HeroPowerSnapshot>) -> Seq<char> {
    match p {
        Some(p) => "- Hero Power: "@ + or_text(p.name, "unknown"@) + " (`"@ + or_text(p.card_id, "unknown"@)
            + "`), cost="@ + debug_int(wide_i32(p.cost)) + ", available="@ + bool_text(p.available)
            + ", exhausted="@ + bool_text(p.exhausted) + "\n"@,
        None => Seq::empty(),
    }
}

/// the hero and hero power at its start,
#[verifier::opaque]
pub open spec fn recruit_hero_v(r: RecruitArchive) -> Seq<char> {
    hero_health_line(r.start.hero) + hero_power_line(r.start.hero_power)
}

/// the lobby and the board and shop at its start,
pub open spec fn recruit_opening_v(r: RecruitArchive) -> Seq<char> {
    lobby_section_v(r.start.lobby@) + cards_section_v("Start Board"@, r.start.board@) + cards_section_v(
        "Start Shop"@,
        r.start.shop@,
    )
}

/// its actions, shop revisions and choices, each part only when not empty,
pub open spec fn recruit_log_v(r: RecruitArchive) -> Seq<char> {
    (if r.actions@.len() > 0 {
        "\n#### Actions\n\n"@ + action_lines_v(r.actions@)
    } else {
        Seq::empty()
    }) + (if r.shop_revisions@.len() > 0 {
        "\n#### Shop Revisions\n\n"@ + revision_lines_v(r.shop_revisions@)
    } else {
        Seq::empty()
    }) + (if r.choices@.len() > 0 {
        "\n#### Choices\n\n"@ + choice_lines_v(r.choices@)
    } else {
        Seq::empty()
    })
}

/// and the board, hand, shop and trinkets at its end.
pub open spec fn recruit_closing_v(r: RecruitArchive) -> Seq<char> {
    cards_section_v("End Board"@, r.end.board@) + cards_section_v("End Hand"@, r.end.hand@) + cards_section_v(
        "End Shop"@,
        r.end.shop@,
    ) + cards_section_v("Trinkets"@, r.end.trinkets@)
}

#[verifier::opaque]
pub open spec fn recruit_body_v(r: RecruitArchive) -> Seq<char> {
    recruit_opening_v(r) + recruit_log_v(r) + recruit_closing_v(r)
}

#[verifier::opaque]
pub open spec fn recruit_v(r: RecruitArchive) -> Seq<char> {
    recruit_summary_v(r) + recruit_costs_v(r) + recruit_hero_v(r) + recruit_body_v(r)
}

#[verifier::spinoff_prover]
fn push_recruit_times(out: &mut Vec<char>, r: &RecruitArchive)
    ensures
        final(out)@ == old(out)@ + recruit_times_v(*r),
{
    let ghost before = out@;
    push_str(out, "\n### Recruit\n\n");
    push_str(out, "- Time: ");
    push_str(out, debug_opt_string(&r.started_at).as_str());
    push_str(out, " -> ");
    push_str(out, debug_opt_string(&r.ended_at).as_str());
    push_str(out, "\n");
    assert(out@ =~= before + recruit_times_v(*r));
}

#[verifier::spinoff_prover]
fn push_recruit_gold(out: &mut Vec<char>, r: &RecruitArchive)
    ensures
        final(out)@ == old(out)@ + recruit_gold_v(*r),
{
    let ghost before = out@;
    push_str(out, "- Start gold/tier: ");
    push_debug_i32(out, r.start.gold);
    push_str(out, " / ");
    push_debug_u8(out, r.start.tavern_tier);
    push_str(out, "\n");
    push_str(out, "- End gold/tier: ");
    push_debug_i32(out, r.end.gold);
    push_str(out, " / ");
    push_debug_u8(out, r.end.tavern_tier);
    push_str(out, "\n");
    assert(out@ =~= before + recruit_gold_v(*r));
}

#[verifier::spinoff_prover]
fn push_recruit_summary(out: &mut Vec<char>, r: &RecruitArchive)
    ensures
        final(out)@ == old(out)@ + recruit_summary_v(*r),
{
    let ghost before = out@;
    push_recruit_times(out, r);
    push_recruit_gold(out, r);
    reveal(recruit_summary_v);
    assert(out@ =~= before + recruit_summary_v(*r));
}

#[verifier::spinoff_prover]
#[verifier::rlimit(40)]
fn push_recruit_costs(out: &mut Vec<char>, r: &RecruitArchive)
    ensures
        final(out)@ == old(out)@ + recruit_costs_v(*r),
{
    let ghost before = out@;
    push_str(out, "- Start refresh/upgrade cost: ");
    push_debug_i32(out, r.start.refresh_cost);
    push_str(out, " / ");
    push_debug_i32(out, r.start.upgrade_cost);
    push_str(out, "\n");
    push_str(out, "- End refresh/upgrade cost: ");
    push_debug_i32(out, r.end.refresh_cost);
    push_str(out, " / ");
    push_debug_i32(out, r.end.upgrade_cost);
    push_str(out, "\n");
    assert(out@ =~= before + recruit_cost_lines(*r));
    let ghost mid = out@;
    push_str(out, "- Shop frozen: ");
    push_debug_bool(out, r.start.shop_frozen);
    push_str(out, " -> ");
    push_debug_bool(out, r.end.shop_frozen);
    push_str(out, "\n");
    push_str(out, "- Action window TIMEOUT: ");
    push_debug_i32(out, r.start.timeout_seconds);
    push_str(out, " seconds\n");
    push_str(out, "- Next opponent: ");
    push_debug_i32(out, r.end.next_opponent_player_id);
    push_str(out, "\n");
    assert(out@ =~= mid + recruit_window_lines(*r));
    reveal(recruit_costs_v);
    assert(out@ =~= before + recruit_costs_v(*r));
}

#[verifier::spinoff_prover]
fn push_hero_health(out: &mut Vec<char>, h: &Option<HeroSnapshot>)
    ensures
        final(out)@ == old(out)@ + hero_health_line(*h),
{
    let ghost before = out@;
    reveal(hero_health_line);
    match h {
        Some(h) => {
            push_str(out, "- Player HP/Armor: ");
            push_debug_i32(out, h.remaining_health);
            push_str(out, "/");
            push_debug_i32(out, h.armor);
            push_str(out, " (effective=");
            push_debug_i32(out, h.effective_health);
            push_str(out, ")\n");
        },
        None => {},
    }
    assert(out@ =~= before + hero_health_line(*h));
}

#[verifier::spinoff_prover]
fn push_hero_power(out: &mut Vec<char>, p: &Option<HeroPowerSnapshot>)
    ensures
        final(out)@ == old(out)@ + hero_power_line(*p),
{
    let ghost before = out@;
    reveal(hero_power_line);
    match p {
        Some(p) => {
            push_str(out, "- Hero Power: ");
            push_or(out, &p.name, "unknown");
            push_str(out, " (`");
            push_or(out, &p.card_id, "unknown");
            push_str(out, "`), cost=");
            push_debug_i32(out, p.cost);
            push_str(out, ", available=");
            push_bool(out, p.available);
            push_str(out, ", exhausted=");
            push_bool(out, p.exhausted);
            push_str(out, "\n");
        },
        None => {},
    }
    assert(out@ =~= before + hero_power_line(*p));
}

#[verifier::spinoff_prover]
fn push_recruit_hero(out: &mut Vec<char>, r: &RecruitArchive)
    ensures
        final(out)@ == old(out)@ + recruit_hero_v(*r),
{
    let ghost before = out@;
    push_hero_health(out, &r.start.hero);
    push_hero_power(out, &r.start.hero_power);
    reveal(recruit_hero_v);
    assert(out@ =~= before + recruit_hero_v(*r));
}

#[verifier::spinoff_prover]
fn push_recruit_log(out: &mut Vec<char>, r: &RecruitArchive)
    ensures
        final(out)@ == old(out)@ + recruit_log_v(*r),
{
    let ghost a = out@;
    if r.actions.len() > 0 {
        push_str(out, "\n#### Actions\n\n");
        push_action_lines(out, &r.actions);
    }
    let ghost b = out@;
    assert(b =~= a + (if r.actions@.len() > 0 {
        "\n#### Actions\n\n"@ + action_lines_v(r.actions@)
    } else {
        Seq::<char>::empty()
    }));
    if r.shop_revisions.len() > 0 {
        push_str(out, "\n#### Shop Revisions\n\n");
        push_revision_lines(out, &r.shop_revisions);
    }
    let ghost c = out@;
    assert(c =~= b + (if r.shop_revisions@.len() > 0 {
        "\n#### Shop Revisions\n\n"@ + revision_lines_v(r.shop_revisions@)
    } else {
        Seq::<char>::empty()
    }));
    if r.choices.len() > 0 {
        push_str(out, "\n#### Choices\n\n");
        push_choice_lines(out, &r.choices);
    }
    assert(out@ =~= c + (if r.choices@.len() > 0 {
        "\n#### Choices\n\n"@ + choice_lines_v(r.choices@)
    } else {
        Seq::<char>::empty()
    }));
    assert(out@ =~= a + recruit_log_v(*r));
}

#[verifier::spinoff_prover]
fn push_recruit_body(out: &mut Vec<char>, r: &RecruitArchive)
    ensures
        final(out)@ == old(out)@ + recruit_body_v(*r),
{
    let ghost before = out@;
    push_lobby_section(out, &r.start.lobby);
    push_cards_section(out, "Start Board", &r.start.board);
    push_cards_section(out, "Start Shop", &r.start.shop);
    assert(out@ =~= before + recruit_opening_v(*r));
    let ghost a = out@;
    push_recruit_log(out, r);
    let ghost b = out@;
    push_cards_section(out, "End Board", &r.end.board);
    push_cards_section(out, "End Hand", &r.end.hand);
    push_cards_section(out, "End Shop", &r.end.shop);
    push_cards_section(out, "Trinkets", &r.end.trinkets);
    assert(out@ =~= b + recruit_closing_v(*r));
    reveal(recruit_body_v);
    assert(out@ =~= before + recruit_body_v(*r));
}

#[verifier::spinoff_prover]
fn push_recruit(out: &mut Vec<char>, r: &RecruitArchive)
    ensures
        final(out)@ == old(out)@ + recruit_v(*r),
{
    let ghost before = out@;
    push_recruit_summary(out, r);
    push_recruit_costs(out, r);
    push_recruit_hero(out, r);
    push_recruit_body(out, r);
    reveal(recruit_v);
    assert(out@ =~= before + recruit_v(*r));
}

/// The heading and times of a combat,
pub open spec fn combat_times_v(c: CombatArchive) -> Seq<char> {
    "\n### Combat\n\n"@ + "- Time: "@ + debug_text(opt_view(c.started_at)) + " -> "@ + debug_text(
        opt_view(c.ended_at),
    ) + "\n"@
}

/// its opponent, result and damage,
pub open spec fn combat_outcome_v(c: CombatArchive) -> Seq<char> {
    "- Opponent Player ID: "@ + debug_int(wide_i32(c.opponent_player_id)) + "\n"@ + "- Result: `"@ + result_name(
        c.result,
    ) + "`\n"@ + "- Damage taken/dealt: "@ + debug_int(wide_i32(c.damage_taken)) + " / "@ + debug_int(
        wide_i32(c.damage_dealt),
    ) + "\n"@
}

#[verifier::opaque]
pub open spec fn combat_head_v(c: CombatArchive) -> Seq<char> {
    combat_times_v(c) + combat_outcome_v(c)
}

/// and its heroes, lobby and boards.
#[verifier::opaque]
pub open spec fn combat_body_v(c: CombatArchive) -> Seq<char> {
    "- Player hero: "@ + hero_label_v(c.player.hero) + "\n"@ + "- Opponent hero: "@ + hero_label_v(c.opponent.hero)
        + "\n"@ + lobby_section_v(c.lobby@) + cards_section_v("Player Board at Combat Start"@, c.player.board@)
        + cards_section_v("Opponent Board at Combat Start"@, c.opponent.board@)
}

#[verifier::opaque]
pub open spec fn combat_v(c: CombatArchive) -> Seq<char> {
    combat_head_v(c) + combat_body_v(c)
}

#[verifier::spinoff_prover]
fn push_combat_head(out: &mut Vec<char>, c: &CombatArchive)
    ensures
        final(out)@ == old(out)@ + combat_head_v(*c),
{
    let ghost before = out@;
    push_str(out, "\n### Combat\n\n");
    push_str(out, "- Time: ");
    push_str(out, debug_opt_string(&c.started_at).as_str());
    push_str(out, " -> ");
    push_str(out, debug_opt_string(&c.ended_at).as_str());
    push_str(out, "\n");
    assert(out@ =~= before + combat_times_v(*c));
    let ghost mid = out@;
    push_str(out, "- Opponent Player ID: ");
    push_debug_i32(out, c.opponent_player_id);
    push_str(out, "\n");
    push_str(out, "- Result: `");
    push_str(out, result_text(c.result));
    push_str(out, "`\n");
    push_str(out, "- Damage taken/dealt: ");
    push_debug_i32(out, c.damage_taken);
    push_str(out, " / ");
    push_debug_i32(out, c.damage_dealt);
    push_str(out, "\n");
    assert(out@ =~= mid + combat_outcome_v(*c));
    reveal(combat_head_v);
    assert(out@ =~= before + combat_head_v(*c));
}

#[verifier::spinoff_prover]
fn push_combat_body(out: &mut Vec<char>, c: &CombatArchive)
    ensures
        final(out)@ == old(out)@ + combat_body_v(*c),
{
    let ghost mid = out@;
    push_str(out, "- Player hero: ");
    push_hero_label(out, &c.player.hero);
    push_str(out, "\n");
    push_str(out, "- Opponent hero: ");
    push_hero_label(out, &c.opponent.hero);
    push_str(out, "\n");
    push_lobby_section(out, &c.lobby);
    push_cards_section(out, "Player Board at Combat Start", &c.player.board);
    push_cards_section(out, "Opponent Board at Combat Start", &c.opponent.board);
    reveal(combat_body_v);
    assert(out@ =~= mid + combat_body_v(*c));
}

#[verifier::spinoff_prover]
fn push_combat(out: &mut Vec<char>, c: &CombatArchive)
    ensures
        final(out)@ == old(out)@ + combat_v(*c),
{
    let ghost before = out@;
    push_combat_head(out, c);
    push_combat_body(out, c);
    reveal(combat_v);
    assert(out@ =~= before + combat_v(*c));
}

#[verifier::opaque]
pub open spec fn round_section_v(r: RoundArchive) -> Seq<char> {
    "\n## Round "@ + nat_text(r.round_number as nat) + "\n"@ + (match r.recruit {
        Some(rec) => recruit_v(rec),
        None => Seq::empty(),
    }) + match r.combat {
        Some(c) => combat_v(c),
        None => Seq::empty(),
    }
}

pub open spec fn round_sections_v(rs: Seq<RoundArchive>) -> Seq<char>
    decreases rs.len(),
{
    if rs.len() == 0 {
        Seq::empty()
    } else {
        round_sections_v(rs.drop_last()) + round_section_v(rs.last())
    }
}

#[verifier::spinoff_prover]
fn push_round(out: &mut Vec<char>, r: &RoundArchive)
    ensures
        final(out)@ == old(out)@ + round_section_v(*r),
{
    let ghost before = out@;
    push_str(out, "\n## Round ");
    push_nat(out, r.round_number);
    push_str(out, "\n");
    let ghost a = out@;
    match &r.recruit {
        Some(rec) => push_recruit(out, rec),
        None => {},
    }
    let ghost b = out@;
    match &r.combat {
        Some(c) => push_combat(out, c),
        None => {},
    }
    reveal(round_section_v);
    assert(out@ =~= before + round_section_v(*r));
}

/// `{:?}` of the optional tribe list.
pub open spec fn debug_tribes(o: Option<Vec<String>>) -> Seq<char> {
    match o {
        Some(v) => "Some("@ + debug_strs(strs_view(v@)) + ")"@,
        None => "None"@,
    }
}

/// The title, schema and source of the archive,
pub open spec fn header_title(a: GameArchive) -> Seq<char> {
    "# HearthCoach Battlegrounds Match Log\n\n"@ + "- Schema: `"@ + a.schema_version@ + "`\n"@ + "- Source: `"@
        + or_text(a.source_log, "unknown"@) + "`\n"@
}

/// its catalog and times,
pub open spec fn header_times(a: GameArchive) -> Seq<char> {
    "- Card Catalog: `"@ + or_text(a.card_catalog_source, "none"@) + "`\n"@ + "- Start: `"@ + or_text(
        a.started_at,
        "unknown"@,
    ) + "`\n"@ + "- End: `"@ + or_text(a.ended_at, "unknown"@) + "`\n"@
}

#[verifier::opaque]
pub open spec fn header_source_v(a: GameArchive) -> Seq<char> {
    header_title(a) + header_times(a)
}

/// then the local player and final place,
pub open spec fn header_local(a: GameArchive) -> Seq<char> {
    "- Local Player ID: `"@ + debug_int(wide_i32(a.local_player_id)) + "`\n"@ + "- Local Player: `"@ + or_text(
        a.local_player_name,
        "unknown"@,
    ) + "`\n"@ + "- Final Place: `"@ + debug_int(wide_u8(a.final_place)) + "`\n"@
}

/// the tribes and the recoveries.
pub open spec fn header_tribes(a: GameArchive) -> Seq<char> {
    "- Available Tribes: `"@ + debug_tribes(a.available_tribes) + "`\n"@ + "- Available Tribes Source: `"@
        + or_text(a.available_tribes_source, "none"@) + "`\n"@ + "- Block Stack Recoveries: `"@ + nat_text(
        a.stale_block_stack_recoveries as nat,
    ) + "`\n\n"@
}

#[verifier::opaque]
pub open spec fn header_player_v(a: GameArchive) -> Seq<char> {
    header_local(a) + header_tribes(a)
}

/// The Markdown report: header, lobby, pregame choices, then every round
/// with its recruit and combat sections.
pub open spec fn markdown_v(a: GameArchive) -> Seq<char> {
    header_source_v(a) + header_player_v(a) + "## Lobby\n\n"@ + lobby_entries_v(a.lobby_players@) + (if a.pregame_choices@.len()
        > 0 {
        "\n## Pregame Choices\n\n"@ + choice_lines_v(a.pregame_choices@)
    } else {
        Seq::empty()
    }) + round_sections_v(a.rounds@)
}

#[verifier::spinoff_prover]
fn push_header_title(out: &mut Vec<char>, a: &GameArchive)
    ensures
        final(out)@ == old(out)@ + header_title(*a),
{
    let ghost before = out@;
    push_str(out, "# HearthCoach Battlegrounds Match Log\n\n");
    push_str(out, "- Schema: `");
    push_str(out, a.schema_version.as_str());
    push_str(out, "`\n");
    push_str(out, "- Source: `");
    push_or(out, &a.source_log, "unknown");
    push_str(out, "`\n");
    assert(out@ =~= before + header_title(*a));
}

#[verifier::spinoff_prover]
fn push_header_times(out: &mut Vec<char>, a: &GameArchive)
    ensures
        final(out)@ == old(out)@ + header_times(*a),
{
    let ghost before = out@;
    push_str(out, "- Card Catalog: `");
    push_or(out, &a.card_catalog_source, "none");
    push_str(out, "`\n");
    push_str(out, "- Start: `");
    push_or(out, &a.started_at, "unknown");
    push_str(out, "`\n");
    push_str(out, "- End: `");
    push_or(out, &a.ended_at, "unknown");
    push_str(out, "`\n");
    assert(out@ =~= before + header_times(*a));
}

#[verifier::spinoff_prover]
fn push_header_local(out: &mut Vec<char>, a: &GameArchive)
    ensures
        final(out)@ == old(out)@ + header_local(*a),
{
    let ghost before = out@;
    push_str(out, "- Local Player ID: `");
    push_debug_i32(out, a.local_player_id);
    push_str(out, "`\n");
    push_str(out, "- Local Player: `");
    push_or(out, &a.local_player_name, "unknown");
    push_str(out, "`\n");
    push_str(out, "- Final Place: `");
    push_debug_u8(out, a.final_place);
    push_str(out, "`\n");
    assert(out@ =~= before + header_local(*a));
}

#[verifier::spinoff_prover]
fn push_header_tribes(out: &mut Vec<char>, a: &GameArchive)
    ensures
        final(out)@ == old(out)@ + header_tribes(*a),
{
    let ghost before = out@;
    push_str(out, "- Available Tribes: `");
    match &a.available_tribes {
        Some(v) => {
            push_str(out, "Some(");
            push_str(out, debug_string_list(v).as_str());
            push_str(out, ")");
        },
        None => push_str(out, "None"),
    }
    push_str(out, "`\n");
    push_str(out, "- Available Tribes Source: `");
    push_or(out, &a.available_tribes_source, "none");
    push_str(out, "`\n");
    push_str(out, "- Block Stack Recoveries: `");
    push_nat(out, a.stale_block_stack_recoveries);
    push_str(out, "`\n\n");
    assert(out@ =~= before + header_tribes(*a));
}

#[verifier::spinoff_prover]
fn push_header(out: &mut Vec<char>, a: &GameArchive)
    ensures
        final(out)@ == old(out)@ + header_source_v(*a) + header_player_v(*a),
{
    let ghost before = out@;
    push_header_title(out, a);
    push_header_times(out, a);
    let ghost mid = out@;
    push_header_local(out, a);
    push_header_tribes(out, a);
    reveal(header_source_v);
    reveal(header_player_v);
    assert(out@ =~= before + header_source_v(*a) + header_player_v(*a));
}

/// The Markdown report of an archived match.
#[verifier::spinoff_prover]
pub fn render_markdown(archive: &GameArchive) -> (r: String)
    ensures
        r@ == markdown_v(*archive),
{
    let mut out: Vec<char> = Vec::new();
    push_header(&mut out, archive);
    push_str(&mut out, "## Lobby\n\n");
    push_lobby_entries(&mut out, &archive.lobby_players);
    let ghost a = out@;
    if archive.pregame_choices.len() > 0 {
        push_str(&mut out, "\n## Pregame Choices\n\n");
        push_choice_lines(&mut out, &archive.pregame_choices);
    }
    let ghost b = out@;
    assert(b =~= a + (if archive.pregame_choices@.len() > 0 {
        "\n## Pregame Choices\n\n"@ + choice_lines_v(archive.pregame_choices@)
    } else {
        Seq::<char>::empty()
    }));
    let ghost head = out@;
    let mut i: usize = 0;
    assert(round_sections_v(archive.rounds@.take(0)) =~= Seq::<char>::empty());
    assert(out@ =~= head + round_sections_v(archive.rounds@.take(0)));
    while i < archive.rounds.len()
        invariant
            i <= archive.rounds@.len(),
            out@ == head + round_sections_v(archive.rounds@.take(i as int)),
        decreases archive.rounds@.len() - i,
    {
        assert(archive.rounds@.take(i + 1).drop_last() =~= archive.rounds@.take(i as int));
        push_round(&mut out, &archive.rounds[i]);
        assert(out@ =~= head + round_sections_v(archive.rounds@.take(i + 1)));
        i += 1;
    }
    assert(archive.rounds@.take(i as int) =~= archive.rounds@);
    assert(out@ =~= markdown_v(*archive));
    string_of(&out)
}

} // verus!
