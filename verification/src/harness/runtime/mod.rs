//! The match runtime: turns routed log events into a live game view and an
//! archive of rounds.

pub mod clock;
pub mod rules;

use vstd::prelude::*;

use crate::harness::archive::{
    ChoiceArchive, ChoiceKind, CombatArchive, CombatResult, GameArchive, RecruitActionKind,
    RecruitActionRecord, RecruitArchive, RoundArchive, ShopRevision, ShopRevisionCause,
};
use crate::harness::card_catalog::{opt_str_view, CardCatalog, CardMeta, ResolvedCardMeta};
use crate::harness::choice::event::ChoiceEvent;
use crate::harness::power::event::{
    clone_opt_string, opt_view, EntityDescriptor, EntityIdentity, PowerEvent, TagTarget, TagValue,
};
use crate::harness::router::{opt_parsed, spec_route, LogEvent, LogRouter, ParsedLogEvent};
use crate::harness::state::entity_store::{empty_store_v, spec_apply, EntityStore};
use crate::harness::state::projector::StateProjector;
use crate::harness::state::snapshot::{
    cards_view, opt_res, owned_str, trustworthy_entity_name, CardSnapshot, HeroPowerSnapshot,
    HeroSnapshot, LiveCombatSnapshot, LobbyPlayerSnapshot, RecruitSnapshot,
};
use crate::maps::IntMap;
use crate::text::{chars_eq, chars_of, set_insert, strictly_sorted, string_of, strs_view};
use self::clock::{elapsed_millis, instant_now};
use self::rules::{
    classify_action, classify_choice, combat_result, game_turn_from_event, positive_drop,
    round_number, round_of, shop_cause_for_action, shop_signature, signature_eq, ActionFacts,
};

verus! {

#[derive(Debug, Clone, Copy, PartialEq, Eq, Structural)]
pub enum PhaseKind {
    Pregame,
    Recruit,
    Combat,
    Complete,
    Unknown,
}

#[derive(Debug, Clone)]
pub enum HarnessEvent {
    MatchStarted,
    /// The physical Power.log source changed or the user forced a rescan before
    /// Hearthstone emitted STATE=COMPLETE. Consumers should archive the partial
    /// session and clear live state before opening the newest log.
    MatchInterrupted { reason: String },
    PhaseStarted { round_number: u32, phase: PhaseKind },
    ChoiceOpened { id: u32 },
    /// Source/options arrive after ChoiceOpened in Power.log. Consumers that
    /// classify choices (especially Trinkets) must listen for these updates.
    ChoiceUpdated { id: u32 },
    ChoiceResolved { id: u32 },
    RecruitAction { round_number: u32, kind: RecruitActionKind },
    ShopUpdated { round_number: u32, revision: u32, card_ids: Vec<String> },
    RoundArchived { round_number: u32 },
    MatchCompleted,
}

pub enum HarnessEventV {
    MatchStarted,
    MatchInterrupted { reason: Seq<char> },
    PhaseStarted { round_number: u32, phase: PhaseKind },
    ChoiceOpened { id: u32 },
    ChoiceUpdated { id: u32 },
    ChoiceResolved { id: u32 },
    RecruitAction { round_number: u32, kind: RecruitActionKind },
    ShopUpdated { round_number: u32, revision: u32, card_ids: Seq<Seq<char>> },
    RoundArchived { round_number: u32 },
    MatchCompleted,
}

impl View for HarnessEvent {
    type V = HarnessEventV;

    open spec fn view(&self) -> HarnessEventV {
        match self {
            HarnessEvent::MatchStarted => HarnessEventV::MatchStarted,
            HarnessEvent::MatchInterrupted { reason } => HarnessEventV::MatchInterrupted { reason: reason@ },
            HarnessEvent::PhaseStarted { round_number, phase } => HarnessEventV::PhaseStarted {
                round_number: *round_number,
                phase: *phase,
            },
            HarnessEvent::ChoiceOpened { id } => HarnessEventV::ChoiceOpened { id: *id },
            HarnessEvent::ChoiceUpdated { id } => HarnessEventV::ChoiceUpdated { id: *id },
            HarnessEvent::ChoiceResolved { id } => HarnessEventV::ChoiceResolved { id: *id },
            HarnessEvent::RecruitAction { round_number, kind } => HarnessEventV::RecruitAction {
                round_number: *round_number,
                kind: *kind,
            },
            HarnessEvent::ShopUpdated { round_number, revision, card_ids } => HarnessEventV::ShopUpdated {
                round_number: *round_number,
                revision: *revision,
                card_ids: strs_view(card_ids@),
            },
            HarnessEvent::RoundArchived { round_number } => HarnessEventV::RoundArchived {
                round_number: *round_number,
            },
            HarnessEvent::MatchCompleted => HarnessEventV::MatchCompleted,
        }
    }
}

pub open spec fn events_view(v: Seq<HarnessEvent>) -> Seq<HarnessEventV> {
    v.map_values(|e: HarnessEvent| e@)
}

/// What feeding one routed event is known to do: `CREATE_GAME` starts a
/// fresh match; a `TURN` change archives the open combat's round, opens the
/// new phase and reports exactly those events (`turn_events_v`), its steps
/// being `turn_changed`, and a recruit phase it ends is filed with its open
/// action recorded last; a block that realizes a waiting SendOption on a
/// recruit turn opens the recruit action it stands for and reports it; a
/// choice fact moves the open choices (`choice_step`) and reports
/// `choice_events_v`; nothing else starts or stops the match or forgets
/// that it completed.
pub open spec fn feed_outcome(
    before: HarnessRuntime,
    after: HarnessRuntime,
    parsed: crate::harness::router::ParsedV,
    events: Seq<HarnessEventV>,
) -> bool {
    match parsed.event {
        crate::harness::router::LogEventV::Power(e) => {
            &&& e is CreateGame ==> after.active_v() && !after.complete_v() && after.raw_turn_v() is None
                && after.archive_v().rounds@.len() == 0 && events == seq![HarnessEventV::MatchStarted]
            &&& !(e is CreateGame) ==> after.active_v() == before.active_v() && (before.complete_v()
                ==> after.complete_v())
            &&& !(e is CreateGame) && rules::game_turn_v(e) is Some ==> after.raw_turn_v() == rules::game_turn_v(e)
                && after.complete_v() == before.complete_v()
            &&& after.store_v()@ == spec_apply(before.store_v()@, e)
            &&& after.catalog_v() == before.catalog_v()
            &&& before.detected_action_v(e) matches Some(k) ==> after.open_action_v() == Some(
                (k, crate::harness::state::snapshot::first_of(before.input_time_v(), parsed.timestamp)),
            ) && (before.recruit_round_v() matches Some(n) ==> events.len() > 0 && events.last()
                == HarnessEventV::RecruitAction { round_number: n, kind: k })
            &&& !(e is CreateGame) ==> after.complete_v() == (before.complete_v() || (is_match_complete_v(e)
                && before.active_v()))
            &&& !(e is CreateGame) && is_match_complete_v(e) && before.active_v() && !before.complete_v() ==> opt_view(
                after.archive_v().ended_at,
            ) == parsed.timestamp && events.len() > 0 && events.last() == HarnessEventV::MatchCompleted
            &&& !(e is CreateGame) && rules::game_turn_v(e) is Some ==> events == turn_events_v(
                before,
                rules::game_turn_v(e)->0,
            ) && turn_changed(before.with_router(after.router_v()), after, e, parsed.timestamp)
            &&& !(e is CreateGame) && rules::game_turn_v(e) is Some && before.active_v() && before.raw_turn_v() is Some
                && before.raw_turn_v()->0 % 2 == 1 && before.recruit_round_v() is Some ==> (after.pending_recruit_v() matches Some(
                ra,
            ) && ra.round_number == before.recruit_round_v()->0 && actions_closed(
                before.recruit_actions_v(),
                before.open_action_v(),
                ra.actions@,
            ))
        },
        crate::harness::router::LogEventV::Choice(c) => {
            &&& events == if before.active_v() {
                choice_events_v(before.open_choices_v(), c)
            } else {
                Seq::empty()
            }
            &&& after.open_choices_v() == if before.active_v() {
                choice_step(before.open_choices_v(), before.raw_turn_v(), c, parsed.timestamp)
            } else {
                before.open_choices_v()
            }
            &&& after.store_v() == before.store_v()
            &&& after.catalog_v() == before.catalog_v()
            &&& after.active_v() == before.active_v()
            &&& after.complete_v() == before.complete_v()
            &&& after.raw_turn_v() == before.raw_turn_v()
        },
    }
}

/// The phase of a raw game turn and the match's progress.
pub open spec fn phase_v(complete: bool, raw_turn: Option<u32>, active: bool) -> PhaseKind {
    if complete {
        PhaseKind::Complete
    } else {
        match raw_turn {
            None => if active {
                PhaseKind::Pregame
            } else {
                PhaseKind::Unknown
            },
            Some(t) => if t % 2 == 1 {
                PhaseKind::Recruit
            } else {
                PhaseKind::Combat
            },
        }
    }
}

/// The number of a recruit phase's revision `i` (from 0): `i + 1`, held at
/// `u32::MAX`.
pub open spec fn rev_number(i: int) -> u32 {
    if i < 4294967295 {
        (i + 1) as u32
    } else {
        u32::MAX
    }
}

/// Shop revisions numbered 1, 2, 3, ... in the order they were published.
pub open spec fn revisions_numbered(s: Seq<ShopRevision>) -> bool {
    forall|i: int| 0 <= i < s.len() ==> #[trigger] s[i].revision == rev_number(i)
}

pub open spec fn round_revisions_numbered(r: RoundArchive) -> bool {
    match r.recruit {
        Some(rc) => revisions_numbered(rc.shop_revisions@),
        None => true,
    }
}

/// Every archived recruit phase numbers its shop revisions from 1.
pub open spec fn archive_revisions_numbered(s: Seq<RoundArchive>) -> bool {
    forall|k: int| 0 <= k < s.len() ==> round_revisions_numbered(#[trigger] s[k])
}

/// A round holds its recruit phase or its combat (or both), each of the
/// round's own number.
pub open spec fn round_matched(r: RoundArchive) -> bool {
    &&& r.recruit is Some || r.combat is Some
    &&& r.recruit matches Some(rc) ==> rc.round_number == r.round_number
    &&& r.combat matches Some(c) ==> c.round_number == r.round_number
}

/// Every archived round is matched.
pub open spec fn rounds_matched(s: Seq<RoundArchive>) -> bool {
    forall|k: int| 0 <= k < s.len() ==> round_matched(#[trigger] s[k])
}

/// Rounds in increasing order of round number, one per number.
pub open spec fn rounds_ordered(s: Seq<RoundArchive>) -> bool {
    forall|i: int, j: int| 0 <= i < j < s.len() ==> s[i].round_number < s[j].round_number
}

#[derive(Debug)]
struct RecruitBuilder {
    round_number: u32,
    raw_game_turn: u32,
    started_at: Option<String>,
    start: Option<RecruitSnapshot>,
    actions: Vec<RecruitActionRecord>,
    shop_revisions: Vec<ShopRevision>,
    last_emitted_shop_signature: Option<Vec<(u32, i32, String)>>,
    last_observed_shop_signature: Option<Vec<(u32, i32, String)>>,
    last_stable_shop: Vec<CardSnapshot>,
    shop_dirty: bool,
    pending_shop_cause: ShopRevisionCause,
    pending_shop_timestamp: Option<String>,
    shop_last_changed_at: Option<std::time::Instant>,
    choices: Vec<ChoiceArchive>,
}

#[derive(Debug)]
struct CombatBuilder {
    round_number: u32,
    raw_game_turn: u32,
    started_at: Option<String>,
    start: Option<LiveCombatSnapshot>,
    player_hero_entity_id: Option<u32>,
    opponent_hero_entity_id: Option<u32>,
    player_effective_start: Option<i32>,
    opponent_effective_start: Option<i32>,
    player_effective_last: Option<i32>,
    opponent_effective_last: Option<i32>,
    won_last_combat: Option<bool>,
    explicit_damage_taken: Option<i32>,
    player_predamage_max: Option<i32>,
    opponent_predamage_max: Option<i32>,
    choices: Vec<ChoiceArchive>,
}

#[derive(Debug, Clone)]
struct PendingAction {
    timestamp: Option<String>,
    kind: RecruitActionKind,
    source: Option<CardSnapshot>,
    target: Option<CardSnapshot>,
}

#[derive(Debug, Clone)]
struct PendingUserInput {
    timestamp: Option<String>,
    selected_target: Option<u32>,
}

/// The card a choice's descriptor shows: the live entity when the store
/// holds it, else what the descriptor itself says.
pub open spec fn descriptor_card_v(
    store: crate::harness::state::entity_store::StoreV,
    cat: CardCatalog,
    d: crate::harness::power::event::DescriptorV,
) -> crate::harness::state::snapshot::CardSnapshotV {
    let key = d.identity.id as i64;
    if store.entities.contains_key(key) {
        crate::harness::state::snapshot::card_v(
            store.entities[key],
            crate::harness::state::snapshot::resolved_v(store.entities[key].card_id, Some(&cat)),
        )
    } else {
        crate::harness::state::snapshot::identity_card_v(
            d.identity.id,
            d.identity.card_id,
            d.identity.name,
            d.controller,
            d.zone,
            d.zone_position,
            crate::harness::state::snapshot::resolved_v(d.identity.card_id, Some(&cat)),
        )
    }
}

pub open spec fn descriptor_cards_v(
    store: crate::harness::state::entity_store::StoreV,
    cat: CardCatalog,
    ds: Seq<crate::harness::power::event::DescriptorV>,
) -> Seq<crate::harness::state::snapshot::CardSnapshotV>
    decreases ds.len(),
{
    if ds.len() == 0 {
        Seq::empty()
    } else {
        descriptor_cards_v(store, cat, ds.drop_last()).push(descriptor_card_v(store, cat, ds.last()))
    }
}

/// The CardId of a choice's source: the live entity's, else the descriptor's.
pub open spec fn choice_source_card_v(store: crate::harness::state::entity_store::StoreV, c: PendingChoiceV) -> Option<
    Seq<char>,
> {
    match c.source {
        Some(d) => {
            let key = d.identity.id as i64;
            if store.entities.contains_key(key) && store.entities[key].card_id is Some {
                store.entities[key].card_id
            } else {
                d.identity.card_id
            }
        },
        None => None,
    }
}

/// The name of a choice's source: the catalog's name for its CardId, else
/// the source's own name when it can be trusted, else the raw source text
/// unless that is `GameEntity`.
pub open spec fn choice_source_name_v(
    store: crate::harness::state::entity_store::StoreV,
    cat: CardCatalog,
    c: PendingChoiceV,
) -> Option<Seq<char>> {
    let static_name = match choice_source_card_v(store, c) {
        Some(id) => match cat.spec_resolve(id) {
            Some(m) => m.name(),
            None => None,
        },
        None => None,
    };
    match static_name {
        Some(n) => Some(n),
        None => {
            let trusted = match c.source {
                Some(d) => crate::harness::state::snapshot::trustworthy_name_v(d.identity.name),
                None => None,
            };
            match trusted {
                Some(t) => Some(t),
                None => match c.raw_source {
                    Some(raw) => if raw == "GameEntity"@ {
                        None
                    } else {
                        Some(raw)
                    },
                    None => None,
                },
            }
        },
    }
}

/// The number of selections that closes a choice: the announced count, else
/// its minimum count (at least one).
pub open spec fn expected_selections(c: PendingChoiceV) -> usize {
    match c.expected_selected {
        Some(e) => e,
        None => if c.count_min > 1 {
            c.count_min
        } else {
            1
        },
    }
}

/// The open choices after a choice fact, while a match is running: an
/// opened choice is filed empty; its source, options and announced
/// selection count are recorded as they come; it closes when the expected
/// number of selections has been made (or none are announced).
pub open spec fn choice_step(
    open: Map<i64, PendingChoiceV>,
    raw_turn: Option<u32>,
    e: crate::harness::choice::event::ChoiceEventV,
    ts: Option<Seq<char>>,
) -> Map<i64, PendingChoiceV> {
    match e {
        crate::harness::choice::event::ChoiceEventV::Opened { id, player_name: _, choice_type, count_min, count_max: _ } =>
            open.insert(
            id as i64,
            PendingChoiceV {
                id,
                choice_type,
                count_min,
                expected_selected: None,
                started_at: ts,
                opened_turn: match raw_turn {
                    Some(t) => t,
                    None => 0,
                },
                source: None,
                raw_source: None,
                options: Seq::empty(),
                selected: Seq::empty(),
            },
        ),
        crate::harness::choice::event::ChoiceEventV::Source { id, source, raw_source } => if open.contains_key(
            id as i64,
        ) {
            open.insert(id as i64, PendingChoiceV { source, raw_source: Some(raw_source), ..open[id as i64] })
        } else {
            open
        },
        crate::harness::choice::event::ChoiceEventV::Option { id, index: _, entity } => if open.contains_key(
            id as i64,
        ) {
            open.insert(id as i64, PendingChoiceV { options: open[id as i64].options.push(entity), ..open[id as i64] })
        } else {
            open
        },
        crate::harness::choice::event::ChoiceEventV::SelectionStarted { id, entities_count } => {
            let m = if open.contains_key(id as i64) {
                open.insert(id as i64, PendingChoiceV { expected_selected: Some(entities_count), ..open[id as i64] })
            } else {
                open
            };
            if entities_count == 0 {
                m.remove(id as i64)
            } else {
                m
            }
        },
        crate::harness::choice::event::ChoiceEventV::Selected { id, index: _, entity } => if open.contains_key(
            id as i64,
        ) {
            let c = PendingChoiceV { selected: open[id as i64].selected.push(entity), ..open[id as i64] };
            if c.selected.len() >= expected_selections(c) {
                open.remove(id as i64)
            } else {
                open.insert(id as i64, c)
            }
        } else {
            open
        },
    }
}

/// The events of a choice fact while a match is running: an opened choice is
/// announced, news of an open choice is reported as an update, and a choice
/// that the fact closes is reported resolved.
pub open spec fn choice_events_v(
    open: Map<i64, PendingChoiceV>,
    e: crate::harness::choice::event::ChoiceEventV,
) -> Seq<HarnessEventV> {
    match e {
        crate::harness::choice::event::ChoiceEventV::Opened { id, .. } => seq![HarnessEventV::ChoiceOpened { id }],
        crate::harness::choice::event::ChoiceEventV::Source { id, .. } => if open.contains_key(id as i64) {
            seq![HarnessEventV::ChoiceUpdated { id }]
        } else {
            Seq::empty()
        },
        crate::harness::choice::event::ChoiceEventV::Option { id, .. } => if open.contains_key(id as i64) {
            seq![HarnessEventV::ChoiceUpdated { id }]
        } else {
            Seq::empty()
        },
        crate::harness::choice::event::ChoiceEventV::SelectionStarted { id, entities_count } => if entities_count
            == 0 && open.contains_key(id as i64) {
            seq![HarnessEventV::ChoiceResolved { id }]
        } else {
            Seq::empty()
        },
        crate::harness::choice::event::ChoiceEventV::Selected { id, .. } => if open.contains_key(id as i64)
            && open[id as i64].selected.len() + 1 >= expected_selections(open[id as i64]) {
            seq![HarnessEventV::ChoiceResolved { id }]
        } else {
            Seq::empty()
        },
    }
}

/// What publishing the shop did to the open recruit phase: nothing, or one
/// more revision, numbered next, holding a non-empty shop and announced by a
/// `ShopUpdated` event with its CardIds.
pub open spec fn shop_published(
    round: Option<u32>,
    before: Option<Seq<ShopRevision>>,
    after: Option<Seq<ShopRevision>>,
    events_before: Seq<HarnessEventV>,
    events_after: Seq<HarnessEventV>,
) -> bool {
    match before {
        None => after is None && events_after == events_before,
        Some(b) => after is Some && ({
            ||| after->0 == b && events_after == events_before
            ||| exists|rev: ShopRevision|
                #![trigger b.push(rev)]
                after->0 == b.push(rev) && rev.revision == rev_number(b.len() as int) && rev.cards@.len() > 0
                    && events_after == events_before.push(
                    HarnessEventV::ShopUpdated {
                        round_number: round->0,
                        revision: rev.revision,
                        card_ids: card_ids_v(cards_view(rev.cards@)),
                    },
                )
        }),
    }
}

/// A player's integer tag, zero when absent or not a number.
pub open spec fn int_tag_or_zero(v: Option<crate::harness::power::event::TagValueV>) -> int {
    match v {
        Some(crate::harness::power::event::TagValueV::Int(x)) => x as int,
        _ => 0,
    }
}

/// The effective health of the hero entity `id`, as the store holds it.
pub open spec fn hero_health_of(
    store: crate::harness::state::entity_store::StoreV,
    cat: CardCatalog,
    id: Option<u32>,
) -> Option<i32> {
    match id {
        Some(i) => if store.entities.contains_key(i as i64) {
            crate::harness::state::snapshot::hero_v(
                store.entities[i as i64],
                crate::harness::state::snapshot::resolved_v(store.entities[i as i64].card_id, Some(&cat)),
            ).effective_health
        } else {
            None
        },
        None => None,
    }
}

/// The card an identity shows: the live entity when the store holds it,
/// else what the identity itself says.
pub open spec fn identity_snapshot_v(
    store: crate::harness::state::entity_store::StoreV,
    cat: CardCatalog,
    id: crate::harness::power::event::IdentityV,
) -> crate::harness::state::snapshot::CardSnapshotV {
    descriptor_card_v(
        store,
        cat,
        crate::harness::power::event::DescriptorV { identity: id, zone: None, zone_position: None, controller: None },
    )
}

/// A change of the `TIMEOUT` tag.
pub open spec fn is_timeout_tag_v(e: crate::harness::power::event::PowerEventV) -> bool {
    match e {
        crate::harness::power::event::PowerEventV::TagChanged { target: _, tag, value: _ } => tag == "TIMEOUT"@,
        _ => false,
    }
}

/// The turn timer after a sync: a newly known or changed timeout is taken
/// and the timer restarted; a known timeout with no running timer starts it;
/// otherwise nothing changes.
spec fn timer_synced(before: HarnessRuntime, after: HarnessRuntime) -> bool {
    let timeout = before.proj_v().timeout_v();
    if timeout is Some && (timeout != before.timer_timeout_seconds || before.timer_anchor is None) {
        after.timer_anchor is Some && after == (HarnessRuntime {
            timer_timeout_seconds: timeout,
            timer_anchor: after.timer_anchor,
            ..before
        })
    } else {
        after == before
    }
}

/// A resolved choice filed with the phase it was opened in: pregame choices
/// with the archive, recruit-turn choices with the running recruit phase of
/// that turn or else the finished one awaiting its combat, combat-turn choices
/// with the running combat of that turn. A choice of no such phase is dropped.
spec fn choice_filed(before: HarnessRuntime, after: HarnessRuntime, opened_turn: u32, choice: ChoiceArchive) -> bool {
    if opened_turn == 0 {
        after == (HarnessRuntime {
            archive: GameArchive { pregame_choices: after.archive.pregame_choices, ..before.archive },
            ..before
        }) && after.archive.pregame_choices@ == before.archive.pregame_choices@.push(choice)
    } else if opened_turn % 2 == 1 {
        if before.current_recruit is Some && before.current_recruit->0.raw_game_turn == opened_turn {
            let r = before.current_recruit->0;
            after.current_recruit matches Some(f) && f == (RecruitBuilder { choices: f.choices, ..r })
                && f.choices@ == r.choices@.push(choice)
                && after == (HarnessRuntime { current_recruit: Some(f), ..before })
        } else if before.pending_recruit_archive is Some && before.pending_recruit_archive->0.raw_game_turn
            == opened_turn {
            let p = before.pending_recruit_archive->0;
            after.pending_recruit_archive matches Some(f) && f == (RecruitArchive { choices: f.choices, ..p })
                && f.choices@ == p.choices@.push(choice)
                && after == (HarnessRuntime { pending_recruit_archive: Some(f), ..before })
        } else {
            after == before
        }
    } else if before.current_combat is Some && before.current_combat->0.raw_game_turn == opened_turn {
        let c = before.current_combat->0;
        after.current_combat matches Some(f) && f == (CombatBuilder { choices: f.choices, ..c })
            && f.choices@ == c.choices@.push(choice)
            && after == (HarnessRuntime { current_combat: Some(f), ..before })
    } else {
        after == before
    }
}

/// Whether a tag change is aimed at the local player: by the player's name,
/// by the player's entity, or by the hero tracked in this combat.
spec fn local_target_v(rt: HarnessRuntime, c: CombatBuilder, target: crate::harness::power::event::TagTargetV) -> bool {
    match target {
        crate::harness::power::event::TagTargetV::PlayerName(name) => match rt.store.first_player_with(true) {
            Some(id) => rt.store@.player_names.contains_key(id as i64) && rt.store@.player_names[id as i64] == name,
            None => false,
        },
        crate::harness::power::event::TagTargetV::Entity(identity) => (match rt.store.first_player_with(true) {
            Some(id) => rt.store@.players.contains_key(id as i64) && rt.store@.players[id as i64].entity_id
                == identity.id,
            None => false,
        }) || Some(identity.id) == c.player_hero_entity_id,
        crate::harness::power::event::TagTargetV::GameEntity => false,
    }
}

spec fn fit_i32(v: i64) -> Option<i32> {
    if i32::MIN <= v <= i32::MAX {
        Some(v as i32)
    } else {
        None
    }
}

/// The larger of a recorded maximum (none counts as zero) and `v`.
spec fn raised_max(prev: Option<i32>, v: i32) -> Option<i32> {
    let p = match prev {
        Some(p) => p,
        None => 0,
    };
    Some(
        if p > v {
            p
        } else {
            v
        },
    )
}

/// A combat after one tag change: the local player's win flag and damage
/// taken as the game reports them, and the largest positive pre-damage seen
/// on each tracked hero.
spec fn combat_tag_applied(
    rt: HarnessRuntime,
    c: CombatBuilder,
    target: crate::harness::power::event::TagTargetV,
    tag: Seq<char>,
    value: crate::harness::power::event::TagValueV,
) -> CombatBuilder {
    let local = local_target_v(rt, c, target);
    let int_value: Option<i64> = match value {
        crate::harness::power::event::TagValueV::Int(v) => Some(v),
        _ => None,
    };
    let small: Option<i32> = match int_value {
        Some(v) => fit_i32(v),
        None => None,
    };
    let entity: Option<u32> = match target {
        crate::harness::power::event::TagTargetV::Entity(i) => Some(i.id),
        _ => None,
    };
    let predamage = tag == "PREDAMAGE"@ && small is Some && small->0 > 0 && entity is Some;
    CombatBuilder {
        won_last_combat: if tag == "BACON_WON_LAST_COMBAT"@ && local && int_value is Some {
            Some(int_value->0 != 0)
        } else {
            c.won_last_combat
        },
        explicit_damage_taken: if tag == "DAMAGE_DEALT_TO_HERO_LAST_TURN"@ && local && small is Some {
            Some(
                if small->0 > 0 {
                    small->0
                } else {
                    0
                },
            )
        } else {
            c.explicit_damage_taken
        },
        player_predamage_max: if predamage && entity == c.player_hero_entity_id {
            raised_max(c.player_predamage_max, small->0)
        } else {
            c.player_predamage_max
        },
        opponent_predamage_max: if predamage && entity == c.opponent_hero_entity_id {
            raised_max(c.opponent_predamage_max, small->0)
        } else {
            c.opponent_predamage_max
        },
        ..c
    }
}

/// Ids of the open choices that were opened in `turn`.
spec fn choices_of_turn(m: Map<i64, PendingChoiceV>, turn: u32) -> Set<i64> {
    Set::new(|k: i64| m.contains_key(k) && m[k].opened_turn == turn)
}

/// The choices of `turn` closed unresolved: they leave the open choices, and
/// `out` holds one record of each, taken from the store as it stands.
spec fn choices_drained(
    before: HarnessRuntime,
    after: HarnessRuntime,
    turn: u32,
    resolved_at: Option<Seq<char>>,
    out: Seq<ChoiceArchive>,
) -> bool {
    let m = before.open_choices@;
    let d = choices_of_turn(m, turn);
    &&& after == (HarnessRuntime { open_choices: after.open_choices, ..before })
    &&& after.open_choices@ == m.remove_keys(d)
    &&& exists|ks: Seq<i64>| #[trigger] drained_as(before, d, resolved_at, out, ks)
}

/// `out` lists, one each, the records of the choices `d`, which were open in
/// `before`: the `j`-th is the choice `ks[j]`.
spec fn drained_as(
    before: HarnessRuntime,
    d: Set<i64>,
    resolved_at: Option<Seq<char>>,
    out: Seq<ChoiceArchive>,
    ks: Seq<i64>,
) -> bool {
    &&& ks.len() == out.len()
    &&& ks.no_duplicates()
    &&& forall|x: i64| d.contains(x) <==> ks.contains(x)
    &&& forall|j: int|
        0 <= j < out.len() ==> materialized_v(
            #[trigger] out[j],
            before.store@,
            before.catalog,
            before.open_choices@[ks[j]],
            resolved_at,
        )
}

/// A recruit snapshot whose empty shop is filled from the phase's first
/// published revision, when there is one.
spec fn with_first_revision(
    snap: crate::harness::state::snapshot::RecruitSnapshotV,
    revs: Seq<ShopRevision>,
) -> crate::harness::state::snapshot::RecruitSnapshotV {
    if snap.shop.len() == 0 && revs.len() > 0 {
        crate::harness::state::snapshot::RecruitSnapshotV { shop: cards_view(revs[0].cards@), ..snap }
    } else {
        snap
    }
}

/// The closing snapshot of recruit phase `r`: what the projector shows, with
/// the tracked freeze state, and the last stable shop when one was published.
spec fn recruit_end_v(
    rt: HarnessRuntime,
    r: RecruitBuilder,
    ts: Option<Seq<char>>,
    snap: crate::harness::state::snapshot::RecruitSnapshotV,
) -> bool {
    exists|p: crate::harness::state::snapshot::RecruitSnapshotV|
        #[trigger] rt.proj_v().recruit_v(p, r.round_number, r.raw_game_turn, ts) && snap == (
        crate::harness::state::snapshot::RecruitSnapshotV {
            shop_frozen: crate::harness::state::snapshot::first_of(rt.shop_frozen_state, p.shop_frozen),
            shop: if r.last_stable_shop@.len() > 0 {
                cards_view(r.last_stable_shop@)
            } else {
                p.shop
            },
            ..p
        })
}

/// Closing the recruit phase of the current turn: its unresolved choices are
/// drained into it and it waits, archived, for its combat.
#[verifier::opaque]
spec fn recruit_finalized(before: HarnessRuntime, after: HarnessRuntime, timestamp: Option<String>) -> bool {
    match before.current_raw_turn {
        None => after == before,
        Some(t) => exists|mid: HarnessRuntime, u: Seq<ChoiceArchive>|
            #[trigger] choices_drained(before, mid, t, opt_view(timestamp), u) && match before.current_recruit {
                None => after == mid,
                Some(r) => after.pending_recruit_archive matches Some(a) && after == (HarnessRuntime {
                    current_recruit: None,
                    pending_recruit_archive: Some(a),
                    ..mid
                }) && a.round_number == r.round_number && a.raw_game_turn == r.raw_game_turn && a.started_at
                    == r.started_at && a.ended_at == timestamp && a.actions == r.actions && a.shop_revisions
                    == r.shop_revisions && a.choices@ == r.choices@ + u && recruit_end_v(
                    before,
                    r,
                    opt_view(timestamp),
                    a.end@,
                ) && match r.start {
                    Some(s0) => a.start@ == with_first_revision(s0@, r.shop_revisions@),
                    None => exists|e: crate::harness::state::snapshot::RecruitSnapshotV|
                        #[trigger] recruit_end_v(before, r, opt_view(timestamp), e) && a.start@
                            == with_first_revision(e, r.shop_revisions@),
                },
            },
    }
}

/// The combat record of a finished combat phase.
spec fn combat_record_of(c: CombatBuilder, s: LiveCombatSnapshot, timestamp: Option<String>, a: CombatArchive) -> bool {
    let taken = crate::harness::state::snapshot::first_of(
        c.explicit_damage_taken,
        crate::harness::state::snapshot::first_of(
            c.player_predamage_max,
            rules::positive_drop_v(c.player_effective_start, c.player_effective_last),
        ),
    );
    let dealt = crate::harness::state::snapshot::first_of(
        c.opponent_predamage_max,
        rules::positive_drop_v(c.opponent_effective_start, c.opponent_effective_last),
    );
    &&& a.round_number == c.round_number
    &&& a.raw_game_turn == c.raw_game_turn
    &&& a.started_at == crate::harness::state::snapshot::first_of(s.timestamp, c.started_at)
    &&& a.ended_at == timestamp
    &&& a.opponent_player_id == s.opponent_player_id
    &&& a.lobby == s.lobby
    &&& a.player == s.player
    &&& a.opponent == s.opponent
    &&& a.damage_taken == taken
    &&& a.damage_dealt == dealt
    &&& a.result == rules::combat_result_v(c.won_last_combat, taken, dealt)
    &&& a.choices == c.choices
}

/// Closing the combat phase of the current turn: its unresolved choices are
/// drained into it, a combat that never saw an attack is given its snapshot
/// now, and the round is archived with its recruit phase when that waits for
/// it; a waiting recruit phase of another round is dropped.
#[verifier::opaque]
spec fn combat_finalized(
    before: HarnessRuntime,
    after: HarnessRuntime,
    timestamp: Option<String>,
    ev_before: Seq<HarnessEvent>,
    ev_after: Seq<HarnessEvent>,
) -> bool {
    match before.current_raw_turn {
        None => after == before && ev_after == ev_before,
        Some(t) => exists|mid: HarnessRuntime, u: Seq<ChoiceArchive>|
            #[trigger] choices_drained(before, mid, t, opt_view(timestamp), u) && match before.current_combat {
                None => after == mid && ev_after == ev_before,
                Some(c) => exists|c2: CombatBuilder, a: CombatArchive|
                    #[trigger] combat_record_of(c2, c2.start->0, timestamp, a) && c2.start is Some && c2.choices@
                        == c.choices@ + u && (if c.start is Some {
                        c2 == (CombatBuilder { choices: c2.choices, ..c })
                    } else {
                        c2 == combat_started(CombatBuilder { choices: c2.choices, ..c }, c2.start->0)
                            && before.proj_v().combat_v(
                            c2.start->0@,
                            c.round_number,
                            c.raw_game_turn,
                            opt_view(c.started_at),
                        )
                    }) && after.archive.rounds@ == upsert_v(
                        before.archive.rounds@,
                        RoundArchive {
                            round_number: c.round_number,
                            recruit: match before.pending_recruit_archive {
                                Some(p) => if p.round_number == c.round_number {
                                    Some(p)
                                } else {
                                    None
                                },
                                None => None,
                            },
                            combat: Some(a),
                        },
                    ) && after == (HarnessRuntime {
                        current_combat: None,
                        pending_recruit_archive: None,
                        archive: GameArchive { rounds: after.archive.rounds, ..mid.archive },
                        ..mid
                    }) && ev_after == ev_before.push(HarnessEvent::RoundArchived { round_number: c.round_number }),
            },
    }
}

/// The local player has gold and has spent none: the recruit window is open.
spec fn recruit_window_open(rt: HarnessRuntime) -> bool {
    match rt.store.first_player_with(true) {
        Some(p) => int_tag_or_zero(rt.store.spec_player_tag(p, "RESOURCES"@)) > 0 && int_tag_or_zero(
            rt.store.spec_player_tag(p, "RESOURCES_USED"@),
        ) == 0,
        None => false,
    }
}

/// The freeze state once it is tracked: as tracked, else as the shop shows it.
spec fn bootstrapped_frozen(rt: HarnessRuntime) -> Option<bool> {
    match rt.shop_frozen_state {
        Some(f) => Some(f),
        None => Some(
            match rt.proj_v().shop_frozen_v() {
                Some(f) => f,
                None => false,
            },
        ),
    }
}

/// Taking the opening snapshot of the current recruit phase, once: on a
/// recruit turn whose phase has none yet, when forced and the gold is known,
/// or when the recruit window is open. The freeze state is then tracked, the
/// snapshot (with the last published shop when the shop shows empty) opens
/// the phase, and the turn timer is synchronized.
#[verifier::opaque]
spec fn recruit_start_step(before: HarnessRuntime, after: HarnessRuntime, timestamp: Option<Seq<char>>, force: bool) -> bool {
    let t = before.current_raw_turn->0;
    let due = before.current_raw_turn is Some && t % 2 == 1 && !(before.current_recruit is Some
        && before.current_recruit->0.start is Some) && (if force {
        before.proj_v().gold_v() is Some
    } else {
        recruit_window_open(before)
    });
    if !due {
        after == before
    } else {
        let frozen = bootstrapped_frozen(before);
        exists|mid: HarnessRuntime|
            #[trigger] timer_synced(mid, after) && mid == (HarnessRuntime {
                shop_frozen_state: frozen,
                current_recruit: mid.current_recruit,
                ..before
            }) && match before.current_recruit {
                None => mid.current_recruit is None,
                Some(r) => {
                    let f = mid.current_recruit->0;
                    &&& mid.current_recruit is Some
                    &&& f == (RecruitBuilder { start: f.start, ..r })
                    &&& f.start is Some
                    &&& exists|p: crate::harness::state::snapshot::RecruitSnapshotV|
                        #[trigger] before.proj_v().recruit_v(p, round_of(t), t, timestamp) && f.start->0@ == (
                        crate::harness::state::snapshot::RecruitSnapshotV {
                            shop_frozen: frozen,
                            shop: if p.shop.len() == 0 && r.shop_revisions@.len() > 0 {
                                cards_view(r.shop_revisions@.last().cards@)
                            } else {
                                p.shop
                            },
                            ..p
                        })
                },
            }
    }
}

/// Closing the open recruit action: it is dropped, and on a recruit turn it
/// is recorded with the state it left behind, after the phase's opening
/// snapshot has been taken if it was still missing.
#[verifier::opaque]
spec fn pending_action_finalized(before: HarnessRuntime, after: HarnessRuntime, timestamp: Option<Seq<char>>) -> bool {
    match before.pending_recruit_action {
        None => after == before,
        Some(a) => {
            let cleared = HarnessRuntime { pending_recruit_action: None, ..before };
            let t = before.current_raw_turn->0;
            if !(before.current_raw_turn is Some && t % 2 == 1) {
                after == cleared
            } else {
                exists|mid: HarnessRuntime|
                    #[trigger] recruit_start_step(cleared, mid, opt_view(a.timestamp), true) && match mid.current_recruit {
                        None => after == mid,
                        Some(r) => {
                            let f = after.current_recruit->0;
                            let rec = f.actions@.last();
                            &&& after.current_recruit is Some
                            &&& after == (HarnessRuntime { current_recruit: Some(f), ..mid })
                            &&& f == (RecruitBuilder { actions: f.actions, ..r })
                            &&& f.actions@ == r.actions@.push(rec)
                            &&& rec.timestamp == a.timestamp && rec.kind == a.kind && rec.source == a.source
                                && rec.target == a.target
                            &&& exists|p: crate::harness::state::snapshot::RecruitSnapshotV|
                                #[trigger] mid.proj_v().recruit_v(p, round_of(t), t, timestamp) && rec.state_after@ == (
                                crate::harness::state::snapshot::RecruitSnapshotV {
                                    shop_frozen: crate::harness::state::snapshot::first_of(mid.shop_frozen_state, p.shop_frozen),
                                    ..p
                                })
                        },
                    }
            }
        },
    }
}

spec fn card_opt_view(o: Option<CardSnapshot>) -> Option<crate::harness::state::snapshot::CardSnapshotV> {
    match o {
        Some(c) => Some(c@),
        None => None,
    }
}

/// The card a block's source shows, when it names one.
spec fn source_card_v(rt: HarnessRuntime, source: Option<crate::harness::power::event::IdentityV>) -> Option<
    crate::harness::state::snapshot::CardSnapshotV,
> {
    match source {
        Some(i) => Some(identity_snapshot_v(rt.store@, rt.catalog, i)),
        None => None,
    }
}

/// The card a block aims at: its named target, else the entity the player
/// picked when the store holds it.
spec fn target_card_v(
    rt: HarnessRuntime,
    target: Option<crate::harness::power::event::IdentityV>,
    selected_target: Option<u32>,
) -> Option<crate::harness::state::snapshot::CardSnapshotV> {
    match target {
        Some(i) => Some(identity_snapshot_v(rt.store@, rt.catalog, i)),
        None => match selected_target {
            Some(id) => if rt.store@.entities.contains_key(id as i64) {
                Some(
                    crate::harness::state::snapshot::card_v(
                        rt.store@.entities[id as i64],
                        crate::harness::state::snapshot::resolved_v(rt.store@.entities[id as i64].card_id, Some(&rt.catalog)),
                    ),
                )
            } else {
                None
            },
            None => None,
        },
    }
}

/// What the action classifier learns of a block: the live source entity's
/// card id, type, zone and controller first, else what its card shows, and
/// whether the source is the local player's and can be activated now.
spec fn action_facts_v(
    rt: HarnessRuntime,
    block_type: Seq<char>,
    source: Option<crate::harness::power::event::IdentityV>,
) -> rules::ActionFactsV {
    let snap = source_card_v(rt, source);
    let ent: Option<crate::harness::state::entity_store::EntityV> = match source {
        Some(i) => if rt.store@.entities.contains_key(i.id as i64) {
            Some(rt.store@.entities[i.id as i64])
        } else {
            None
        },
        None => None,
    };
    let card_id = match source {
        Some(i) => if i.card_id is Some {
            i.card_id
        } else {
            match ent {
                Some(e) => e.card_id,
                None => None,
            }
        },
        None => None,
    };
    let entity_sym = |tag: Seq<char>|
        match ent {
            Some(e) => crate::harness::state::entity_store::tag_sym(e.tags, tag),
            None => None,
        };
    let ctrl = crate::harness::state::snapshot::first_of(
        match ent {
            Some(e) => crate::harness::state::snapshot::i32_tag_v(e, "CONTROLLER"@),
            None => None,
        },
        match snap {
            Some(c) => c.controller,
            None => None,
        },
    );
    rules::ActionFactsV {
        block_type,
        source_card_id: card_id,
        source_type: crate::harness::state::snapshot::first_of(
            entity_sym("CARDTYPE"@),
            match snap {
                Some(c) => c.card_type,
                None => None,
            },
        ),
        source_zone: crate::harness::state::snapshot::first_of(
            entity_sym("ZONE"@),
            match snap {
                Some(c) => c.zone,
                None => None,
            },
        ),
        local_source: ctrl == rt.store.first_player_with(true),
        activatable: match snap {
            Some(c) => c.keywords.activate_keyword && c.keywords.activate_available_now,
            None => false,
        },
    }
}

/// A recruit snapshot whose empty shop is filled with `shown`.
spec fn with_shop_if_empty(
    snap: crate::harness::state::snapshot::RecruitSnapshotV,
    shown: Seq<crate::harness::state::snapshot::CardSnapshotV>,
) -> crate::harness::state::snapshot::RecruitSnapshotV {
    if snap.shop.len() == 0 {
        crate::harness::state::snapshot::RecruitSnapshotV { shop: shown, ..snap }
    } else {
        snap
    }
}

/// Settling the shop of the current recruit phase once it stopped changing:
/// on a recruit turn whose shop is marked changed and shows cards, those
/// cards become the phase's stable shop, the phase's opening snapshot is
/// taken now when nothing happened yet (or its empty shop is filled), and the
/// shop is published as the next numbered revision, with the cause and time
/// of its first change, unless it is the shop published last.
#[verifier::opaque]
spec fn shop_flushed(
    before: HarnessRuntime,
    after: HarnessRuntime,
    timestamp: Option<Seq<char>>,
    ev_before: Seq<HarnessEvent>,
    ev_after: Seq<HarnessEvent>,
) -> bool {
    let t = before.current_raw_turn->0;
    let r = before.current_recruit->0;
    let proj = before.proj_v();
    let go = before.current_raw_turn is Some && t % 2 == 1 && before.current_recruit is Some && r.shop_dirty
        && proj.dummy_v() is Some && proj.shop_v(proj.dummy_v()->0).len() > 0;
    if !go {
        after == before && ev_after == ev_before
    } else {
        let f = after.current_recruit->0;
        let shown = cards_view(f.last_stable_shop@);
        let can_refresh = r.shop_revisions@.len() == 0 && r.actions@.len() == 0 && (r.start is Some
            || recruit_window_open(before));
        let same = r.last_emitted_shop_signature matches Some(l) && rules::sig_view(l@) == rules::signature_v(shown);
        let rev = f.shop_revisions@.last();
        &&& after.current_recruit is Some
        &&& after == (HarnessRuntime { current_recruit: Some(f), ..before })
        &&& crate::harness::state::projector::displayed(shown, proj.shop_v(proj.dummy_v()->0))
        &&& f == (RecruitBuilder {
            start: f.start,
            last_stable_shop: f.last_stable_shop,
            shop_dirty: false,
            shop_last_changed_at: None,
            pending_shop_timestamp: None,
            pending_shop_cause: ShopRevisionCause::StateChange,
            last_emitted_shop_signature: f.last_emitted_shop_signature,
            shop_revisions: f.shop_revisions,
            ..r
        })
        &&& if can_refresh {
            f.start is Some && exists|p: crate::harness::state::snapshot::RecruitSnapshotV|
                #[trigger] proj.recruit_v(p, round_of(t), t, timestamp) && f.start->0@ == with_shop_if_empty(
                    crate::harness::state::snapshot::RecruitSnapshotV {
                        shop_frozen: crate::harness::state::snapshot::first_of(before.shop_frozen_state, p.shop_frozen),
                        ..p
                    },
                    shown,
                )
        } else {
            match r.start {
                None => f.start is None,
                Some(s0) => f.start is Some && f.start->0@ == with_shop_if_empty(s0@, shown),
            }
        }
        &&& if same {
            &&& f.last_emitted_shop_signature == r.last_emitted_shop_signature
            &&& f.shop_revisions == r.shop_revisions
            &&& ev_after == ev_before
        } else {
            &&& f.last_emitted_shop_signature matches Some(l) && rules::sig_view(l@) == rules::signature_v(shown)
            &&& f.shop_revisions@ == r.shop_revisions@.push(rev)
            &&& rev.revision == rev_number(r.shop_revisions@.len() as int)
            &&& opt_view(rev.timestamp) == crate::harness::state::snapshot::first_of(
                opt_view(r.pending_shop_timestamp),
                timestamp,
            )
            &&& rev.cause == r.pending_shop_cause
            &&& cards_view(rev.cards@) == shown
            &&& ev_after.len() == ev_before.len() + 1 && ev_after.drop_last() == ev_before
            &&& ev_after.last()@ == HarnessEventV::ShopUpdated {
                round_number: r.round_number,
                revision: rev.revision,
                card_ids: card_ids_v(shown),
            }
        }
    }
}

/// `shown` is the shop as the projector shows it.
spec fn shop_shown(rt: HarnessRuntime, shown: Seq<crate::harness::state::snapshot::CardSnapshotV>) -> bool {
    match rt.proj_v().dummy_v() {
        Some(d) => crate::harness::state::projector::displayed(shown, rt.proj_v().shop_v(d)),
        None => shown.len() == 0,
    }
}

/// Watching the shop on a recruit turn: a shop that differs from the one
/// last seen marks the phase's shop as changed at `timestamp` and may open
/// the recruit window.
#[verifier::opaque]
spec fn shop_change_observed(before: HarnessRuntime, after: HarnessRuntime, timestamp: Option<String>) -> bool {
    let t = before.current_raw_turn->0;
    if !(before.current_raw_turn is Some && t % 2 == 1) || before.current_recruit is None {
        after == before
    } else {
        let r = before.current_recruit->0;
        exists|shown: Seq<crate::harness::state::snapshot::CardSnapshotV>|
            #[trigger] shop_shown(before, shown) && if r.last_observed_shop_signature matches Some(l) && rules::sig_view(
                l@,
            ) == rules::signature_v(shown) {
                after == before
            } else {
                exists|mid: HarnessRuntime|
                    #[trigger] recruit_start_step(mid, after, None, false) && {
                        let f = mid.current_recruit->0;
                        &&& mid.current_recruit is Some
                        &&& mid == (HarnessRuntime { current_recruit: Some(f), ..before })
                        &&& f == (RecruitBuilder {
                            last_observed_shop_signature: f.last_observed_shop_signature,
                            shop_dirty: true,
                            pending_shop_timestamp: timestamp,
                            shop_last_changed_at: f.shop_last_changed_at,
                            ..r
                        })
                        &&& f.shop_last_changed_at is Some
                        &&& f.last_observed_shop_signature matches Some(l) && rules::sig_view(l@) == rules::signature_v(shown)
                    }
            }
    }
}

/// What settling the shop does, as the public accessors see it. On a
/// recruit turn whose shop is marked changed while the projector shows shop
/// cards: those cards (as displayed) become the phase's stable shop, the
/// change mark is cleared, and unless they are the shop published last they
/// are published as the next numbered revision with one `ShopUpdated` event.
/// Otherwise nothing changes.
pub open spec fn shop_flush_outcome(
    before: HarnessRuntime,
    after: HarnessRuntime,
    events_before: Seq<HarnessEventV>,
    events_after: Seq<HarnessEventV>,
) -> bool {
    let proj = before.proj_v();
    let due = before.raw_turn_v() is Some && before.raw_turn_v()->0 % 2 == 1 && before.shop_dirty_v()
        && proj.dummy_v() is Some && proj.shop_v(proj.dummy_v()->0).len() > 0;
    if !due {
        after == before && events_after == events_before
    } else {
        let shown = after.stable_shop_cards_v();
        let b = before.recruit_revisions_v()->0;
        let a = after.recruit_revisions_v()->0;
        &&& !after.shop_dirty_v()
        &&& crate::harness::state::projector::displayed(shown, proj.shop_v(proj.dummy_v()->0))
        &&& after.store_v() == before.store_v()
        &&& after.catalog_v() == before.catalog_v()
        &&& after.archive_v() == before.archive_v()
        &&& after.active_v() == before.active_v()
        &&& after.complete_v() == before.complete_v()
        &&& after.raw_turn_v() == before.raw_turn_v()
        &&& after.recruit_round_v() == before.recruit_round_v()
        &&& after.recruit_revisions_v() is Some
        &&& after.published_signature_v() == Some(rules::signature_v(shown))
        &&& if before.published_signature_v() == Some(rules::signature_v(shown)) {
            a == b && events_after == events_before
        } else {
            &&& a.len() == b.len() + 1
            &&& a.drop_last() == b
            &&& a.last().revision == rev_number(b.len() as int)
            &&& cards_view(a.last().cards@) == shown
            &&& events_after == events_before.push(
                HarnessEventV::ShopUpdated {
                    round_number: before.recruit_round_v()->0,
                    revision: a.last().revision,
                    card_ids: card_ids_v(shown),
                },
            )
        }
    }
}

proof fn lemma_flush_outcome(
    before: HarnessRuntime,
    after: HarnessRuntime,
    timestamp: Option<Seq<char>>,
    eb: Seq<HarnessEvent>,
    ea: Seq<HarnessEvent>,
)
    requires
        shop_flushed(before, after, timestamp, eb, ea),
    ensures
        shop_flush_outcome(before, after, events_view(eb), events_view(ea)),
{
    reveal(shop_flushed);
    let proj = before.proj_v();
    let due = before.raw_turn_v() is Some && before.raw_turn_v()->0 % 2 == 1 && before.shop_dirty_v()
        && proj.dummy_v() is Some && proj.shop_v(proj.dummy_v()->0).len() > 0;
    if due {
        let f = after.current_recruit->0;
        let r = before.current_recruit->0;
        let shown = cards_view(f.last_stable_shop@);
        assert(after.stable_shop_cards_v() == shown);
        let same = r.last_emitted_shop_signature matches Some(l) && rules::sig_view(l@) == rules::signature_v(shown);
        if !same {
            assert(events_view(ea) =~= events_view(eb).push(ea.last()@)) by {
                assert(ea =~= eb.push(ea.last()));
            }
            let a = after.recruit_revisions_v()->0;
            assert(a.drop_last() =~= r.shop_revisions@);
        }
    }
}

/// Opening raw turn `raw_turn`: a `PhaseStarted` event for its round and
/// phase, a fresh recruit (odd turn) or combat (even turn) builder, the turn
/// timer cleared and the Power block depth reset.
pub closed spec fn turn_started(
    before: HarnessRuntime,
    after: HarnessRuntime,
    raw_turn: u32,
    timestamp: Option<String>,
    eb: Seq<HarnessEvent>,
    ea: Seq<HarnessEvent>,
) -> bool {
    &&& ea == eb.push(
        HarnessEvent::PhaseStarted {
            round_number: round_of(raw_turn),
            phase: if raw_turn % 2 == 1 {
                PhaseKind::Recruit
            } else {
                PhaseKind::Combat
            },
        }
    )
    &&& after == (HarnessRuntime {
        current_recruit: after.current_recruit,
        current_combat: after.current_combat,
        timer_anchor: None,
        timer_timeout_seconds: None,
        block_depth: 0,
        stale_block_stack_recoveries: after.stale_block_stack_recoveries,
        ..before
    })
    &&& after.stale_block_stack_recoveries == if before.block_depth > 0
        && before.stale_block_stack_recoveries < u32::MAX {
        (before.stale_block_stack_recoveries + 1) as u32
    } else {
        before.stale_block_stack_recoveries
    }
    &&& if raw_turn % 2 == 1 {
        &&& after.current_combat == before.current_combat
        &&& after.current_recruit matches Some(r) && r.round_number == round_of(raw_turn)
            && r.raw_game_turn == raw_turn && r.started_at == timestamp && r.start is None
            && r.actions@.len() == 0 && r.shop_revisions@.len() == 0 && r.last_emitted_shop_signature is None
            && r.last_observed_shop_signature is None && r.last_stable_shop@.len() == 0 && !r.shop_dirty
            && r.pending_shop_cause == ShopRevisionCause::PhaseStart && r.pending_shop_timestamp is None
            && r.shop_last_changed_at is None && r.choices@.len() == 0
    } else {
        &&& after.current_recruit == before.current_recruit
        &&& after.current_combat matches Some(c) && c.round_number == round_of(raw_turn)
            && c.raw_game_turn == raw_turn && c.started_at == timestamp && c.start is None
            && c.player_hero_entity_id is None && c.opponent_hero_entity_id is None
            && c.player_effective_start is None && c.opponent_effective_start is None
            && c.player_effective_last is None && c.opponent_effective_last is None
            && c.won_last_combat is None && c.explicit_damage_taken is None
            && c.player_predamage_max is None && c.opponent_predamage_max is None && c.choices@.len() == 0
    }
}

/// Closing the phase of the current raw turn: the recruit phase on an odd
/// turn, the combat on an even one; nothing without a turn.
pub closed spec fn phase_finalized(
    before: HarnessRuntime,
    after: HarnessRuntime,
    timestamp: Option<String>,
    eb: Seq<HarnessEvent>,
    ea: Seq<HarnessEvent>,
) -> bool {
    match before.current_raw_turn {
        None => after == before && ea == eb,
        Some(t) => if t % 2 == 1 {
            recruit_finalized(before, after, timestamp) && ea == eb
        } else {
            combat_finalized(before, after, timestamp, eb, ea)
        },
    }
}

/// The archive's match metadata refreshed from the store: local player,
/// lobby, final place and the recovery count.
pub closed spec fn metadata_refreshed(before: HarnessRuntime, after: HarnessRuntime) -> bool {
    &&& after == (HarnessRuntime {
        archive: GameArchive {
            local_player_id: before.store.first_player_with(true),
            local_player_name: after.archive.local_player_name,
            lobby_players: after.archive.lobby_players,
            final_place: match before.store.first_player_with(true) {
                Some(p) => crate::harness::state::snapshot::fitting_u8(
                    if before.store@.places.contains_key(p as i64) {
                        Some(before.store@.places[p as i64])
                    } else {
                        None
                    },
                ),
                None => None,
            },
            stale_block_stack_recoveries: before.stale_block_stack_recoveries,
            ..before.archive
        },
        ..before
    })
    &&& opt_view(after.archive.local_player_name) == (match before.store.first_player_with(true) {
        Some(id) => if before.store@.player_names.contains_key(id as i64) {
            Some(before.store@.player_names[id as i64])
        } else {
            None
        },
        None => None,
    })
    &&& crate::harness::state::snapshot::lobby_view(after.archive.lobby_players@) == before.proj_v().lobby_v()
    &&& after.archive_v().ended_at == before.archive_v().ended_at
    &&& after.archive_v().rounds == before.archive_v().rounds
}

/// The events of a change to raw turn `t`: in a running match, a combat
/// still open on an even turn is archived first (`RoundArchived`), then the
/// new phase starts (`PhaseStarted`).
pub open spec fn turn_events_v(before: HarnessRuntime, t: u32) -> Seq<HarnessEventV> {
    (if before.active_v() && before.raw_turn_v() is Some && before.raw_turn_v()->0 % 2 == 0
        && before.combat_round_v() is Some {
        seq![HarnessEventV::RoundArchived { round_number: before.combat_round_v()->0 }]
    } else {
        Seq::empty()
    }).push(
        HarnessEventV::PhaseStarted {
            round_number: round_of(t),
            phase: if t % 2 == 1 {
                PhaseKind::Recruit
            } else {
                PhaseKind::Combat
            },
        },
    )
}

/// The steps of a turn change, through the intermediate runtimes: in a
/// running match the open action is closed and the pending input dropped,
/// then the current phase is closed; the store takes the event and the raw
/// turn moves; the new turn opens; the metadata is refreshed.
pub closed spec fn turn_chain(
    before: HarnessRuntime,
    after: HarnessRuntime,
    e: crate::harness::power::event::PowerEventV,
    ts: Option<Seq<char>>,
    tsx: Option<String>,
    tsy: Option<String>,
    m1: HarnessRuntime,
    m2: HarnessRuntime,
    m3: HarnessRuntime,
    m4: HarnessRuntime,
    eb: Seq<HarnessEvent>,
    ea: Seq<HarnessEvent>,
    ec: Seq<HarnessEvent>,
) -> bool {
    let t = rules::game_turn_v(e)->0;
    &&& opt_view(tsx) == ts
    &&& opt_view(tsy) == ts
    &&& if before.active {
        pending_action_finalized(before, m1, ts) && phase_finalized(
            HarnessRuntime { pending_user_input: None, ..m1 },
            m2,
            tsx,
            eb,
            ea,
        )
    } else {
        m2 == before && ea == eb
    }
    &&& m3 == (HarnessRuntime { store: m3.store, current_raw_turn: Some(t), ..m2 })
    &&& m3.store@ == spec_apply(m2.store@, e)
    &&& turn_started(m3, m4, t, tsy, ea, ec)
    &&& metadata_refreshed(m4, after)
}

/// A change of raw turn, step by step (see `turn_chain`).
pub closed spec fn turn_changed(
    before: HarnessRuntime,
    after: HarnessRuntime,
    e: crate::harness::power::event::PowerEventV,
    ts: Option<Seq<char>>,
) -> bool {
    exists|
        tsx: Option<String>,
        tsy: Option<String>,
        m1: HarnessRuntime,
        m2: HarnessRuntime,
        m3: HarnessRuntime,
        m4: HarnessRuntime,
        eb: Seq<HarnessEvent>,
        ea: Seq<HarnessEvent>,
        ec: Seq<HarnessEvent>,
    | #[trigger] turn_chain(before, after, e, ts, tsx, tsy, m1, m2, m3, m4, eb, ea, ec)
}

/// `rec` records the open action `a`: its kind and start time.
pub open spec fn records_action(rec: RecruitActionRecord, a: (RecruitActionKind, Option<Seq<char>>)) -> bool {
    rec.kind == a.0 && opt_view(rec.timestamp) == a.1
}

/// The actions of a recruit phase once its open action, if any, is closed:
/// the recorded ones, then the open one.
pub open spec fn actions_closed(
    recorded: Seq<RecruitActionRecord>,
    open: Option<(RecruitActionKind, Option<Seq<char>>)>,
    after: Seq<RecruitActionRecord>,
) -> bool {
    match open {
        None => after == recorded,
        Some(a) => after.len() == recorded.len() + 1 && after.drop_last() == recorded && records_action(
            after.last(),
            a,
        ),
    }
}

/// Starting the recruit snapshot keeps the phase's round and actions.
proof fn lemma_start_step_keeps_actions(b: HarnessRuntime, a: HarnessRuntime, ts: Option<Seq<char>>, force: bool)
    requires
        recruit_start_step(b, a, ts, force),
    ensures
        a.current_recruit is Some == b.current_recruit is Some,
        b.current_recruit is Some ==> a.current_recruit->0.actions == b.current_recruit->0.actions
            && a.current_recruit->0.round_number == b.current_recruit->0.round_number,
        a.current_raw_turn == b.current_raw_turn,
        a.active == b.active,
        a.pending_recruit_action == b.pending_recruit_action,
        a.pending_recruit_archive == b.pending_recruit_archive,
{
    reveal(recruit_start_step);
}

/// Closing the open action on a recruit turn records it last in the open
/// recruit phase.
proof fn lemma_pending_action_recorded(b: HarnessRuntime, a: HarnessRuntime, ts: Option<Seq<char>>)
    requires
        pending_action_finalized(b, a, ts),
        b.current_raw_turn is Some && b.current_raw_turn->0 % 2 == 1,
        b.current_recruit is Some,
    ensures
        a.current_recruit is Some,
        a.current_recruit->0.round_number == b.current_recruit->0.round_number,
        actions_closed(b.current_recruit->0.actions@, b.open_action_v(), a.current_recruit->0.actions@),
        a.pending_recruit_action is None,
        a.current_raw_turn == b.current_raw_turn,
        a.active == b.active,
        a.pending_recruit_archive == b.pending_recruit_archive,
{
    reveal(pending_action_finalized);
    match b.pending_recruit_action {
        None => {},
        Some(act) => {
            let cleared = HarnessRuntime { pending_recruit_action: None, ..b };
            let mid = choose|mid: HarnessRuntime|
                #[trigger] recruit_start_step(cleared, mid, opt_view(act.timestamp), true) && match mid.current_recruit {
                    None => a == mid,
                    Some(r) => {
                        let f = a.current_recruit->0;
                        let rec = f.actions@.last();
                        &&& a.current_recruit is Some
                        &&& a == (HarnessRuntime { current_recruit: Some(f), ..mid })
                        &&& f == (RecruitBuilder { actions: f.actions, ..r })
                        &&& f.actions@ == r.actions@.push(rec)
                        &&& rec.timestamp == act.timestamp && rec.kind == act.kind && rec.source == act.source
                            && rec.target == act.target
                        &&& exists|p: crate::harness::state::snapshot::RecruitSnapshotV|
                            #[trigger] mid.proj_v().recruit_v(p, round_of(b.current_raw_turn->0), b.current_raw_turn->0, ts)
                                && rec.state_after@ == (crate::harness::state::snapshot::RecruitSnapshotV {
                                shop_frozen: crate::harness::state::snapshot::first_of(mid.shop_frozen_state, p.shop_frozen),
                                ..p
                            })
                    },
                };
            lemma_start_step_keeps_actions(cleared, mid, opt_view(act.timestamp), true);
            let f = a.current_recruit->0;
            assert(f.actions@.drop_last() =~= b.current_recruit->0.actions@);
        },
    }
}

/// A turn change that ends a recruit phase of a running match files that
/// phase, awaiting its combat, with the actions it recorded and, last, the
/// action that was still open.
pub proof fn lemma_turn_change_records_action(
    before: HarnessRuntime,
    after: HarnessRuntime,
    e: crate::harness::power::event::PowerEventV,
    ts: Option<Seq<char>>,
)
    requires
        turn_changed(before, after, e, ts),
        before.active_v(),
        before.raw_turn_v() is Some && before.raw_turn_v()->0 % 2 == 1,
        before.recruit_round_v() is Some,
    ensures
        after.pending_recruit_v() matches Some(ra) && ra.round_number == before.recruit_round_v()->0
            && actions_closed(before.recruit_actions_v(), before.open_action_v(), ra.actions@),
        after.open_action_v() is None,
{
    let (tsx, tsy, m1, m2, m3, m4, eb, ea, ec) = choose|
        tsx: Option<String>,
        tsy: Option<String>,
        m1: HarnessRuntime,
        m2: HarnessRuntime,
        m3: HarnessRuntime,
        m4: HarnessRuntime,
        eb: Seq<HarnessEvent>,
        ea: Seq<HarnessEvent>,
        ec: Seq<HarnessEvent>,
    | #[trigger] turn_chain(before, after, e, ts, tsx, tsy, m1, m2, m3, m4, eb, ea, ec);
    lemma_pending_action_recorded(before, m1, ts);
    let m1c = HarnessRuntime { pending_user_input: None, ..m1 };
    assert(recruit_finalized(m1c, m2, tsx));
    reveal(recruit_finalized);
    let r = m1c.current_recruit->0;
    let (mid, u) = choose|mid: HarnessRuntime, u: Seq<ChoiceArchive>|
        #[trigger] choices_drained(m1c, mid, m1c.current_raw_turn->0, opt_view(tsx), u) && match m1c.current_recruit {
            None => m2 == mid,
            Some(r) => m2.pending_recruit_archive matches Some(a) && m2 == (HarnessRuntime {
                current_recruit: None,
                pending_recruit_archive: Some(a),
                ..mid
            }) && a.round_number == r.round_number && a.raw_game_turn == r.raw_game_turn && a.started_at
                == r.started_at && a.ended_at == tsx && a.actions == r.actions && a.shop_revisions
                == r.shop_revisions && a.choices@ == r.choices@ + u && recruit_end_v(
                m1c,
                r,
                opt_view(tsx),
                a.end@,
            ) && match r.start {
                Some(s0) => a.start@ == with_first_revision(s0@, r.shop_revisions@),
                None => exists|e: crate::harness::state::snapshot::RecruitSnapshotV|
                    #[trigger] recruit_end_v(m1c, r, opt_view(tsx), e) && a.start@
                        == with_first_revision(e, r.shop_revisions@),
            },
        };
    assert(m4.pending_recruit_archive == m2.pending_recruit_archive);
}

proof fn lemma_round_slot_range(s: Seq<RoundArchive>, n: u32)
    ensures
        0 <= round_slot(s, n) <= s.len(),
    decreases s.len(),
{
    if s.len() > 0 && s[0].round_number < n {
        lemma_round_slot_range(s.drop_first(), n);
    }
}

/// Storing a round leaves it among the rounds.
proof fn lemma_upsert_holds(s: Seq<RoundArchive>, r: RoundArchive)
    ensures
        exists|j: int| 0 <= j < upsert_v(s, r).len() && #[trigger] upsert_v(s, r)[j] == r,
{
    lemma_round_slot_range(s, r.round_number);
    let i = round_slot(s, r.round_number);
    assert(upsert_v(s, r)[i] == r);
}

/// Settling the shop keeps the open recruit phase's round and actions.
proof fn lemma_flush_keeps_actions(
    b: HarnessRuntime,
    a: HarnessRuntime,
    ts: Option<Seq<char>>,
    eb: Seq<HarnessEvent>,
    ea: Seq<HarnessEvent>,
)
    requires
        shop_flushed(b, a, ts, eb, ea),
    ensures
        a.current_recruit is Some == b.current_recruit is Some,
        b.current_recruit is Some ==> a.current_recruit->0.actions == b.current_recruit->0.actions
            && a.current_recruit->0.round_number == b.current_recruit->0.round_number,
        a.current_raw_turn == b.current_raw_turn,
        a.active == b.active,
        a.complete_seen == b.complete_seen,
{
    reveal(shop_flushed);
}

/// Finishing the stream of a running, unfinished match during a recruit
/// phase archives that phase's round with the actions it recorded and,
/// last, the action that was still open.
pub proof fn lemma_finish_records_action(
    before: HarnessRuntime,
    after: HarnessRuntime,
    ts: Option<Seq<char>>,
    ev: Seq<HarnessEvent>,
)
    requires
        stream_finished(before, after, ts, ev),
        before.active_v(),
        !before.complete_v(),
        before.raw_turn_v() is Some && before.raw_turn_v()->0 % 2 == 1,
        before.recruit_round_v() is Some,
    ensures
        exists|j: int|
            0 <= j < after.archive_v().rounds@.len() && (#[trigger] after.archive_v().rounds@[j]).round_number
                == before.recruit_round_v()->0 && (after.archive_v().rounds@[j].recruit matches Some(ra)
                && actions_closed(before.recruit_actions_v(), before.open_action_v(), ra.actions@)),
{
    let (tsx, tsy, m1, m2, m3, m4, e1, e2) = choose|
        tsx: Option<String>,
        tsy: Option<String>,
        m1: HarnessRuntime,
        m2: HarnessRuntime,
        m3: HarnessRuntime,
        m4: HarnessRuntime,
        e1: Seq<HarnessEvent>,
        e2: Seq<HarnessEvent>,
    | #[trigger] finish_chain(before, after, ts, tsx, tsy, m1, m2, m3, m4, e1, e2, ev);
    lemma_pending_action_recorded(before, m1, ts);
    let m1c = HarnessRuntime { pending_user_input: None, ..m1 };
    lemma_flush_keeps_actions(m1c, m2, ts, Seq::empty(), e1);
    assert(recruit_finalized(m2, m3, tsx));
    reveal(recruit_finalized);
    let r = m2.current_recruit->0;
    let (mid, u) = choose|mid: HarnessRuntime, u: Seq<ChoiceArchive>|
        #[trigger] choices_drained(m2, mid, m2.current_raw_turn->0, opt_view(tsx), u) && match m2.current_recruit {
            None => m3 == mid,
            Some(r) => m3.pending_recruit_archive matches Some(a) && m3 == (HarnessRuntime {
                current_recruit: None,
                pending_recruit_archive: Some(a),
                ..mid
            }) && a.round_number == r.round_number && a.raw_game_turn == r.raw_game_turn && a.started_at
                == r.started_at && a.ended_at == tsx && a.actions == r.actions && a.shop_revisions
                == r.shop_revisions && a.choices@ == r.choices@ + u && recruit_end_v(
                m2,
                r,
                opt_view(tsx),
                a.end@,
            ) && match r.start {
                Some(s0) => a.start@ == with_first_revision(s0@, r.shop_revisions@),
                None => exists|e: crate::harness::state::snapshot::RecruitSnapshotV|
                    #[trigger] recruit_end_v(m2, r, opt_view(tsx), e) && a.start@
                        == with_first_revision(e, r.shop_revisions@),
            },
        };
    let p = m3.pending_recruit_archive->0;
    let round = RoundArchive { round_number: p.round_number, recruit: Some(p), combat: None };
    lemma_upsert_holds(m3.archive.rounds@, round);
    let j = choose|j: int| 0 <= j < upsert_v(m3.archive.rounds@, round).len() && #[trigger] upsert_v(
        m3.archive.rounds@,
        round,
    )[j] == round;
    assert(after.archive_v().rounds@[j] == round);
}

proof fn lemma_pending_action_keeps_phase(b: HarnessRuntime, a: HarnessRuntime, ts: Option<Seq<char>>)
    requires
        pending_action_finalized(b, a, ts),
    ensures
        a.current_combat == b.current_combat,
        a.current_raw_turn == b.current_raw_turn,
        a.active == b.active,
{
    reveal(pending_action_finalized);
    reveal(recruit_start_step);
}

proof fn lemma_phase_events(b: HarnessRuntime, a: HarnessRuntime, ts: Option<String>, eb: Seq<HarnessEvent>, ea: Seq<HarnessEvent>)
    requires
        phase_finalized(b, a, ts, eb, ea),
    ensures
        events_view(ea) == events_view(eb) + (if b.current_raw_turn is Some && b.current_raw_turn->0 % 2 == 0
            && b.current_combat is Some {
            seq![HarnessEventV::RoundArchived { round_number: b.current_combat->0.round_number }]
        } else {
            Seq::empty()
        }),
{
    reveal(combat_finalized);
    if b.current_raw_turn is Some && b.current_raw_turn->0 % 2 == 0 && b.current_combat is Some {
        let c = b.current_combat->0;
        assert(ea == eb.push(HarnessEvent::RoundArchived { round_number: c.round_number }));
        assert(events_view(ea) =~= events_view(eb) + seq![HarnessEventV::RoundArchived { round_number: c.round_number }]);
    } else {
        assert(events_view(ea) =~= events_view(eb) + Seq::<HarnessEventV>::empty());
    }
}

/// The finished recruit phase still waiting for its combat is archived as
/// a round of its own, with a `RoundArchived` event.
pub closed spec fn partial_round_pushed(
    before: HarnessRuntime,
    after: HarnessRuntime,
    eb: Seq<HarnessEvent>,
    ea: Seq<HarnessEvent>,
) -> bool {
    match before.pending_recruit_archive {
        None => after == before && ea == eb,
        Some(p) => after.archive.rounds@ == upsert_v(
            before.archive.rounds@,
            RoundArchive { round_number: p.round_number, recruit: Some(p), combat: None },
        ) && after == (HarnessRuntime {
            pending_recruit_archive: None,
            archive: GameArchive { rounds: after.archive.rounds, ..before.archive },
            ..before
        }) && ea == eb.push(HarnessEvent::RoundArchived { round_number: p.round_number }),
    }
}

/// The steps of finishing a stream, through the intermediate runtimes: the
/// open action is closed and the pending input dropped; the shop is
/// settled; in a running, unfinished match the current phase is closed, the
/// waiting recruit phase archived as a partial round and the end time set;
/// the metadata is refreshed. `ev` are the events reported.
pub closed spec fn finish_chain(
    before: HarnessRuntime,
    after: HarnessRuntime,
    ts: Option<Seq<char>>,
    tsx: Option<String>,
    tsy: Option<String>,
    m1: HarnessRuntime,
    m2: HarnessRuntime,
    m3: HarnessRuntime,
    m4: HarnessRuntime,
    e1: Seq<HarnessEvent>,
    e2: Seq<HarnessEvent>,
    ev: Seq<HarnessEvent>,
) -> bool {
    &&& opt_view(tsx) == ts
    &&& opt_view(tsy) == ts
    &&& pending_action_finalized(before, m1, ts)
    &&& shop_flushed(HarnessRuntime { pending_user_input: None, ..m1 }, m2, ts, Seq::empty(), e1)
    &&& if before.active && !before.complete_seen {
        &&& phase_finalized(m2, m3, tsx, e1, e2)
        &&& partial_round_pushed(m3, m4, e2, ev)
        &&& metadata_refreshed(
            HarnessRuntime { archive: GameArchive { ended_at: tsy, ..m4.archive }, ..m4 },
            after,
        )
    } else {
        &&& ev == e1
        &&& metadata_refreshed(m2, after)
    }
}

/// Finishing a stream, step by step (see `finish_chain`).
pub closed spec fn stream_finished(
    before: HarnessRuntime,
    after: HarnessRuntime,
    ts: Option<Seq<char>>,
    ev: Seq<HarnessEvent>,
) -> bool {
    exists|
        tsx: Option<String>,
        tsy: Option<String>,
        m1: HarnessRuntime,
        m2: HarnessRuntime,
        m3: HarnessRuntime,
        m4: HarnessRuntime,
        e1: Seq<HarnessEvent>,
        e2: Seq<HarnessEvent>,
    | #[trigger] finish_chain(before, after, ts, tsx, tsy, m1, m2, m3, m4, e1, e2, ev)
}

/// The game entity's `STATE` turning to `COMPLETE`: the match is over.
pub open spec fn is_match_complete_v(e: crate::harness::power::event::PowerEventV) -> bool {
    match e {
        crate::harness::power::event::PowerEventV::TagChanged { target, tag, value } => {
            &&& target is GameEntity
            &&& tag == "STATE"@
            &&& value == crate::harness::power::event::TagValueV::Symbol("COMPLETE"@)
        },
        _ => false,
    }
}

/// `r` is the archived form of the open choice `c`, closed at `resolved_at`.
pub open spec fn materialized_v(
    r: ChoiceArchive,
    store: crate::harness::state::entity_store::StoreV,
    cat: CardCatalog,
    c: PendingChoiceV,
    resolved_at: Option<Seq<char>>,
) -> bool {
    let source_card = choice_source_card_v(store, c);
    let source_name = choice_source_name_v(store, cat, c);
    &&& r.id == c.id
    &&& r.choice_type@ == c.choice_type
    &&& opt_view(r.started_at) == c.started_at
    &&& opt_view(r.resolved_at) == resolved_at
    &&& opt_view(r.source_card_id) == source_card
    &&& opt_view(r.source_name) == source_name
    &&& cards_view(r.options@) == descriptor_cards_v(store, cat, c.options)
    &&& cards_view(r.selected@) == descriptor_cards_v(store, cat, c.selected)
    &&& r.kind == rules::classify_v(c.choice_type, source_card, source_name, cards_view(r.options@))
}

#[derive(Debug)]
pub struct PendingChoice {
    id: u32,
    choice_type: String,
    count_min: usize,
    expected_selected: Option<usize>,
    started_at: Option<String>,
    opened_turn: u32,
    source: Option<EntityDescriptor>,
    raw_source: Option<String>,
    options: Vec<EntityDescriptor>,
    selected: Vec<EntityDescriptor>,
}

/// What is known of a choice that is still open.
pub struct PendingChoiceV {
    pub id: u32,
    pub choice_type: Seq<char>,
    pub count_min: usize,
    pub expected_selected: Option<usize>,
    pub started_at: Option<Seq<char>>,
    pub opened_turn: u32,
    pub source: Option<crate::harness::power::event::DescriptorV>,
    pub raw_source: Option<Seq<char>>,
    pub options: Seq<crate::harness::power::event::DescriptorV>,
    pub selected: Seq<crate::harness::power::event::DescriptorV>,
}

pub open spec fn descriptors_view(v: Seq<EntityDescriptor>) -> Seq<crate::harness::power::event::DescriptorV> {
    v.map_values(|d: EntityDescriptor| d@)
}

impl View for PendingChoice {
    type V = PendingChoiceV;

    closed spec fn view(&self) -> PendingChoiceV {
        PendingChoiceV {
            id: self.id,
            choice_type: self.choice_type@,
            count_min: self.count_min,
            expected_selected: self.expected_selected,
            started_at: opt_view(self.started_at),
            opened_turn: self.opened_turn,
            source: match self.source {
                Some(d) => Some(d@),
                None => None,
            },
            raw_source: opt_view(self.raw_source),
            options: descriptors_view(self.options@),
            selected: descriptors_view(self.selected@),
        }
    }
}

/// Main library entry point for Agent/UI code.
///
/// Feed physical log lines with `feed_line`. Query current data through the
/// getter methods without touching Power.log parsing internals.
#[derive(Debug)]
pub struct HarnessRuntime {
    router: LogRouter,
    store: EntityStore,
    catalog: CardCatalog,
    archive: GameArchive,
    source_log: Option<String>,
    active: bool,
    complete_seen: bool,
    current_raw_turn: Option<u32>,
    current_recruit: Option<RecruitBuilder>,
    current_combat: Option<CombatBuilder>,
    pending_recruit_archive: Option<RecruitArchive>,
    /// Diagnostic Power block nesting only. User action recognition is anchored
    /// to GameState.SendOption and does not depend on this depth.
    block_depth: usize,
    pending_user_input: Option<PendingUserInput>,
    /// A semantic recruit action remains open until the next SendOption or the
    /// phase boundary so `state_after` includes all asynchronous consequences.
    pending_recruit_action: Option<PendingAction>,
    open_choices: IntMap<PendingChoice>,
    timer_anchor: Option<std::time::Instant>,
    timer_timeout_seconds: Option<i32>,
    /// Explicit UI state tracked from the freeze button/action stream. The
    /// Power.log FROZEN tags are not consistently present on every shop card.
    shop_frozen_state: Option<bool>,
    /// Diagnostic counter for defensive recovery from unmatched BLOCK_STARTs.
    stale_block_stack_recoveries: u32,
}

impl HarnessRuntime {
    /// The runtime's invariant: archived rounds stay ordered, one per round
    /// number, each open choice is filed under its own id, and every recruit
    /// phase numbers its shop revisions from 1.
    pub closed spec fn wf(&self) -> bool {
        &&& rounds_ordered(self.archive.rounds@)
        &&& forall|k: i64| #[trigger] self.open_choices@.contains_key(k) ==> self.open_choices@[k].id == k
        &&& archive_revisions_numbered(self.archive.rounds@)
        &&& rounds_matched(self.archive.rounds@)
        &&& match self.pending_recruit_archive {
            Some(p) => revisions_numbered(p.shop_revisions@),
            None => true,
        }
        &&& match self.current_recruit {
            Some(c) => revisions_numbered(c.shop_revisions@),
            None => true,
        }
    }

    pub closed spec fn store_v(&self) -> EntityStore {
        self.store
    }

    pub closed spec fn catalog_v(&self) -> CardCatalog {
        self.catalog
    }

    pub closed spec fn archive_v(&self) -> GameArchive {
        self.archive
    }

    pub closed spec fn active_v(&self) -> bool {
        self.active
    }

    pub closed spec fn complete_v(&self) -> bool {
        self.complete_seen
    }

    pub closed spec fn raw_turn_v(&self) -> Option<u32> {
        self.current_raw_turn
    }

    /// The recruit action the player started that is not recorded yet: its
    /// kind and when it was started.
    pub closed spec fn open_action_v(&self) -> Option<(RecruitActionKind, Option<Seq<char>>)> {
        match self.pending_recruit_action {
            Some(a) => Some((a.kind, opt_view(a.timestamp))),
            None => None,
        }
    }

    /// When the SendOption that waits for its block was sent, if one waits
    /// and its time is known.
    pub closed spec fn input_time_v(&self) -> Option<Seq<char>> {
        match self.pending_user_input {
            Some(i) => opt_view(i.timestamp),
            None => None,
        }
    }

    /// The facts a block started now would be classified by.
    pub closed spec fn action_facts_at(
        &self,
        block_type: Seq<char>,
        source: Option<crate::harness::power::event::IdentityV>,
    ) -> rules::ActionFactsV {
        action_facts_v(*self, block_type, source)
    }

    /// The recruit action a power fact stands for: a block started on a
    /// recruit turn while a SendOption waits for it, classified by
    /// `rules::action_kind_v`.
    pub open spec fn detected_action_v(&self, e: crate::harness::power::event::PowerEventV) -> Option<RecruitActionKind> {
        match e {
            crate::harness::power::event::PowerEventV::BlockStarted { block_type, source, .. } => if self.raw_turn_v() is Some
                && self.raw_turn_v()->0 % 2 == 1 && self.input_waits_v() {
                rules::action_kind_v(self.action_facts_at(block_type, source))
            } else {
                None
            },
            _ => None,
        }
    }

    /// Whether a SendOption waits for the block that realizes it.
    pub closed spec fn input_waits_v(&self) -> bool {
        self.pending_user_input is Some
    }

    /// The actions recorded so far in the open recruit phase.
    pub closed spec fn recruit_actions_v(&self) -> Seq<RecruitActionRecord> {
        match self.current_recruit {
            Some(r) => r.actions@,
            None => Seq::empty(),
        }
    }

    /// The turn timer's timeout as last synchronized.
    pub closed spec fn timer_timeout_v(&self) -> Option<i32> {
        self.timer_timeout_seconds
    }

    /// Whether the turn timer has been started.
    pub closed spec fn timer_anchored_v(&self) -> bool {
        self.timer_anchor is Some
    }

    pub closed spec fn frozen_state_v(&self) -> Option<bool> {
        self.shop_frozen_state
    }

    pub closed spec fn recoveries_v(&self) -> u32 {
        self.stale_block_stack_recoveries
    }

    /// The current recruit phase's shop revisions, when a recruit phase is open.
    pub closed spec fn recruit_revisions_v(&self) -> Option<Seq<ShopRevision>> {
        match self.current_recruit {
            Some(r) => Some(r.shop_revisions@),
            None => None,
        }
    }

    pub closed spec fn recruit_round_v(&self) -> Option<u32> {
        match self.current_recruit {
            Some(r) => Some(r.round_number),
            None => None,
        }
    }

    /// The running combat phase's round, when a combat phase is open.
    pub closed spec fn combat_round_v(&self) -> Option<u32> {
        match self.current_combat {
            Some(c) => Some(c.round_number),
            None => None,
        }
    }

    /// The finished recruit phase waiting for its combat, when there is one.
    pub closed spec fn pending_recruit_v(&self) -> Option<RecruitArchive> {
        self.pending_recruit_archive
    }

    /// The shop the open recruit phase last settled on (empty otherwise).
    pub closed spec fn stable_shop_cards_v(&self) -> Seq<crate::harness::state::snapshot::CardSnapshotV> {
        match self.current_recruit {
            Some(r) => cards_view(r.last_stable_shop@),
            None => Seq::empty(),
        }
    }

    /// The signature of the shop the open recruit phase published last.
    pub closed spec fn published_signature_v(&self) -> Option<Seq<(u32, i32, Seq<char>)>> {
        match self.current_recruit {
            Some(r) => match r.last_emitted_shop_signature {
                Some(l) => Some(rules::sig_view(l@)),
                None => None,
            },
            None => None,
        }
    }

    /// `self` with its log router replaced by `router`.
    pub closed spec fn with_router(self, router: LogRouter) -> HarnessRuntime {
        HarnessRuntime { router, ..self }
    }

    /// `self` and `other` differ at most in their archives.
    pub closed spec fn same_but_archive(&self, other: HarnessRuntime) -> bool {
        *self == (HarnessRuntime { archive: self.archive, ..other })
    }

    pub closed spec fn shop_dirty_v(&self) -> bool {
        match self.current_recruit {
            Some(r) => r.shop_dirty,
            None => false,
        }
    }

    /// Ids of the choices opened and not yet resolved.
    pub closed spec fn open_choice_ids(&self) -> Set<i64> {
        self.open_choices@.dom()
    }

    /// The open choices by id.
    pub closed spec fn open_choices_v(&self) -> Map<i64, PendingChoiceV> {
        self.open_choices@
    }

    /// What is known of the open choice `k`.
    pub closed spec fn open_choice_v(&self, k: i64) -> PendingChoiceV {
        self.open_choices@[k]
    }

    pub closed spec fn router_v(&self) -> LogRouter {
        self.router
    }

    pub open spec fn proj_v(&self) -> StateProjector<'_> {
        StateProjector::spec_of(&self.store_v(), Some(&self.catalog_v()))
    }

    pub fn with_catalog(source_log: Option<String>, catalog: CardCatalog) -> (r: HarnessRuntime)
        ensures
            r.wf(),
            !r.active_v(),
            !r.complete_v(),
            r.raw_turn_v() is None,
            r.archive_v().rounds@.len() == 0,
            opt_view(r.archive_v().source_log) == opt_view(source_log),
            opt_view(r.archive_v().card_catalog_source) == catalog.source_view(),
            r.catalog_v() == catalog,
            r.router_v().is_fresh(),
            r.store_v()@ == empty_store_v(),
            r.recruit_round_v() is None,
            r.combat_round_v() is None,
            r.pending_recruit_v() is None,
            r.open_choice_ids() == Set::<i64>::empty(),
            r.archive_v().ended_at is None,
            r.archive_v().pregame_choices@.len() == 0,
            r.recoveries_v() == 0,
            r.frozen_state_v() is None,
            !r.timer_anchored_v(),
    {
        let mut archive = GameArchive::default();
        archive.source_log = clone_opt_string(&source_log);
        archive.card_catalog_source = owned_str(catalog.source());
        HarnessRuntime {
            router: LogRouter::new(),
            store: EntityStore::new(),
            catalog,
            archive,
            source_log,
            active: false,
            complete_seen: false,
            current_raw_turn: None,
            current_recruit: None,
            current_combat: None,
            pending_recruit_archive: None,
            block_depth: 0,
            pending_user_input: None,
            pending_recruit_action: None,
            open_choices: IntMap::new(),
            timer_anchor: None,
            timer_timeout_seconds: None,
            shop_frozen_state: None,
            stale_block_stack_recoveries: 0,
        }
    }

    /// A runtime over the cached card catalog when one could be read (the
    /// caller reads it; no process is launched), else over no catalog: raw
    /// Power.log names and card ids then stand as they are.
    pub fn new(source_log: Option<String>, cached_catalog: Option<CardCatalog>) -> (r: HarnessRuntime)
        ensures
            r.wf(),
            !r.active_v(),
            !r.complete_v(),
            r.raw_turn_v() is None,
            r.archive_v().rounds@.len() == 0,
            opt_view(r.archive_v().source_log) == opt_view(source_log),
            r.store_v()@ == empty_store_v(),
            match cached_catalog {
                Some(c) => r.catalog_v() == c,
                None => r.catalog_v().cards_map() == Map::<Seq<char>, crate::harness::card_catalog::CardMetaV>::empty()
                    && r.catalog_v().source_view() is None,
            },
    {
        let catalog = match cached_catalog {
            Some(c) => c,
            None => CardCatalog::empty(),
        };
        HarnessRuntime::with_catalog(source_log, catalog)
    }

    fn projector(&self) -> (r: StateProjector<'_>)
        ensures
            r == self.proj_v(),
    {
        StateProjector::with_catalog(&self.store, &self.catalog)
    }

    pub fn entity_store(&self) -> (r: &EntityStore)
        ensures
            *r == self.store_v(),
    {
        &self.store
    }

    pub fn card_catalog(&self) -> (r: &CardCatalog)
        ensures
            *r == self.catalog_v(),
    {
        &self.catalog
    }

    /// Static metadata of one CardId. Premium Battlegrounds cards fall back
    /// to their normal card's metadata.
    pub fn card(&self, card_id: &str) -> (r: Option<ResolvedCardMeta<'_>>)
        ensures
            opt_res(r) == self.catalog_v().spec_resolve(card_id@),
    {
        self.catalog.resolve(card_id)
    }

    /// Exact CardId lookup without premium -> normal fallback.
    pub fn exact_card(&self, card_id: &str) -> (r: Option<&CardMeta>)
        ensures
            match r {
                Some(c) => self.catalog_v().lookup(card_id@) == Some(c@),
                None => self.catalog_v().lookup(card_id@) is None,
            },
    {
        self.catalog.get(card_id)
    }

    pub fn archive(&self) -> (r: &GameArchive)
        requires
            self.wf(),
        ensures
            *r == self.archive_v(),
            rounds_ordered(r.rounds@),
            archive_revisions_numbered(r.rounds@),
            rounds_matched(r.rounds@),
    {
        &self.archive
    }

    pub fn is_match_active(&self) -> (r: bool)
        ensures
            r == self.active_v(),
    {
        self.active
    }

    pub fn is_complete_seen(&self) -> (r: bool)
        ensures
            r == self.complete_v(),
    {
        self.complete_seen
    }

    pub fn current_raw_turn(&self) -> (r: Option<u32>)
        ensures
            r == self.raw_turn_v(),
    {
        self.current_raw_turn
    }

    pub fn current_round_number(&self) -> (r: Option<u32>)
        ensures
            r == (match self.raw_turn_v() {
                Some(t) => Some(round_of(t)),
                None => None,
            }),
    {
        match self.current_raw_turn {
            Some(t) => Some(round_number(t)),
            None => None,
        }
    }

    pub fn current_phase_kind(&self) -> (r: PhaseKind)
        ensures
            r == phase_v(self.complete_v(), self.raw_turn_v(), self.active_v()),
    {
        if self.complete_seen {
            return PhaseKind::Complete;
        }
        match self.current_raw_turn {
            None => if self.active {
                PhaseKind::Pregame
            } else {
                PhaseKind::Unknown
            },
            Some(turn) => if turn % 2 == 1 {
                PhaseKind::Recruit
            } else {
                PhaseKind::Combat
            },
        }
    }

    pub fn local_player_id(&self) -> (r: Option<i32>)
        ensures
            r == self.store_v().first_player_with(true),
    {
        self.store.local_player_id()
    }

    pub fn local_player_name(&self) -> (r: Option<&str>)
        ensures
            opt_str_view(r) == (match self.store_v().first_player_with(true) {
                Some(id) => if self.store_v()@.player_names.contains_key(id as i64) {
                    Some(self.store_v()@.player_names[id as i64])
                } else {
                    None
                },
                None => None,
            }),
    {
        self.store.local_player_name()
    }

    pub fn current_hero(&self) -> (r: Option<HeroSnapshot>)
        ensures
            crate::harness::state::snapshot::opt_hero_view(r) == self.proj_v().local_hero_v(),
    {
        self.projector().local_hero()
    }

    pub fn current_gold(&self) -> (r: Option<i32>)
        ensures
            r == self.proj_v().gold_v(),
    {
        self.projector().current_gold()
    }

    pub fn current_tavern_tier(&self) -> (r: Option<u8>)
        ensures
            r == self.proj_v().tavern_tier_v(),
    {
        self.projector().tavern_tier()
    }

    pub fn current_hero_power(&self) -> (r: Option<HeroPowerSnapshot>)
        ensures
            crate::harness::state::snapshot::opt_power_view(r) == self.proj_v().hero_power_v(),
    {
        self.projector().hero_power()
    }

    pub fn current_refresh_cost(&self) -> (r: Option<i32>)
        ensures
            r == crate::harness::state::projector::min_cost(
                self.proj_v().entities(),
                |e: crate::harness::state::entity_store::EntityV| crate::harness::state::projector::reroll_button(e),
            ),
    {
        self.projector().refresh_cost()
    }

    pub fn current_upgrade_cost(&self) -> (r: Option<i32>)
        ensures
            r == self.proj_v().upgrade_cost_v(),
    {
        self.projector().upgrade_cost()
    }

    /// The tracked freeze state, else what the shop's tags show.
    pub fn is_shop_frozen(&self) -> (r: Option<bool>)
        ensures
            r == crate::harness::state::snapshot::first_of(self.frozen_state_v(), self.proj_v().shop_frozen_v()),
    {
        match self.shop_frozen_state {
            Some(f) => Some(f),
            None => self.projector().shop_frozen(),
        }
    }

    /// Number of times a phase boundary repaired a stale/unbalanced block
    /// stack. This is diagnostic only; a non-zero value does not poison the
    /// remainder of the match.
    pub fn stale_block_stack_recoveries(&self) -> (r: u32)
        ensures
            r == self.recoveries_v(),
    {
        self.stale_block_stack_recoveries
    }

    pub fn round_archive(&self, round_number: u32) -> (r: Option<&RoundArchive>)
        ensures
            match r {
                Some(x) => self.archive_v().round_v(round_number) == Some(*x),
                None => self.archive_v().round_v(round_number) is None,
            },
    {
        self.archive.round(round_number)
    }

    pub fn available_tribes(&self) -> (r: Option<&[String]>)
        ensures
            match r {
                Some(t) => self.archive_v().available_tribes is Some && t@ == self.archive_v().available_tribes->0@,
                None => self.archive_v().available_tribes is None,
            },
    {
        match &self.archive.available_tribes {
            Some(t) => Some(t.as_slice()),
            None => None,
        }
    }

    pub fn available_tribes_source(&self) -> (r: Option<&str>)
        ensures
            opt_str_view(r) == opt_view(self.archive_v().available_tribes_source),
    {
        match &self.archive.available_tribes_source {
            Some(s) => Some(s.as_str()),
            None => None,
        }
    }

    pub fn current_shop(&self) -> (r: Vec<CardSnapshot>)
        ensures
            crate::harness::state::projector::list_ok(
                self.proj_v().dummy_v(),
                cards_view(r@),
                |o: i32| self.proj_v().shop_v(o),
            ),
    {
        self.projector().shop()
    }

    pub fn current_board(&self) -> (r: Vec<CardSnapshot>)
        ensures
            crate::harness::state::projector::list_ok(
                self.proj_v().local_v(),
                cards_view(r@),
                |o: i32| self.proj_v().board_v(o),
            ),
    {
        self.projector().board()
    }

    pub fn current_hand(&self) -> (r: Vec<CardSnapshot>)
        ensures
            crate::harness::state::projector::list_ok(
                self.proj_v().local_v(),
                cards_view(r@),
                |o: i32| self.proj_v().hand_v(o),
            ),
    {
        self.projector().hand()
    }

    pub fn current_trinkets(&self) -> (r: Vec<CardSnapshot>)
        ensures
            crate::harness::state::projector::list_ok(
                self.proj_v().local_v(),
                cards_view(r@),
                |o: i32| self.proj_v().trinkets_v(o),
            ),
    {
        self.projector().trinkets()
    }

    pub fn lobby_players(&self) -> (r: Vec<LobbyPlayerSnapshot>)
        ensures
            crate::harness::state::snapshot::lobby_view(r@) == self.proj_v().lobby_v(),
    {
        self.projector().lobby_players()
    }

    pub fn next_opponent_player_id(&self) -> (r: Option<i32>)
        ensures
            r == self.proj_v().next_opponent_v(),
    {
        self.projector().next_opponent_player_id()
    }

    /// Initial TIMEOUT supplied by the Hearthstone client for the current
    /// Recruit action window.
    pub fn current_timeout_seconds(&self) -> (r: Option<i32>)
        ensures
            r == self.proj_v().timeout_v(),
    {
        self.projector().timeout_seconds()
    }

    /// The current recruit phase's latest shop revision.
    pub fn current_shop_revision(&self) -> (r: Option<&ShopRevision>)
        ensures
            match r {
                Some(x) => self.recruit_revisions_v() is Some && self.recruit_revisions_v()->0.len() > 0 && *x
                    == self.recruit_revisions_v()->0.last(),
                None => self.recruit_revisions_v() is None || self.recruit_revisions_v()->0.len() == 0,
            },
    {
        match &self.current_recruit {
            Some(recruit) => if recruit.shop_revisions.len() > 0 {
                Some(&recruit.shop_revisions[recruit.shop_revisions.len() - 1])
            } else {
                None
            },
            None => None,
        }
    }

    /// The shop revisions of a round: the open recruit phase's when it is
    /// that round, else the archive's.
    pub fn shop_revisions(&self, round_number: u32) -> (r: &[ShopRevision])
        requires
            self.wf(),
        ensures
            r@ == (if self.recruit_round_v() == Some(round_number) {
                self.recruit_revisions_v()->0
            } else {
                self.archive_v().shop_revisions_v(round_number)
            }),
            revisions_numbered(r@),
    {
        proof {
            lemma_first_round_in_range(self.archive.rounds@, round_number);
        }
        if let Some(recruit) = &self.current_recruit {
            if recruit.round_number == round_number {
                return recruit.shop_revisions.as_slice();
            }
        }
        self.archive.shop_revisions(round_number)
    }

    /// Whether the open recruit phase has published a shop and nothing has
    /// changed since.
    pub fn shop_is_stable(&self) -> (r: bool)
        ensures
            r == (self.recruit_revisions_v() is Some && !self.shop_dirty_v() && self.recruit_revisions_v()->0.len()
                > 0),
    {
        match &self.current_recruit {
            Some(recruit) => !recruit.shop_dirty && recruit.shop_revisions.len() > 0,
            None => false,
        }
    }

    pub fn set_available_tribes(&mut self, tribes: Vec<String>)
        requires
            old(self).wf(),
        ensures
            final(self).wf(),
            final(self).store_v() == old(self).store_v(),
            final(self).catalog_v() == old(self).catalog_v(),
            final(self).archive_v().available_tribes is Some,
            strictly_sorted(strs_view(final(self).archive_v().available_tribes->0@)),
            strs_view(final(self).archive_v().available_tribes->0@).to_set() == strs_view(tribes@).to_set(),
            opt_view(final(self).archive_v().available_tribes_source) == Some("injected"@),
            final(self).archive_v().rounds == old(self).archive_v().rounds,
            final(self).same_but_archive(*old(self)),
            final(self).archive_v() == (GameArchive {
                available_tribes: final(self).archive_v().available_tribes,
                available_tribes_source: final(self).archive_v().available_tribes_source,
                ..old(self).archive_v()
            }),
    {
        self.set_available_tribes_with_source(tribes, string_of(&chars_of("injected")));
    }

    /// Records the tribe pool, sorted and without repeats, with its source.
    pub fn set_available_tribes_with_source(&mut self, tribes: Vec<String>, source: String)
        requires
            old(self).wf(),
        ensures
            final(self).wf(),
            final(self).store_v() == old(self).store_v(),
            final(self).catalog_v() == old(self).catalog_v(),
            final(self).archive_v().available_tribes is Some,
            strictly_sorted(strs_view(final(self).archive_v().available_tribes->0@)),
            strs_view(final(self).archive_v().available_tribes->0@).to_set() == strs_view(tribes@).to_set(),
            opt_view(final(self).archive_v().available_tribes_source) == Some(source@),
            final(self).archive_v().rounds == old(self).archive_v().rounds,
            final(self).same_but_archive(*old(self)),
            final(self).archive_v() == (GameArchive {
                available_tribes: final(self).archive_v().available_tribes,
                available_tribes_source: final(self).archive_v().available_tribes_source,
                ..old(self).archive_v()
            }),
    {
        let mut sorted: Vec<String> = Vec::new();
        assert(strs_view(sorted@).to_set() =~= strs_view(tribes@).take(0).to_set());
        let mut i: usize = 0;
        while i < tribes.len()
            invariant
                i <= tribes@.len(),
                strictly_sorted(strs_view(sorted@)),
                strs_view(sorted@).to_set() == strs_view(tribes@).take(i as int).to_set(),
            decreases tribes@.len() - i,
        {
            set_insert(&mut sorted, tribes[i].clone());
            proof {
                assert(strs_view(tribes@).take(i + 1) =~= strs_view(tribes@).take(i as int).push(tribes@[i as int]@));
                strs_view(tribes@).take(i as int).lemma_push_to_set_commute(tribes@[i as int]@);
            }
            i += 1;
        }
        assert(strs_view(tribes@).take(i as int) =~= strs_view(tribes@));
        self.archive.available_tribes = Some(sorted);
        self.archive.available_tribes_source = Some(source);
    }
}


impl HarnessRuntime {
    /// Feeds one physical log line and reports what it changed.
    pub fn feed_line(&mut self, line: &str) -> (r: Vec<HarnessEvent>)
        requires
            old(self).wf(),
        ensures
            final(self).wf(),
            ({
                let (parsed, pending, choice_id, chosen_id) = spec_route(
                    old(self).router_v().pending(),
                    old(self).router_v().choice_id(),
                    old(self).router_v().chosen_id(),
                    line@,
                );
                &&& parsed is None ==> r@.len() == 0 && final(self).archive_v() == old(self).archive_v()
                    && final(self).store_v() == old(self).store_v() && final(self).raw_turn_v()
                    == old(self).raw_turn_v()
                &&& parsed is Some ==> feed_outcome(*old(self), *final(self), parsed->0, events_view(r@))
            }),
    {
        let parsed = self.router.parse_line(line);
        match parsed {
            None => {
                let r: Vec<HarnessEvent> = Vec::new();
                assert(self.archive_v() == old(self).archive_v() && self.store_v() == old(self).store_v()
                    && self.raw_turn_v() == old(self).raw_turn_v());
                assert(opt_parsed(parsed) is None);
                r
            },
            Some(p) => self.feed_event(p),
        }
    }

    fn feed_event(&mut self, parsed: ParsedLogEvent) -> (r: Vec<HarnessEvent>)
        requires
            old(self).wf(),
        ensures
            final(self).wf(),
            feed_outcome(*old(self), *final(self), parsed@, events_view(r@)),
    {
        let timestamp = parsed.timestamp;
        let mut events: Vec<HarnessEvent> = Vec::new();
        assert(events_view(events@) =~= Seq::<HarnessEventV>::empty());
        match parsed.event {
            LogEvent::Power(event) => {
                let ghost e = event@;
                self.handle_power_event(event, timestamp, &mut events);
                assert(e is CreateGame ==> events_view(events@) =~= seq![HarnessEventV::MatchStarted]);
                proof {
                    if !(e is CreateGame) && rules::game_turn_v(e) is Some {
                        assert(events_view(events@) =~= turn_events_v(*old(self), rules::game_turn_v(e)->0));
                        assert(old(self).with_router(self.router_v()) == *old(self));
                        if old(self).active_v() && old(self).raw_turn_v() is Some && old(self).raw_turn_v()->0 % 2 == 1
                            && old(self).recruit_round_v() is Some {
                            lemma_turn_change_records_action(*old(self), *self, e, opt_view(timestamp));
                        }
                    }
                }
            },
            LogEvent::Choice(event) => {
                let ghost active = self.active;
                let ghost open0 = self.open_choices@;
                let ghost ev = event@;
                self.handle_choice_event(event, timestamp, &mut events);
                assert(events_view(events@) =~= if active {
                    choice_events_v(open0, ev)
                } else {
                    Seq::<HarnessEventV>::empty()
                });
            },
        }
        events
    }

    fn turn_is_recruit(&self) -> (r: bool)
        ensures
            r == (self.current_raw_turn is Some && self.current_raw_turn->0 % 2 == 1),
    {
        match self.current_raw_turn {
            Some(t) => t % 2 == 1,
            None => false,
        }
    }

    fn turn_is_combat(&self) -> (r: bool)
        ensures
            r == (self.current_raw_turn is Some && self.current_raw_turn->0 % 2 == 0),
    {
        match self.current_raw_turn {
            Some(t) => t % 2 == 0,
            None => false,
        }
    }

    /// A change of raw turn (see `turn_changed`).
    #[verifier::rlimit(40)]
    fn handle_turn_change(&mut self, event: &PowerEvent, new_turn: u32, timestamp: Option<String>, events: &mut Vec<HarnessEvent>)
        requires
            old(self).wf(),
            rules::game_turn_v(event@) == Some(new_turn),
            !(event@ is CreateGame),
        ensures
            final(self).wf(),
            events_view(final(events)@) == events_view(old(events)@) + turn_events_v(*old(self), new_turn),
            turn_changed(*old(self), *final(self), event@, opt_view(timestamp)),
            final(self).router == old(self).router,
            final(self).store_v()@ == spec_apply(old(self).store_v()@, event@),
            final(self).catalog_v() == old(self).catalog_v(),
            final(self).active_v() == old(self).active_v(),
            final(self).complete_v() == old(self).complete_v(),
            final(self).raw_turn_v() == Some(new_turn),
    {
            let ghost before = *self;
            let ghost eb = events@;
            let tsx = clone_opt_string(&timestamp);
            let ghost tsx_g = tsx;
            let ghost mut m1 = *self;
            if self.active {
                self.finalize_pending_recruit_action(clone_opt_string(&timestamp));
                proof {
                    m1 = *self;
                    lemma_pending_action_keeps_phase(before, m1, opt_view(timestamp));
                }
                self.pending_user_input = None;
                // Do not publish raw shop state here: Bob may already be
                // removing cards one-by-one for combat cleanup. The last
                // stable revision is preserved by finalize_recruit().
                let ghost mid = *self;
                self.finalize_current_phase(tsx, events);
                proof {
                    lemma_phase_events(mid, *self, tsx_g, eb, events@);
                }
            }
            let ghost m2 = *self;
            let ghost ea = events@;
            self.store.apply(event);
            self.current_raw_turn = Some(new_turn);
            let ghost m3 = *self;
            let ghost tsy = timestamp;
            self.start_turn(new_turn, timestamp, events);
            let ghost m4 = *self;
            self.refresh_metadata();
            proof {
                assert(turn_chain(before, *self, event@, opt_view(tsy), tsx_g, tsy, m1, m2, m3, m4, eb, ea, events@));
                let ps = HarnessEvent::PhaseStarted {
                    round_number: round_of(new_turn),
                    phase: if new_turn % 2 == 1 {
                        PhaseKind::Recruit
                    } else {
                        PhaseKind::Combat
                    },
                };
                assert(events@ == ea.push(ps));
                assert(events_view(events@) =~= events_view(ea).push(ps@));
                let pre = if before.active && before.current_raw_turn is Some && before.current_raw_turn->0 % 2 == 0
                    && before.current_combat is Some {
                    seq![HarnessEventV::RoundArchived { round_number: before.current_combat->0.round_number }]
                } else {
                    Seq::<HarnessEventV>::empty()
                };
                if !before.active {
                    assert(events_view(ea) =~= events_view(eb) + pre);
                }
                assert(events_view(ea) == events_view(eb) + pre);
                assert(turn_events_v(before, new_turn) =~= pre.push(ps@));
                assert(events_view(events@) =~= events_view(eb) + turn_events_v(before, new_turn));
            }
    }

    #[verifier::rlimit(60)]
    fn handle_power_event(&mut self, event: PowerEvent, timestamp: Option<String>, events: &mut Vec<HarnessEvent>)
        requires
            old(self).wf(),
        ensures
            final(self).wf(),
            event@ is CreateGame ==> final(self).active_v() && !final(self).complete_v() && final(self).raw_turn_v()
                is None && final(self).archive_v().rounds@.len() == 0 && events_view(final(events)@)
                == events_view(old(events)@).push(HarnessEventV::MatchStarted),
            !(event@ is CreateGame) ==> final(self).active_v() == old(self).active_v() && (old(self).complete_v()
                ==> final(self).complete_v()),
            !(event@ is CreateGame) && rules::game_turn_v(event@) is Some ==> final(self).raw_turn_v()
                == rules::game_turn_v(event@) && final(self).complete_v() == old(self).complete_v(),
            final(self).store_v()@ == spec_apply(old(self).store_v()@, event@),
            final(self).catalog_v() == old(self).catalog_v(),
            !(event@ is CreateGame) ==> final(self).complete_v() == (old(self).complete_v() || (is_match_complete_v(
                event@,
            ) && old(self).active_v())),
            !(event@ is CreateGame) && is_match_complete_v(event@) && old(self).active_v() && !old(self).complete_v()
                ==> opt_view(final(self).archive_v().ended_at) == opt_view(timestamp) && events_view(final(events)@).len()
                > 0 && events_view(final(events)@).last() == HarnessEventV::MatchCompleted,
            !(event@ is CreateGame) && rules::game_turn_v(event@) is Some ==> events_view(final(events)@)
                == events_view(old(events)@) + turn_events_v(*old(self), rules::game_turn_v(event@)->0) && turn_changed(
                *old(self),
                *final(self),
                event@,
                opt_view(timestamp),
            ) && final(self).router == old(self).router,
            old(self).detected_action_v(event@) matches Some(k) ==> final(self).open_action_v() == Some(
                (k, crate::harness::state::snapshot::first_of(old(self).input_time_v(), opt_view(timestamp))),
            ) && (old(self).recruit_round_v() matches Some(n) ==> events_view(final(events)@).len() > 0
                && events_view(final(events)@).last() == HarnessEventV::RecruitAction { round_number: n, kind: k }),
    {
        if let PowerEvent::CreateGame = &event {
            self.reset_match(clone_opt_string(&timestamp));
            self.store.apply(&event);
            events.push(HarnessEvent::MatchStarted);
            return;
        }

        // SendOption is the client-side proof that the player initiated a new
        // interaction. Finalize the previous action *before* opening the next
        // one so state_after includes all asynchronous consequences of the
        // prior operation, regardless of Power block nesting.
        if let PowerEvent::UserOptionSent { selected_option: _, selected_target, selected_position: _ } = &event {
            self.handle_user_option_sent(*selected_target, clone_opt_string(&timestamp), events);
            self.store.apply(&event);
            self.refresh_metadata();
            return;
        }

        // TURN transitions close the previous logical phase before the new
        // TURN tag is applied. A phase boundary is also the final state_after
        // boundary for the last user action of the Recruit phase.
        if let Some(new_turn) = game_turn_from_event(&event) {
            self.handle_turn_change(&event, new_turn, timestamp, events);
            return;
        }

        let is_block = match &event {
            PowerEvent::BlockStarted { .. } => true,
            _ => false,
        };

        // Combat snapshot must happen before the first real combat ATTACK
        // mutates either board. Recruit-phase ATTACK is a user action and is
        // classified below only when a SendOption is pending.
        if let PowerEvent::BlockStarted { block_type, .. } = &event {
            if chars_eq(&chars_of(block_type.as_str()), &chars_of("ATTACK")) && self.turn_is_combat() {
                self.ensure_combat_started(clone_opt_string(&timestamp));
            }
        }

        self.observe_combat_tag(&event);

        if is_block {
            if self.block_depth < usize::MAX {
                self.block_depth = self.block_depth + 1;
            }
            // Never infer a player action from block depth alone. Only consume
            // a block as a user action when a SendOption is waiting for its
            // semantic realization.
            let ghost mid = *self;
            assert(mid.detected_action_v(event@) == old(self).detected_action_v(event@)
                && mid.input_time_v() == old(self).input_time_v()
                && (old(self).detected_action_v(event@) is Some ==> mid.recruit_round_v() == old(self).recruit_round_v()));
            self.record_detected_action(&event, clone_opt_string(&timestamp), events);
        }

        self.store.apply(&event);
        self.sync_timer_from_state(&event);

        if self.turn_is_recruit() {
            self.bootstrap_shop_frozen_state();
            self.observe_shop_change(clone_opt_string(&timestamp));
            self.try_start_recruit(clone_opt_string(&timestamp), false);
        }

        if let PowerEvent::TagChanged { target: TagTarget::GameEntity, tag, value } = &event {
            let is_step = chars_eq(&chars_of(tag.as_str()), &chars_of("STEP"));
            let step: Option<&str> = value.as_str();
            let main_action = is_step && match step {
                Some(v) => chars_eq(&chars_of(v), &chars_of("MAIN_ACTION")),
                None => false,
            };
            let main_end = is_step && match step {
                Some(v) => chars_eq(&chars_of(v), &chars_of("MAIN_END")),
                None => false,
            };
            if main_action {
                // MAIN_ACTION is a RecruitReady boundary, not a block-stack
                // reset: legitimate parent blocks can span this point.
                self.bootstrap_shop_frozen_state();
                self.try_start_recruit(clone_opt_string(&timestamp), false);
                self.mark_shop_dirty(clone_opt_string(&timestamp), ShopRevisionCause::PhaseStart);
            }
            if main_end {
                self.finalize_pending_recruit_action(clone_opt_string(&timestamp));
            }
        }

        self.refresh_combat_health_tracking();

        if let PowerEvent::BlockEnded = &event {
            if self.block_depth > 0 {
                self.block_depth = self.block_depth - 1;
            }
        }

        let complete = match &event {
            PowerEvent::TagChanged { target: TagTarget::GameEntity, tag, value: TagValue::Symbol(v) } => chars_eq(
                &chars_of(tag.as_str()),
                &chars_of("STATE"),
            ) && chars_eq(&chars_of(v.as_str()), &chars_of("COMPLETE")),
            _ => false,
        };
        assert(complete == is_match_complete_v(event@));

        self.refresh_metadata();

        if complete && self.active && !self.complete_seen {
            self.finalize_pending_recruit_action(clone_opt_string(&timestamp));
            self.pending_user_input = None;
            self.flush_shop_revision(clone_opt_string(&timestamp), events);
            self.finalize_current_phase(clone_opt_string(&timestamp), events);
            self.push_pending_recruit_as_partial_round(events);
            self.complete_seen = true;
            self.archive.ended_at = timestamp;
            events.push(HarnessEvent::MatchCompleted);
        }
    }

    /// Opens the recruit action that a block stands for (see
    /// `detected_action_v`) and reports it.
    fn record_detected_action(&mut self, event: &PowerEvent, timestamp: Option<String>, events: &mut Vec<HarnessEvent>)
        requires
            old(self).wf(),
        ensures
            final(self).wf(),
            final(self).router == old(self).router,
            final(self).store_v() == old(self).store_v(),
            final(self).catalog_v() == old(self).catalog_v(),
            final(self).active_v() == old(self).active_v(),
            final(self).complete_v() == old(self).complete_v(),
            final(self).raw_turn_v() == old(self).raw_turn_v(),
            match old(self).detected_action_v(event@) {
                Some(k) => final(self).open_action_v() == Some(
                    (k, crate::harness::state::snapshot::first_of(old(self).input_time_v(), opt_view(timestamp))),
                ) && (old(self).recruit_round_v() matches Some(n) ==> events_view(final(events)@).len() > 0
                    && events_view(final(events)@).last() == HarnessEventV::RecruitAction { round_number: n, kind: k }),
                None => *final(self) == *old(self) && final(events)@ == old(events)@,
            },
    {
        if !self.turn_is_recruit() {
            return;
        }
        let (input_time, selected_target) = match &self.pending_user_input {
            Some(i) => (clone_opt_string(&i.timestamp), i.selected_target),
            None => {
                return;
            },
        };
        let action_time = match input_time {
            Some(t) => Some(t),
            None => clone_opt_string(&timestamp),
        };
        let action = match self.detect_recruit_action(event, action_time, selected_target) {
            Some(a) => a,
            None => {
                return;
            },
        };
        let ghost round0 = self.recruit_round_v();
        // Defensive only: a new recognized action should always have been
        // preceded by SendOption, which finalized the prior one. If not,
        // keep the archive lossless.
        self.finalize_pending_recruit_action(clone_opt_string(&timestamp));
        self.flush_shop_revision(clone_opt_string(&timestamp), events);
        self.try_start_recruit(clone_opt_string(&timestamp), true);
        let kind = action.kind;
        if let Some(cause) = shop_cause_for_action(&kind) {
            self.mark_shop_dirty(clone_opt_string(&timestamp), cause);
        }
        self.apply_recruit_action_state(Some(kind));
        self.pending_user_input = None;
        self.pending_recruit_action = Some(action);
        assert(self.recruit_round_v() == round0);
        if let Some(recruit) = &self.current_recruit {
            let ghost e0 = events@;
            events.push(HarnessEvent::RecruitAction { round_number: recruit.round_number, kind });
            assert(events_view(events@) =~= events_view(e0).push(
                HarnessEventV::RecruitAction { round_number: recruit.round_number, kind },
            ));
        }
    }

    fn handle_choice_event(&mut self, event: ChoiceEvent, timestamp: Option<String>, events: &mut Vec<HarnessEvent>)
        requires
            old(self).wf(),
        ensures
            final(self).wf(),
            final(self).open_choices@ == if old(self).active {
                choice_step(old(self).open_choices@, old(self).current_raw_turn, event@, opt_view(timestamp))
            } else {
                old(self).open_choices@
            },
            events_view(final(events)@) == events_view(old(events)@) + if old(self).active {
                choice_events_v(old(self).open_choices@, event@)
            } else {
                Seq::<HarnessEventV>::empty()
            },
            final(self).store_v() == old(self).store_v(),
            final(self).catalog_v() == old(self).catalog_v(),
            final(self).active_v() == old(self).active_v(),
            final(self).complete_v() == old(self).complete_v(),
            final(self).raw_turn_v() == old(self).raw_turn_v(),
    {
        if !self.active {
            return;
        }
        let ghost open0 = self.open_choices@;
        let ghost ev = event@;
        let ghost ts = opt_view(timestamp);
        let ghost turn0 = self.current_raw_turn;
        match event {
            ChoiceEvent::Opened { id, player_name: _, choice_type, count_min, count_max: _ } => {
                let opened_turn = match self.current_raw_turn {
                    Some(t) => t,
                    None => 0,
                };
                let fresh = PendingChoice {
                    id,
                    choice_type,
                    count_min,
                    expected_selected: None,
                    started_at: timestamp,
                    opened_turn,
                    source: None,
                    raw_source: None,
                    options: Vec::new(),
                    selected: Vec::new(),
                };
                assert(descriptors_view(fresh.options@) =~= Seq::<crate::harness::power::event::DescriptorV>::empty());
                assert(descriptors_view(fresh.selected@) =~= Seq::<crate::harness::power::event::DescriptorV>::empty());
                self.put_choice(fresh);
                assert(self.open_choices@ =~= choice_step(open0, turn0, ev, ts));
                events.push(HarnessEvent::ChoiceOpened { id });
            },
            ChoiceEvent::Source { id, source, raw_source } => {
                if let Some(mut choice) = self.take_choice(id) {
                    choice.source = source;
                    choice.raw_source = Some(raw_source);
                    self.put_choice(choice);
                    assert(self.open_choices@ =~= choice_step(open0, turn0, ev, ts));
                    events.push(HarnessEvent::ChoiceUpdated { id });
                } else {
                    assert(self.open_choices@ =~= choice_step(open0, turn0, ev, ts));
                }
            },
            ChoiceEvent::Option { id, index: _, entity } => {
                if let Some(mut choice) = self.take_choice(id) {
                    let ghost before = descriptors_view(choice.options@);
                    let ghost ent = entity@;
                    choice.options.push(entity);
                    assert(descriptors_view(choice.options@) =~= before.push(ent));
                    self.put_choice(choice);
                    assert(self.open_choices@ =~= choice_step(open0, turn0, ev, ts));
                    events.push(HarnessEvent::ChoiceUpdated { id });
                } else {
                    assert(self.open_choices@ =~= choice_step(open0, turn0, ev, ts));
                }
            },
            ChoiceEvent::SelectionStarted { id, entities_count } => {
                if let Some(mut choice) = self.take_choice(id) {
                    choice.expected_selected = Some(entities_count);
                    self.put_choice(choice);
                }
                if entities_count == 0 {
                    self.resolve_choice(id, timestamp, events);
                }
                assert(self.open_choices@ =~= choice_step(open0, turn0, ev, ts));
            },
            ChoiceEvent::Selected { id, index: _, entity } => {
                let should_resolve = match self.take_choice(id) {
                    Some(mut choice) => {
                        let ghost before = descriptors_view(choice.selected@);
                        let ghost ent = entity@;
                        choice.selected.push(entity);
                        assert(descriptors_view(choice.selected@) =~= before.push(ent));
                        let expected = match choice.expected_selected {
                            Some(e) => e,
                            None => if choice.count_min > 1 {
                                choice.count_min
                            } else {
                                1
                            },
                        };
                        let done = choice.selected.len() >= expected;
                        self.put_choice(choice);
                        done
                    },
                    None => false,
                };
                if should_resolve {
                    self.resolve_choice(id, timestamp, events);
                }
                assert(self.open_choices@ =~= choice_step(open0, turn0, ev, ts));
            },
        }
    }

    fn take_choice(&mut self, id: u32) -> (r: Option<PendingChoice>)
        requires
            old(self).wf(),
        ensures
            final(self).wf(),
            final(self).router == old(self).router,
            final(self).open_choices@ == old(self).open_choices@.remove(id as i64),
            *final(self) == (HarnessRuntime { open_choices: final(self).open_choices, ..*old(self) }),
            match r {
                Some(c) => old(self).open_choices@.contains_key(id as i64) && c@ == old(self).open_choices@[id as i64],
                None => !old(self).open_choices@.contains_key(id as i64),
            },
            final(self).store_v() == old(self).store_v(),
            final(self).catalog_v() == old(self).catalog_v(),
            final(self).archive_v() == old(self).archive_v(),
            final(self).active_v() == old(self).active_v(),
            final(self).complete_v() == old(self).complete_v(),
            final(self).raw_turn_v() == old(self).raw_turn_v(),
    {
        let r = self.open_choices.remove(id as i64);
        proof {
            assert forall|k: i64| #[trigger] self.open_choices@.contains_key(k) implies self.open_choices@[k].id == k by {
                assert(old(self).open_choices@.contains_key(k));
            }
        }
        r
    }

    fn put_choice(&mut self, choice: PendingChoice)
        requires
            old(self).wf(),
        ensures
            final(self).wf(),
            final(self).open_choices@ == old(self).open_choices@.insert(choice@.id as i64, choice@),
            final(self).store_v() == old(self).store_v(),
            final(self).catalog_v() == old(self).catalog_v(),
            final(self).active_v() == old(self).active_v(),
            final(self).complete_v() == old(self).complete_v(),
            final(self).raw_turn_v() == old(self).raw_turn_v(),
    {
        let id = choice.id;
        self.open_choices.insert(id as i64, choice);
        proof {
            assert forall|k: i64| #[trigger] self.open_choices@.contains_key(k) implies self.open_choices@[k].id == k by {
                if k != id as i64 {
                    assert(old(self).open_choices@.contains_key(k));
                }
            }
        }
    }

    fn resolve_choice(&mut self, id: u32, timestamp: Option<String>, events: &mut Vec<HarnessEvent>)
        requires
            old(self).wf(),
        ensures
            final(self).wf(),
            events_view(final(events)@) == events_view(old(events)@) + if old(self).open_choices@.contains_key(
                id as i64,
            ) {
                seq![HarnessEventV::ChoiceResolved { id }]
            } else {
                Seq::<HarnessEventV>::empty()
            },
            final(self).open_choices@ == old(self).open_choices@.remove(id as i64),
            final(self).store_v() == old(self).store_v(),
            final(self).catalog_v() == old(self).catalog_v(),
            final(self).active_v() == old(self).active_v(),
            final(self).complete_v() == old(self).complete_v(),
            final(self).raw_turn_v() == old(self).raw_turn_v(),
    {
        let ghost e0 = events_view(events@);
        let choice = match self.take_choice(id) {
            Some(c) => c,
            None => {
                assert(e0 =~= e0 + Seq::<HarnessEventV>::empty());
                return;
            },
        };
        let opened_turn = choice.opened_turn;
        let archive = self.materialize_choice(&choice, timestamp);
        self.attach_choice(opened_turn, archive);
        events.push(HarnessEvent::ChoiceResolved { id });
        assert(events_view(events@) =~= e0 + seq![HarnessEventV::ChoiceResolved { id }]);
    }

    fn descriptor_cards(&self, ds: &Vec<EntityDescriptor>) -> (r: Vec<CardSnapshot>)
        ensures
            cards_view(r@) == descriptor_cards_v(self.store@, self.catalog, descriptors_view(ds@)),
    {
        let ghost dv = descriptors_view(ds@);
        let mut out: Vec<CardSnapshot> = Vec::new();
        let mut i: usize = 0;
        assert(dv.take(0) =~= Seq::<crate::harness::power::event::DescriptorV>::empty());
        assert(cards_view(out@) =~= Seq::<crate::harness::state::snapshot::CardSnapshotV>::empty());
        while i < ds.len()
            invariant
                i <= ds@.len(),
                dv == descriptors_view(ds@),
                cards_view(out@) == descriptor_cards_v(self.store@, self.catalog, dv.take(i as int)),
            decreases ds@.len() - i,
        {
            let ghost before = cards_view(out@);
            let card = self.snapshot_from_descriptor(&ds[i]);
            out.push(card);
            proof {
                assert(dv.take(i + 1).drop_last() =~= dv.take(i as int));
                assert(dv[i as int] == ds@[i as int]@);
                assert(cards_view(out@) =~= before.push(card@));
            }
            i += 1;
        }
        assert(dv.take(i as int) =~= dv);
        out
    }

    fn materialize_choice(&self, choice: &PendingChoice, resolved_at: Option<String>) -> (r: ChoiceArchive)
        ensures
            materialized_v(r, self.store@, self.catalog, choice@, opt_view(resolved_at)),
    {
        let options = self.descriptor_cards(&choice.options);
        let selected = self.descriptor_cards(&choice.selected);
        let source_card_id: Option<String> = match &choice.source {
            Some(d) => match self.store.entity(d.identity.id) {
                Some(e) if e.card_id.is_some() => clone_opt_string(&e.card_id),
                _ => clone_opt_string(&d.identity.card_id),
            },
            None => None,
        };
        let static_name: Option<String> = match &source_card_id {
            Some(id) => match self.catalog.resolve(id.as_str()) {
                Some(card) => owned_str(card.preferred_name()),
                None => None,
            },
            None => None,
        };
        let source_name: Option<String> = match static_name {
            Some(n) => Some(n),
            None => {
                let trusted = match &choice.source {
                    Some(d) => trustworthy_entity_name(&d.identity.name),
                    None => None,
                };
                match trusted {
                    Some(t) => Some(t),
                    None => match &choice.raw_source {
                        Some(raw) => if chars_eq(&chars_of(raw.as_str()), &chars_of("GameEntity")) {
                            None
                        } else {
                            Some(raw.clone())
                        },
                        None => None,
                    },
                }
            },
        };
        let kind = classify_choice(
            choice.choice_type.as_str(),
            match &source_card_id {
                Some(s) => Some(s.as_str()),
                None => None,
            },
            match &source_name {
                Some(s) => Some(s.as_str()),
                None => None,
            },
            &options,
        );
        ChoiceArchive {
            id: choice.id,
            choice_type: choice.choice_type.clone(),
            kind,
            started_at: clone_opt_string(&choice.started_at),
            resolved_at,
            source_name,
            source_card_id,
            options,
            selected,
        }
    }

    fn snapshot_from_descriptor(&self, descriptor: &EntityDescriptor) -> (r: CardSnapshot)
        ensures
            r@ == descriptor_card_v(self.store@, self.catalog, descriptor@),
    {
        if let Some(entity) = self.store.entity(descriptor.identity.id) {
            return CardSnapshot::from_entity_with_catalog(entity, Some(&self.catalog));
        }
        CardSnapshot::from_identity(
            descriptor.identity.id,
            clone_opt_string(&descriptor.identity.card_id),
            clone_opt_string(&descriptor.identity.name),
            descriptor.controller,
            clone_opt_string(&descriptor.zone),
            descriptor.zone_position,
            Some(&self.catalog),
        )
    }

    fn snapshot_from_identity(&self, identity: &EntityIdentity) -> (r: CardSnapshot)
        ensures
            r@ == identity_snapshot_v(self.store@, self.catalog, identity@),
    {
        if let Some(entity) = self.store.entity(identity.id) {
            return CardSnapshot::from_entity_with_catalog(entity, Some(&self.catalog));
        }
        CardSnapshot::from_identity(
            identity.id,
            clone_opt_string(&identity.card_id),
            clone_opt_string(&identity.name),
            None,
            None,
            None,
            Some(&self.catalog),
        )
    }

    /// Files a resolved choice with the phase it was opened in.
    fn attach_choice(&mut self, opened_turn: u32, choice: ChoiceArchive)
        requires
            old(self).wf(),
        ensures
            final(self).wf(),
            choice_filed(*old(self), *final(self), opened_turn, choice),
            final(self).open_choices@ == old(self).open_choices@,
            final(self).store_v() == old(self).store_v(),
            final(self).catalog_v() == old(self).catalog_v(),
            final(self).active_v() == old(self).active_v(),
            final(self).complete_v() == old(self).complete_v(),
            final(self).raw_turn_v() == old(self).raw_turn_v(),
    {
        if opened_turn == 0 {
            self.archive.pregame_choices.push(choice);
        } else if opened_turn % 2 == 1 {
            let in_recruit = match &self.current_recruit {
                Some(r) => r.raw_game_turn == opened_turn,
                None => false,
            };
            if in_recruit {
                if let Some(recruit) = &mut self.current_recruit {
                    recruit.choices.push(choice);
                }
                return;
            }
            if let Some(recruit) = &mut self.pending_recruit_archive {
                if recruit.raw_game_turn == opened_turn {
                    recruit.choices.push(choice);
                }
            }
        } else if let Some(combat) = &mut self.current_combat {
            if combat.raw_game_turn == opened_turn {
                combat.choices.push(choice);
            }
        }
    }

    /// Closes the choices still open from `turn`, unresolved.
    #[verifier::spinoff_prover]
    #[verifier::rlimit(40)]
    fn drain_choices_for_turn(&mut self, turn: u32, resolved_at: Option<String>) -> (r: Vec<ChoiceArchive>)
        requires
            old(self).wf(),
        ensures
            final(self).wf(),
            final(self).router == old(self).router,
            choices_drained(*old(self), *final(self), turn, opt_view(resolved_at), r@),
            final(self).store_v() == old(self).store_v(),
            final(self).catalog_v() == old(self).catalog_v(),
            final(self).active_v() == old(self).active_v(),
            final(self).complete_v() == old(self).complete_v(),
            final(self).raw_turn_v() == old(self).raw_turn_v(),
    {
        let ghost m = self.open_choices@;
        let ghost d = choices_of_turn(m, turn);
        let ghost start = *self;
        self.open_choices.lemma_entries();
        let mut ids: Vec<u32> = Vec::new();
        let mut i: usize = 0;
        while i < self.open_choices.len()
            invariant
                *self == start,
                m == self.open_choices@,
                d == choices_of_turn(m, turn),
                i <= self.open_choices.entries().len(),
                forall|k: i64| #[trigger] self.open_choices@.contains_key(k) ==> self.open_choices@[k].id == k,
                forall|j: int|
                    0 <= j < self.open_choices.entries().len() ==> #[trigger] self.open_choices@[self.open_choices.entries()[j].0]
                        == self.open_choices.entries()[j].1,
                forall|j: int| 0 <= j < ids@.len() ==> d.contains(#[trigger] ids@[j] as i64),
                forall|j: int|
                    0 <= j < i && (#[trigger] self.open_choices.entries()[j]).1.opened_turn == turn ==> ids@.contains(
                        self.open_choices.entries()[j].0 as u32,
                    ) && self.open_choices.entries()[j].0 == self.open_choices.entries()[j].0 as u32,
            decreases self.open_choices.entries().len() - i,
        {
            self.open_choices.lemma_entries();
            let c = self.open_choices.value_at(i);
            proof {
                let key = self.open_choices.entries()[i as int].0;
                assert(self.open_choices@.contains_key(key));
                assert(self.open_choices@[key] == c@);
            }
            let ghost ids0 = ids@;
            if c.opened_turn == turn {
                ids.push(c.id);
                proof {
                    let key = self.open_choices.entries()[i as int].0;
                    assert(key == c.id);
                    assert(d.contains(c.id as i64));
                    assert(ids@[ids@.len() - 1] == c.id);
                    assert forall|j: int| 0 <= j < ids@.len() implies d.contains(#[trigger] ids@[j] as i64) by {
                        if j < ids0.len() {
                            assert(ids@[j] == ids0[j]);
                        }
                    }
                }
            }
            proof {
                let key = self.open_choices.entries()[i as int].0;
                assert(key == c.id);
                assert forall|j: int|
                    0 <= j < i + 1 && (#[trigger] self.open_choices.entries()[j]).1.opened_turn == turn implies ids@.contains(
                        self.open_choices.entries()[j].0 as u32,
                    ) && self.open_choices.entries()[j].0 == self.open_choices.entries()[j].0 as u32 by {
                    if j < i {
                        let w = choose|w: int| 0 <= w < ids0.len() && ids0[w] == self.open_choices.entries()[j].0 as u32;
                        assert(ids@[w] == ids0[w]);
                    } else {
                        assert(ids@[ids@.len() - 1] == c.id);
                    }
                }
            }
            i += 1;
        }
        proof {
            assert forall|k: i64| d.contains(k) implies ids@.contains(k as u32) && k == k as u32 by {
                let j = choose|j: int| 0 <= j < self.open_choices.entries().len() && self.open_choices.entries()[j].0 == k;
                assert(self.open_choices.entries()[j].1.opened_turn == turn);
            }
        }
        let mut out: Vec<ChoiceArchive> = Vec::new();
        let mut k: usize = 0;
        let ghost mut removed: Set<i64> = Set::empty();
        let ghost mut wit: Seq<i64> = Seq::empty();
        proof {
            assert forall|x: i64| #![trigger d.contains(x)] d.contains(x) implies removed.contains(x) || exists|j: int|
                0 <= j < ids@.len() && ids@[j] as i64 == x by {
                let j = choose|j: int| 0 <= j < ids@.len() && ids@[j] == x as u32;
                assert(ids@[j] as i64 == x);
            }
            assert(m.remove_keys(removed) =~= m);
        }
        while k < ids.len()
            invariant
                self.wf(),
                *self == (HarnessRuntime { open_choices: self.open_choices, ..start }),
                m == start.open_choices@,
                d == choices_of_turn(m, turn),
                k <= ids@.len(),
                forall|j: int| 0 <= j < ids@.len() ==> d.contains(#[trigger] ids@[j] as i64),
                removed.subset_of(d),
                forall|x: i64|
                    #![trigger d.contains(x)]
                    d.contains(x) ==> removed.contains(x) || exists|j: int| k <= j < ids@.len() && ids@[j] as i64 == x,
                self.open_choices@ == m.remove_keys(removed),
                wit.len() == out@.len(),
                wit.no_duplicates(),
                forall|x: i64| removed.contains(x) <==> wit.contains(x),
                forall|j: int|
                    0 <= j < out@.len() ==> materialized_v(
                        #[trigger] out@[j],
                        start.store@,
                        start.catalog,
                        m[wit[j]],
                        opt_view(resolved_at),
                    ),
            decreases ids.len() - k,
        {
            let ghost key = ids@[k as int] as i64;
            let ghost out0 = out@;
            let taken = self.take_choice(ids[k]);
            if let Some(choice) = taken {
                let rec = self.materialize_choice(&choice, clone_opt_string(&resolved_at));
                out.push(rec);
                proof {
                    assert(d.contains(key));
                    assert(!removed.contains(key));
                    assert(out@[out@.len() - 1] == rec);
                    assert forall|j: int| 0 <= j < out0.len() implies out@[j] == out0[j] by {}
                    assert(!wit.contains(key));
                    let ghost wit0 = wit;
                    removed = removed.insert(key);
                    wit = wit.push(key);
                    assert(self.open_choices@ =~= m.remove_keys(removed));
                    assert forall|x: i64| removed.contains(x) <==> wit.contains(x) by {
                        if wit0.contains(x) {
                            let j = choose|j: int| 0 <= j < wit0.len() && wit0[j] == x;
                            assert(wit[j] == x);
                        }
                        if x == key {
                            assert(wit[wit.len() - 1] == key);
                        }
                        if wit.contains(x) && x != key {
                            let j = choose|j: int| 0 <= j < wit.len() && wit[j] == x;
                            assert(j < wit0.len());
                            assert(wit0[j] == x);
                        }
                    }
                    assert forall|j: int| 0 <= j < out@.len() implies materialized_v(
                        #[trigger] out@[j],
                        start.store@,
                        start.catalog,
                        m[wit[j]],
                        opt_view(resolved_at),
                    ) by {
                        if j < out0.len() {
                            assert(out@[j] == out0[j]);
                        }
                    }
                }
            } else {
                proof {
                    assert(removed.contains(key));
                    assert(self.open_choices@ =~= m.remove_keys(removed));
                }
            }
            proof {
                assert forall|x: i64| #![trigger d.contains(x)] d.contains(x) implies removed.contains(x) || exists|j: int|
                    k + 1 <= j < ids@.len() && ids@[j] as i64 == x by {
                    if !removed.contains(x) {
                        let j = choose|j: int| k <= j < ids@.len() && ids@[j] as i64 == x;
                        assert(j != k);
                    }
                }
            }
            k += 1;
        }
        proof {
            assert(removed =~= d);
            assert(self.open_choices@ == m.remove_keys(d));
            assert(drained_as(start, d, opt_view(resolved_at), out@, wit));
        }
        out
    }

    fn reset_match(&mut self, timestamp: Option<String>)
        requires
            old(self).wf(),
        ensures
            final(self).wf(),
            final(self).active_v(),
            !final(self).complete_v(),
            final(self).raw_turn_v() is None,
            final(self).archive_v().rounds@.len() == 0,
            final(self).store_v()@ == empty_store_v(),
            final(self).catalog_v() == old(self).catalog_v(),
    {
        self.router.reset();
        self.store.clear();
        self.archive = GameArchive::default();
        self.archive.source_log = clone_opt_string(&self.source_log);
        self.archive.card_catalog_source = owned_str(self.catalog.source());
        self.archive.started_at = timestamp;
        self.active = true;
        self.complete_seen = false;
        self.current_raw_turn = None;
        self.current_recruit = None;
        self.current_combat = None;
        self.pending_recruit_archive = None;
        self.block_depth = 0;
        self.pending_user_input = None;
        self.pending_recruit_action = None;
        self.open_choices = IntMap::new();
        self.timer_anchor = None;
        self.timer_timeout_seconds = None;
        self.shop_frozen_state = None;
        self.stale_block_stack_recoveries = 0;
    }

    fn start_turn(&mut self, raw_turn: u32, timestamp: Option<String>, events: &mut Vec<HarnessEvent>)
        requires
            old(self).wf(),
        ensures
            final(self).wf(),
            final(self).router == old(self).router,
            turn_started(*old(self), *final(self), raw_turn, timestamp, old(events)@, final(events)@),
            final(self).store_v() == old(self).store_v(),
            final(self).catalog_v() == old(self).catalog_v(),
            final(self).active_v() == old(self).active_v(),
            final(self).complete_v() == old(self).complete_v(),
            final(self).raw_turn_v() == old(self).raw_turn_v(),
    {
        // A phase/turn boundary is authoritative. Keep Power block nesting as
        // diagnostics only and clear any unmatched frames here.
        self.recover_block_stack();
        let round = round_number(raw_turn);
        if raw_turn % 2 == 1 {
            self.current_recruit = Some(
                RecruitBuilder {
                    round_number: round,
                    raw_game_turn: raw_turn,
                    started_at: timestamp,
                    start: None,
                    actions: Vec::new(),
                    shop_revisions: Vec::new(),
                    last_emitted_shop_signature: None,
                    last_observed_shop_signature: None,
                    last_stable_shop: Vec::new(),
                    shop_dirty: false,
                    pending_shop_cause: ShopRevisionCause::PhaseStart,
                    pending_shop_timestamp: None,
                    shop_last_changed_at: None,
                    choices: Vec::new(),
                },
            );
            self.timer_anchor = None;
            self.timer_timeout_seconds = None;
            events.push(HarnessEvent::PhaseStarted { round_number: round, phase: PhaseKind::Recruit });
        } else {
            self.current_combat = Some(
                CombatBuilder {
                    round_number: round,
                    raw_game_turn: raw_turn,
                    started_at: timestamp,
                    start: None,
                    player_hero_entity_id: None,
                    opponent_hero_entity_id: None,
                    player_effective_start: None,
                    opponent_effective_start: None,
                    player_effective_last: None,
                    opponent_effective_last: None,
                    won_last_combat: None,
                    explicit_damage_taken: None,
                    player_predamage_max: None,
                    opponent_predamage_max: None,
                    choices: Vec::new(),
                },
            );
            self.timer_anchor = None;
            self.timer_timeout_seconds = None;
            events.push(HarnessEvent::PhaseStarted { round_number: round, phase: PhaseKind::Combat });
        }
    }

    fn try_start_recruit(&mut self, timestamp: Option<String>, force: bool)
        requires
            old(self).wf(),
        ensures
            final(self).wf(),
            final(self).router == old(self).router,
            recruit_start_step(*old(self), *final(self), opt_view(timestamp), force),
            final(self).store_v() == old(self).store_v(),
            final(self).catalog_v() == old(self).catalog_v(),
            final(self).active_v() == old(self).active_v(),
            final(self).complete_v() == old(self).complete_v(),
            final(self).raw_turn_v() == old(self).raw_turn_v(),
            final(self).pending_recruit_action == old(self).pending_recruit_action,
            final(self).recruit_round_v() == old(self).recruit_round_v(),
    {
        proof {
            reveal(recruit_start_step);
        }
        let turn = match self.current_raw_turn {
            Some(t) => t,
            None => {
                return;
            },
        };
        if turn % 2 == 0 {
            return;
        }
        let started = match &self.current_recruit {
            Some(r) => r.start.is_some(),
            None => false,
        };
        if started {
            return;
        }
        if !force && !self.recruit_resources_ready() {
            return;
        }
        if force && self.projector().current_gold().is_none() {
            return;
        }
        let ghost before = *self;
        self.bootstrap_shop_frozen_state();
        let mut snapshot = self.recruit_snapshot(round_number(turn), turn, timestamp);
        let ghost p = crate::harness::state::snapshot::RecruitSnapshotV {
            shop_frozen: self.proj_v().shop_frozen_v(),
            ..snapshot@
        };
        if snapshot.shop.len() == 0 {
            if let Some(recruit) = &self.current_recruit {
                if recruit.shop_revisions.len() > 0 {
                    snapshot.shop = clone_cards(&recruit.shop_revisions[recruit.shop_revisions.len() - 1].cards);
                }
            }
        }
        proof {
            assert(before.proj_v().recruit_v(p, round_of(turn), turn, opt_view(timestamp)));
        }
        if let Some(recruit) = &mut self.current_recruit {
            recruit.start = Some(snapshot);
        }
        let ghost mid = *self;
        self.sync_timer_anchor();
        proof {
            assert(timer_synced(mid, *self));
        }
    }

    /// The local player has gold and has spent none: the recruit window is open.
    fn recruit_resources_ready(&self) -> (r: bool)
        ensures
            r == recruit_window_open(*self),
    {
        let player_id = match self.store.local_player_id() {
            Some(p) => p,
            None => {
                return false;
            },
        };
        let resources: i64 = match self.store.player_tag(player_id, "RESOURCES") {
            Some(v) => match v.as_i64() {
                Some(x) => x,
                None => 0,
            },
            None => 0,
        };
        let used: i64 = match self.store.player_tag(player_id, "RESOURCES_USED") {
            Some(v) => match v.as_i64() {
                Some(x) => x,
                None => 0,
            },
            None => 0,
        };
        resources > 0 && used == 0
    }

    fn observe_shop_change(&mut self, timestamp: Option<String>)
        requires
            old(self).wf(),
        ensures
            final(self).wf(),
            shop_change_observed(*old(self), *final(self), timestamp),
            final(self).store_v() == old(self).store_v(),
            final(self).catalog_v() == old(self).catalog_v(),
            final(self).active_v() == old(self).active_v(),
            final(self).complete_v() == old(self).complete_v(),
            final(self).raw_turn_v() == old(self).raw_turn_v(),
            final(self).pending_recruit_action == old(self).pending_recruit_action,
    {
        proof {
            reveal(shop_change_observed);
        }
        if !self.turn_is_recruit() {
            return;
        }
        let shop = self.projector().shop();
        let signature = shop_signature(&shop);
        let ghost before = *self;
        proof {
            assert(shop_shown(before, cards_view(shop@)));
        }
        let mut changed = false;
        if let Some(recruit) = &mut self.current_recruit {
            let same = match &recruit.last_observed_shop_signature {
                Some(last) => signature_eq(last, &signature),
                None => false,
            };
            if !same {
                recruit.last_observed_shop_signature = Some(signature);
                recruit.shop_dirty = true;
                recruit.pending_shop_timestamp = timestamp;
                recruit.shop_last_changed_at = Some(instant_now());
                changed = true;
            }
        }
        if changed {
            let ghost mid = *self;
            self.try_start_recruit(None, false);
            proof {
                assert(recruit_start_step(mid, *self, None, false));
            }
        }
    }

    fn mark_shop_dirty(&mut self, timestamp: Option<String>, cause: ShopRevisionCause)
        requires
            old(self).wf(),
        ensures
            final(self).wf(),
            match old(self).current_recruit {
                None => *final(self) == *old(self),
                Some(r) => final(self).current_recruit matches Some(f) && f.shop_last_changed_at is Some && f
                    == (RecruitBuilder {
                    shop_dirty: true,
                    pending_shop_cause: cause,
                    pending_shop_timestamp: if timestamp is Some {
                        timestamp
                    } else {
                        r.pending_shop_timestamp
                    },
                    shop_last_changed_at: f.shop_last_changed_at,
                    ..r
                }) && *final(self) == (HarnessRuntime { current_recruit: Some(f), ..*old(self) }),
            },
            final(self).store_v() == old(self).store_v(),
            final(self).catalog_v() == old(self).catalog_v(),
            final(self).active_v() == old(self).active_v(),
            final(self).complete_v() == old(self).complete_v(),
            final(self).raw_turn_v() == old(self).raw_turn_v(),
    {
        if let Some(recruit) = &mut self.current_recruit {
            recruit.shop_dirty = true;
            recruit.pending_shop_cause = cause;
            if timestamp.is_some() {
                recruit.pending_shop_timestamp = timestamp;
            }
            recruit.shop_last_changed_at = Some(instant_now());
        }
    }

    /// Publishes the shop as a new revision when it changed and is not empty.
    fn flush_shop_revision(&mut self, timestamp: Option<String>, events: &mut Vec<HarnessEvent>)
        requires
            old(self).wf(),
        ensures
            final(self).wf(),
            final(self).router == old(self).router,
            final(self).recruit_round_v() == old(self).recruit_round_v(),
            shop_published(
                old(self).recruit_round_v(),
                old(self).recruit_revisions_v(),
                final(self).recruit_revisions_v(),
                events_view(old(events)@),
                events_view(final(events)@),
            ),
            shop_flushed(*old(self), *final(self), opt_view(timestamp), old(events)@, final(events)@),
            !(old(self).raw_turn_v() is Some && old(self).raw_turn_v()->0 % 2 == 1) ==> final(self).recruit_revisions_v()
                == old(self).recruit_revisions_v() && events_view(final(events)@) == events_view(old(events)@),
            final(self).store_v() == old(self).store_v(),
            final(self).catalog_v() == old(self).catalog_v(),
            final(self).active_v() == old(self).active_v(),
            final(self).complete_v() == old(self).complete_v(),
            final(self).raw_turn_v() == old(self).raw_turn_v(),
    {
        proof {
            reveal(shop_flushed);
        }
        let turn = match self.current_raw_turn {
            Some(t) => t,
            None => {
                return;
            },
        };
        if turn % 2 == 0 {
            return;
        }
        let dirty = match &self.current_recruit {
            Some(r) => r.shop_dirty,
            None => false,
        };
        if !dirty {
            return;
        }
        let shop = self.projector().shop();
        proof {
            let proj = self.proj_v();
            if proj.dummy_v() is Some {
                vstd::seq_lib::to_multiset_len(cards_view(shop@));
                vstd::seq_lib::to_multiset_len(proj.shop_v(proj.dummy_v()->0));
            }
        }
        // An empty transient shop commonly appears while Bob tears down the old
        // refresh. Never emit that as a stable ShopUpdated event.
        if shop.len() == 0 {
            return;
        }
        let signature = shop_signature(&shop);
        let can_refresh_start = match &self.current_recruit {
            Some(recruit) => recruit.shop_revisions.len() == 0 && recruit.actions.len() == 0 && (
            recruit.start.is_some() || self.recruit_resources_ready()),
            None => false,
        };
        let refresh_start = if can_refresh_start {
            Some(self.recruit_snapshot(round_number(turn), turn, clone_opt_string(&timestamp)))
        } else {
            None
        };
        let ghost before = *self;
        let ghost r0 = self.current_recruit->0;
        let ghost p = crate::harness::state::snapshot::RecruitSnapshotV {
            shop_frozen: self.proj_v().shop_frozen_v(),
            ..refresh_start->0@
        };
        proof {
            if can_refresh_start {
                assert(before.proj_v().recruit_v(p, round_of(turn), turn, opt_view(timestamp)));
            }
        }
        let mut emitted: Option<(u32, u32)> = None;
        let ghost revs0 = self.recruit_revisions_v();
        let ghost events0 = events_view(events@);
        let ghost mut published: Option<ShopRevision> = None;
        if let Some(recruit) = &mut self.current_recruit {
            recruit.last_stable_shop = clone_cards(&shop);
            if let Some(snapshot) = refresh_start {
                // The first stable shop is the most reliable RecruitReady point:
                // resources, lobby state, costs and Bob's entities have all
                // settled, and no user action has happened yet.
                recruit.start = Some(snapshot);
            }
            recruit.shop_dirty = false;
            recruit.shop_last_changed_at = None;
            if let Some(start) = &mut recruit.start {
                if start.shop.len() == 0 {
                    start.shop = clone_cards(&shop);
                }
            }
            let same = match &recruit.last_emitted_shop_signature {
                Some(last) => signature_eq(last, &signature),
                None => false,
            };
            if same {
                recruit.pending_shop_timestamp = None;
                recruit.pending_shop_cause = ShopRevisionCause::StateChange;
                return;
            }
            recruit.last_emitted_shop_signature = Some(signature);
            let revision_number: u32 = if recruit.shop_revisions.len() < 4294967295 {
                recruit.shop_revisions.len() as u32 + 1
            } else {
                u32::MAX
            };
            let pending = recruit.pending_shop_timestamp.take();
            let revision_timestamp = match pending {
                Some(t) => Some(t),
                None => timestamp,
            };
            let cause = recruit.pending_shop_cause;
            recruit.pending_shop_cause = ShopRevisionCause::StateChange;
            let rev = ShopRevision {
                revision: revision_number,
                timestamp: revision_timestamp,
                cause,
                cards: clone_cards(&shop),
            };
            proof {
                published = Some(rev);
            }
            recruit.shop_revisions.push(rev);
            emitted = Some((recruit.round_number, revision_number));
        }
        if let Some((round, revision)) = emitted {
            let ghost ev_raw0 = events@;
            events.push(HarnessEvent::ShopUpdated { round_number: round, revision, card_ids: card_ids_of(&shop) });
            proof {
                assert(events@.drop_last() =~= ev_raw0);
                let rev = published->0;
                assert(self.recruit_revisions_v()->0 == revs0->0.push(rev));
                assert(events_view(events@) =~= events0.push(
                    HarnessEventV::ShopUpdated {
                        round_number: round,
                        revision: rev.revision,
                        card_ids: card_ids_v(cards_view(rev.cards@)),
                    },
                ));
            }
        }
    }

    fn sync_timer_from_state(&mut self, event: &PowerEvent)
        requires
            old(self).wf(),
        ensures
            final(self).wf(),
            if old(self).current_raw_turn is Some && old(self).current_raw_turn->0 % 2 == 1 && is_timeout_tag_v(event@) {
                timer_synced(*old(self), *final(self))
            } else {
                *final(self) == *old(self)
            },
            final(self).store_v() == old(self).store_v(),
            final(self).catalog_v() == old(self).catalog_v(),
            final(self).active_v() == old(self).active_v(),
            final(self).complete_v() == old(self).complete_v(),
            final(self).raw_turn_v() == old(self).raw_turn_v(),
            final(self).pending_recruit_action == old(self).pending_recruit_action,
    {
        if !self.turn_is_recruit() {
            return;
        }
        let timeout_event = match event {
            PowerEvent::TagChanged { tag, .. } => chars_eq(&chars_of(tag.as_str()), &chars_of("TIMEOUT")),
            _ => false,
        };
        if timeout_event {
            self.sync_timer_anchor();
        }
    }

    fn sync_timer_anchor(&mut self)
        requires
            old(self).wf(),
        ensures
            final(self).wf(),
            final(self).router == old(self).router,
            timer_synced(*old(self), *final(self)),
            final(self).store_v() == old(self).store_v(),
            final(self).catalog_v() == old(self).catalog_v(),
            final(self).active_v() == old(self).active_v(),
            final(self).complete_v() == old(self).complete_v(),
            final(self).raw_turn_v() == old(self).raw_turn_v(),
    {
        let timeout = self.projector().timeout_seconds();
        if timeout.is_some() && timeout != self.timer_timeout_seconds {
            self.timer_timeout_seconds = timeout;
            self.timer_anchor = Some(instant_now());
        } else if timeout.is_some() && self.timer_anchor.is_none() {
            self.timer_timeout_seconds = timeout;
            self.timer_anchor = Some(instant_now());
        }
    }

    fn ensure_combat_started(&mut self, timestamp: Option<String>)
        requires
            old(self).wf(),
        ensures
            final(self).wf(),
            match (old(self).current_raw_turn, old(self).current_combat) {
                (Some(t), Some(c)) => if t % 2 == 0 && c.start is None {
                    final(self).current_combat matches Some(f) && f.start matches Some(s) && f == combat_started(c, s)
                        && old(self).proj_v().combat_v(s@, round_of(t), t, opt_view(timestamp))
                        && *final(self) == (HarnessRuntime { current_combat: Some(f), ..*old(self) })
                } else {
                    *final(self) == *old(self)
                },
                _ => *final(self) == *old(self),
            },
            final(self).store_v() == old(self).store_v(),
            final(self).catalog_v() == old(self).catalog_v(),
            final(self).active_v() == old(self).active_v(),
            final(self).complete_v() == old(self).complete_v(),
            final(self).raw_turn_v() == old(self).raw_turn_v(),
    {
        let turn = match self.current_raw_turn {
            Some(t) => t,
            None => {
                return;
            },
        };
        if turn % 2 == 1 {
            return;
        }
        let needs_start = match &self.current_combat {
            Some(c) => c.start.is_none(),
            None => false,
        };
        if !needs_start {
            return;
        }
        let snapshot = self.projector().combat_snapshot(round_number(turn), turn, timestamp);
        if let Some(combat) = &mut self.current_combat {
            record_combat_start(combat, snapshot);
        }
    }

    fn observe_combat_tag(&mut self, event: &PowerEvent)
        requires
            old(self).wf(),
        ensures
            final(self).wf(),
            match (old(self).current_raw_turn, old(self).current_combat, event@) {
                (
                    Some(t),
                    Some(c),
                    crate::harness::power::event::PowerEventV::TagChanged { target, tag, value },
                ) => if t % 2 == 0 {
                    *final(self) == (HarnessRuntime {
                        current_combat: Some(combat_tag_applied(*old(self), c, target, tag, value)),
                        ..*old(self)
                    })
                } else {
                    *final(self) == *old(self)
                },
                _ => *final(self) == *old(self),
            },
            final(self).store_v() == old(self).store_v(),
            final(self).catalog_v() == old(self).catalog_v(),
            final(self).active_v() == old(self).active_v(),
            final(self).complete_v() == old(self).complete_v(),
            final(self).raw_turn_v() == old(self).raw_turn_v(),
            final(self).pending_recruit_action == old(self).pending_recruit_action,
    {
        if !self.turn_is_combat() {
            return;
        }
        let (target, tag, value) = match event {
            PowerEvent::TagChanged { target, tag, value } => (target, tag, value),
            _ => {
                return;
            },
        };
        let player_hero = match &self.current_combat {
            Some(c) => c.player_hero_entity_id,
            None => {
                return;
            },
        };
        let opponent_hero = match &self.current_combat {
            Some(c) => c.opponent_hero_entity_id,
            None => None,
        };
        let local_player_id = self.store.local_player_id();
        let local_player_entity_id: Option<u32> = match local_player_id {
            Some(id) => match self.store.player(id) {
                Some(p) => Some(p.entity_id),
                None => None,
            },
            None => None,
        };
        let local_target = match target {
            TagTarget::PlayerName(name) => match self.store.local_player_name() {
                Some(local) => chars_eq(&chars_of(local), &chars_of(name.as_str())),
                None => false,
            },
            TagTarget::Entity(identity) => Some(identity.id) == local_player_entity_id || Some(identity.id)
                == player_hero,
            TagTarget::GameEntity => false,
        };
        let tag_c = chars_of(tag.as_str());
        let as_i32: Option<i32> = match value.as_i64() {
            Some(v) => if i32::MIN as i64 <= v && v <= i32::MAX as i64 {
                Some(v as i32)
            } else {
                None
            },
            None => None,
        };
        let entity_target: Option<u32> = match target {
            TagTarget::Entity(identity) => Some(identity.id),
            _ => None,
        };
        if let Some(combat) = &mut self.current_combat {
            if chars_eq(&tag_c, &chars_of("BACON_WON_LAST_COMBAT")) && local_target {
                if let Some(v) = value.as_i64() {
                    combat.won_last_combat = Some(v != 0);
                }
            }
            if chars_eq(&tag_c, &chars_of("DAMAGE_DEALT_TO_HERO_LAST_TURN")) && local_target {
                if let Some(v) = as_i32 {
                    combat.explicit_damage_taken = Some(
                        if v > 0 {
                            v
                        } else {
                            0
                        },
                    );
                }
            }
            if chars_eq(&tag_c, &chars_of("PREDAMAGE")) {
                if let Some(v) = as_i32 {
                    if v > 0 {
                        if entity_target.is_some() && entity_target == player_hero {
                            let prev = match combat.player_predamage_max {
                                Some(p) => p,
                                None => 0,
                            };
                            combat.player_predamage_max = Some(
                                if prev > v {
                                    prev
                                } else {
                                    v
                                },
                            );
                        }
                        if entity_target.is_some() && entity_target == opponent_hero {
                            let prev = match combat.opponent_predamage_max {
                                Some(p) => p,
                                None => 0,
                            };
                            combat.opponent_predamage_max = Some(
                                if prev > v {
                                    prev
                                } else {
                                    v
                                },
                            );
                        }
                    }
                }
            }
        }
    }

    fn hero_effective_health(&self, entity_id: Option<u32>) -> (r: Option<i32>)
        ensures
            r == hero_health_of(self.store@, self.catalog, entity_id),
    {
        match entity_id {
            Some(id) => match self.store.entity(id) {
                Some(entity) => HeroSnapshot::from_entity_with_catalog(entity, Some(&self.catalog)).effective_health,
                None => None,
            },
            None => None,
        }
    }

    fn refresh_combat_health_tracking(&mut self)
        requires
            old(self).wf(),
        ensures
            final(self).wf(),
            match old(self).current_combat {
                Some(c) => if c.start is Some {
                    *final(self) == (HarnessRuntime {
                        current_combat: Some(
                            CombatBuilder {
                                player_effective_last: crate::harness::state::snapshot::first_of(
                                    hero_health_of(old(self).store@, old(self).catalog, c.player_hero_entity_id),
                                    c.player_effective_last,
                                ),
                                opponent_effective_last: crate::harness::state::snapshot::first_of(
                                    hero_health_of(old(self).store@, old(self).catalog, c.opponent_hero_entity_id),
                                    c.opponent_effective_last,
                                ),
                                ..c
                            },
                        ),
                        ..*old(self)
                    })
                } else {
                    *final(self) == *old(self)
                },
                None => *final(self) == *old(self),
            },
            final(self).store_v() == old(self).store_v(),
            final(self).catalog_v() == old(self).catalog_v(),
            final(self).active_v() == old(self).active_v(),
            final(self).complete_v() == old(self).complete_v(),
            final(self).raw_turn_v() == old(self).raw_turn_v(),
            final(self).pending_recruit_action == old(self).pending_recruit_action,
    {
        let (player_id, opponent_id, has_start) = match &self.current_combat {
            Some(combat) => (combat.player_hero_entity_id, combat.opponent_hero_entity_id, combat.start.is_some()),
            None => {
                return;
            },
        };
        if !has_start {
            return;
        }
        let player_health = self.hero_effective_health(player_id);
        let opponent_health = self.hero_effective_health(opponent_id);
        if let Some(combat) = &mut self.current_combat {
            if player_health.is_some() {
                combat.player_effective_last = player_health;
            }
            if opponent_health.is_some() {
                combat.opponent_effective_last = opponent_health;
            }
        }
    }

    fn finalize_current_phase(&mut self, timestamp: Option<String>, events: &mut Vec<HarnessEvent>)
        requires
            old(self).wf(),
        ensures
            final(self).wf(),
            final(self).router == old(self).router,
            phase_finalized(*old(self), *final(self), timestamp, old(events)@, final(events)@),
            final(self).store_v() == old(self).store_v(),
            final(self).catalog_v() == old(self).catalog_v(),
            final(self).active_v() == old(self).active_v(),
            final(self).complete_v() == old(self).complete_v(),
            final(self).raw_turn_v() == old(self).raw_turn_v(),
    {
        let turn = match self.current_raw_turn {
            Some(t) => t,
            None => {
                return;
            },
        };
        if turn % 2 == 1 {
            self.finalize_recruit(timestamp);
        } else {
            self.finalize_combat(timestamp, events);
        }
    }

    fn finalize_recruit(&mut self, timestamp: Option<String>)
        requires
            old(self).wf(),
        ensures
            final(self).wf(),
            final(self).router == old(self).router,
            recruit_finalized(*old(self), *final(self), timestamp),
            final(self).store_v() == old(self).store_v(),
            final(self).catalog_v() == old(self).catalog_v(),
            final(self).active_v() == old(self).active_v(),
            final(self).complete_v() == old(self).complete_v(),
            final(self).raw_turn_v() == old(self).raw_turn_v(),
    {
        proof {
            reveal(recruit_finalized);
        }
        let turn = match self.current_raw_turn {
            Some(t) => t,
            None => {
                return;
            },
        };
        let ghost before = *self;
        let mut unresolved = self.drain_choices_for_turn(turn, clone_opt_string(&timestamp));
        let ghost mid = *self;
        let ghost u = unresolved@;
        let mut recruit = match self.current_recruit.take() {
            Some(r) => r,
            None => {
                assert(*self == mid);
                return;
            },
        };
        let ghost r0 = recruit;
        recruit.choices.append(&mut unresolved);
        let mut end = self.recruit_snapshot(recruit.round_number, recruit.raw_game_turn, clone_opt_string(&timestamp));
        let ghost end_p = crate::harness::state::snapshot::RecruitSnapshotV {
            shop_frozen: self.proj_v().shop_frozen_v(),
            ..end@
        };
        // At phase teardown Bob removes shop entities one-by-one. Always use
        // the last *published stable* shop rather than a transient projector
        // state observed during cleanup.
        if recruit.last_stable_shop.len() > 0 {
            end.shop = clone_cards(&recruit.last_stable_shop);
        }
        proof {
            assert(before.proj_v().recruit_v(end_p, r0.round_number, r0.raw_game_turn, opt_view(timestamp)));
            assert(recruit_end_v(before, r0, opt_view(timestamp), end@));
        }
        let mut start = match recruit.start.take() {
            Some(s) => s,
            None => {
                let mut s = self.recruit_snapshot(recruit.round_number, recruit.raw_game_turn, clone_opt_string(&timestamp));
                let ghost s_p = crate::harness::state::snapshot::RecruitSnapshotV {
                    shop_frozen: self.proj_v().shop_frozen_v(),
                    ..s@
                };
                if recruit.last_stable_shop.len() > 0 {
                    s.shop = clone_cards(&recruit.last_stable_shop);
                }
                proof {
                    assert(before.proj_v().recruit_v(s_p, r0.round_number, r0.raw_game_turn, opt_view(timestamp)));
                    assert(recruit_end_v(before, r0, opt_view(timestamp), s@));
                }
                s
            },
        };
        let ghost start0 = start@;
        if start.shop.len() == 0 {
            if recruit.shop_revisions.len() > 0 {
                start.shop = clone_cards(&recruit.shop_revisions[0].cards);
            }
        }
        proof {
            assert(start@ == with_first_revision(start0, r0.shop_revisions@));
        }
        let archive = RecruitArchive {
            round_number: recruit.round_number,
            raw_game_turn: recruit.raw_game_turn,
            started_at: recruit.started_at,
            ended_at: timestamp,
            start,
            actions: recruit.actions,
            shop_revisions: recruit.shop_revisions,
            choices: recruit.choices,
            end,
        };
        self.pending_recruit_archive = Some(archive);
    }

    fn finalize_combat(&mut self, timestamp: Option<String>, events: &mut Vec<HarnessEvent>)
        requires
            old(self).wf(),
        ensures
            final(self).wf(),
            final(self).router == old(self).router,
            combat_finalized(*old(self), *final(self), timestamp, old(events)@, final(events)@),
            final(self).store_v() == old(self).store_v(),
            final(self).catalog_v() == old(self).catalog_v(),
            final(self).active_v() == old(self).active_v(),
            final(self).complete_v() == old(self).complete_v(),
            final(self).raw_turn_v() == old(self).raw_turn_v(),
    {
        proof {
            reveal(combat_finalized);
        }
        let turn = match self.current_raw_turn {
            Some(t) => t,
            None => {
                return;
            },
        };
        let ghost before = *self;
        let mut unresolved = self.drain_choices_for_turn(turn, clone_opt_string(&timestamp));
        let ghost mid = *self;
        let ghost u = unresolved@;
        let mut combat = match self.current_combat.take() {
            Some(c) => c,
            None => {
                assert(*self == mid);
                return;
            },
        };
        let ghost c0 = combat;
        combat.choices.append(&mut unresolved);
        if combat.start.is_none() {
            // Bye/edge-case: no ATTACK block. Keep a best-effort snapshot.
            let snapshot = self.projector().combat_snapshot(
                combat.round_number,
                combat.raw_game_turn,
                clone_opt_string(&combat.started_at),
            );
            record_combat_start(&mut combat, snapshot);
        }
        let ghost c2 = combat;
        let start = match combat.start.take() {
            Some(s) => s,
            None => {
                return;
            },
        };
        let health_damage_taken = positive_drop(combat.player_effective_start, combat.player_effective_last);
        let health_damage_dealt = positive_drop(combat.opponent_effective_start, combat.opponent_effective_last);
        let damage_taken = match combat.explicit_damage_taken {
            Some(d) => Some(d),
            None => match combat.player_predamage_max {
                Some(d) => Some(d),
                None => health_damage_taken,
            },
        };
        let damage_dealt = match combat.opponent_predamage_max {
            Some(d) => Some(d),
            None => health_damage_dealt,
        };
        let result = combat_result(combat.won_last_combat, damage_taken, damage_dealt);
        let started_at = match start.timestamp {
            Some(t) => Some(t),
            None => combat.started_at,
        };
        let round = combat.round_number;
        let archive = CombatArchive {
            round_number: combat.round_number,
            raw_game_turn: combat.raw_game_turn,
            started_at,
            ended_at: timestamp,
            opponent_player_id: start.opponent_player_id,
            lobby: start.lobby,
            player: start.player,
            opponent: start.opponent,
            result,
            damage_taken,
            damage_dealt,
            choices: combat.choices,
        };
        let ghost a_g = archive;
        proof {
            assert(combat_record_of(c2, c2.start->0, timestamp, a_g));
        }
        let recruit = match self.pending_recruit_archive.take() {
            Some(r) => if r.round_number == round {
                Some(r)
            } else {
                None
            },
            None => None,
        };
        self.upsert_round(RoundArchive { round_number: round, recruit, combat: Some(archive) });
        events.push(HarnessEvent::RoundArchived { round_number: round });
        proof {
            assert(choices_drained(before, mid, turn, opt_view(timestamp), u));
        }
    }

    fn push_pending_recruit_as_partial_round(&mut self, events: &mut Vec<HarnessEvent>)
        requires
            old(self).wf(),
        ensures
            final(self).wf(),
            final(self).router == old(self).router,
            partial_round_pushed(*old(self), *final(self), old(events)@, final(events)@),
            final(self).store_v() == old(self).store_v(),
            final(self).catalog_v() == old(self).catalog_v(),
            final(self).active_v() == old(self).active_v(),
            final(self).complete_v() == old(self).complete_v(),
            final(self).raw_turn_v() == old(self).raw_turn_v(),
    {
        let recruit = match self.pending_recruit_archive.take() {
            Some(r) => r,
            None => {
                return;
            },
        };
        let round = recruit.round_number;
        self.upsert_round(RoundArchive { round_number: round, recruit: Some(recruit), combat: None });
        events.push(HarnessEvent::RoundArchived { round_number: round });
    }

    /// Stores `round` as the archive's record of its round number: in place
    /// of an earlier record of that number, else at its place in order.
    fn upsert_round(&mut self, round: RoundArchive)
        requires
            old(self).wf(),
            round_revisions_numbered(round),
            round_matched(round),
        ensures
            final(self).wf(),
            final(self).router == old(self).router,
            final(self).store_v() == old(self).store_v(),
            final(self).catalog_v() == old(self).catalog_v(),
            final(self).archive_v().rounds@ == upsert_v(old(self).archive_v().rounds@, round),
            *final(self) == (HarnessRuntime {
                archive: GameArchive { rounds: final(self).archive.rounds, ..old(self).archive },
                ..*old(self)
            }),
            final(self).active_v() == old(self).active_v(),
            final(self).complete_v() == old(self).complete_v(),
            final(self).raw_turn_v() == old(self).raw_turn_v(),
    {
        let mut rounds: Vec<RoundArchive> = Vec::new();
        std::mem::swap(&mut rounds, &mut self.archive.rounds);
        let ghost s = rounds@;
        let n = round.round_number;
        let mut i: usize = 0;
        while i < rounds.len() && rounds[i].round_number < n
            invariant
                i <= rounds@.len(),
                rounds@ == s,
                rounds_ordered(s),
                forall|k: int| 0 <= k < i ==> s[k].round_number < n,
            decreases rounds@.len() - i,
        {
            i += 1;
        }
        proof {
            lemma_upsert_position(s, n, i as int);
        }
        if i < rounds.len() && rounds[i].round_number == n {
            rounds.set(i, round);
        } else {
            rounds.insert(i, round);
        }
        proof {
            lemma_upsert_ordered(s, round);
            lemma_upsert_numbered(s, round);
            lemma_upsert_matched(s, round);
        }
        self.archive.rounds = rounds;
    }

    fn handle_user_option_sent(&mut self, selected_target: Option<u32>, timestamp: Option<String>, events: &mut Vec<HarnessEvent>)
        requires
            old(self).wf(),
        ensures
            final(self).wf(),
            if !old(self).active || !(old(self).current_raw_turn is Some && old(self).current_raw_turn->0 % 2 == 1) {
                *final(self) == (HarnessRuntime { pending_user_input: None, ..*old(self) }) && final(events)@ == old(
                    events,
                )@
            } else {
                exists|m1: HarnessRuntime, m2: HarnessRuntime, m3: HarnessRuntime|
                    #![trigger pending_action_finalized(*old(self), m1, opt_view(timestamp)), shop_flushed(m1, m2, opt_view(timestamp), old(events)@, final(events)@), recruit_start_step(m2, m3, opt_view(timestamp), true)]
                    pending_action_finalized(*old(self), m1, opt_view(timestamp)) && shop_flushed(
                        m1,
                        m2,
                        opt_view(timestamp),
                        old(events)@,
                        final(events)@,
                    ) && recruit_start_step(m2, m3, opt_view(timestamp), true) && *final(self) == (HarnessRuntime {
                        pending_user_input: Some(PendingUserInput { timestamp, selected_target }),
                        ..m3
                    })
            },
            final(self).store_v() == old(self).store_v(),
            final(self).catalog_v() == old(self).catalog_v(),
            final(self).active_v() == old(self).active_v(),
            final(self).complete_v() == old(self).complete_v(),
            final(self).raw_turn_v() == old(self).raw_turn_v(),
    {
        if !self.active || !self.turn_is_recruit() {
            self.pending_user_input = None;
            return;
        }
        self.finalize_pending_recruit_action(clone_opt_string(&timestamp));
        let ghost m1 = *self;
        // A new user input is also an authoritative stable boundary for the
        // state created by the previous action.
        self.flush_shop_revision(clone_opt_string(&timestamp), events);
        let ghost m2 = *self;
        self.try_start_recruit(clone_opt_string(&timestamp), true);
        let ghost m3 = *self;
        self.pending_user_input = Some(PendingUserInput { timestamp, selected_target });
        proof {
            assert(pending_action_finalized(*old(self), m1, opt_view(timestamp)));
        }
    }

    fn finalize_pending_recruit_action(&mut self, timestamp: Option<String>)
        requires
            old(self).wf(),
        ensures
            final(self).wf(),
            final(self).router == old(self).router,
            pending_action_finalized(*old(self), *final(self), opt_view(timestamp)),
            final(self).store_v() == old(self).store_v(),
            final(self).catalog_v() == old(self).catalog_v(),
            final(self).active_v() == old(self).active_v(),
            final(self).complete_v() == old(self).complete_v(),
            final(self).raw_turn_v() == old(self).raw_turn_v(),
            final(self).recruit_round_v() == old(self).recruit_round_v(),
    {
        proof {
            reveal(pending_action_finalized);
        }
        let action = match self.pending_recruit_action.take() {
            Some(a) => a,
            None => {
                return;
            },
        };
        let turn = match self.current_raw_turn {
            Some(t) => t,
            None => {
                return;
            },
        };
        if turn % 2 == 0 {
            return;
        }
        self.try_start_recruit(clone_opt_string(&action.timestamp), true);
        let ghost mid = *self;
        let snapshot = self.recruit_snapshot(round_number(turn), turn, timestamp);
        let ghost p = crate::harness::state::snapshot::RecruitSnapshotV {
            shop_frozen: self.proj_v().shop_frozen_v(),
            ..snapshot@
        };
        proof {
            assert(mid.proj_v().recruit_v(p, round_of(turn), turn, opt_view(timestamp)));
        }
        if let Some(recruit) = &mut self.current_recruit {
            recruit.actions.push(
                RecruitActionRecord {
                    timestamp: action.timestamp,
                    kind: action.kind,
                    source: action.source,
                    target: action.target,
                    state_after: snapshot,
                },
            );
        }
    }

    /// The recruit action that a block started after a SendOption stands for.
    fn detect_recruit_action(&self, event: &PowerEvent, timestamp: Option<String>, selected_target: Option<u32>) -> (r: Option<PendingAction>)
        ensures
            match (self.current_raw_turn, event@) {
                (
                    Some(t),
                    crate::harness::power::event::PowerEventV::BlockStarted { block_type, source, target, effect_card_id: _ },
                ) => if t % 2 == 1 {
                    match rules::action_kind_v(action_facts_v(*self, block_type, source)) {
                        Some(k) => r matches Some(a) && a.timestamp == timestamp && a.kind == k && card_opt_view(a.source)
                            == source_card_v(*self, source) && card_opt_view(a.target) == target_card_v(
                            *self,
                            target,
                            selected_target,
                        ),
                        None => r is None,
                    }
                } else {
                    r is None
                },
                _ => r is None,
            },
    {
        let turn = match self.current_raw_turn {
            Some(t) => t,
            None => {
                return None;
            },
        };
        if turn % 2 == 0 {
            return None;
        }
        let (block_type, source, target) = match event {
            PowerEvent::BlockStarted { block_type, source, target, .. } => (block_type, source, target),
            _ => {
                return None;
            },
        };
        let source_snapshot: Option<CardSnapshot> = match source {
            Some(identity) => Some(self.snapshot_from_identity(identity)),
            None => None,
        };
        let target_snapshot: Option<CardSnapshot> = match target {
            Some(identity) => Some(self.snapshot_from_identity(identity)),
            None => match selected_target {
                Some(entity_id) => match self.store.entity(entity_id) {
                    Some(entity) => Some(CardSnapshot::from_entity_with_catalog(entity, Some(&self.catalog))),
                    None => None,
                },
                None => None,
            },
        };
        let source_entity = match source {
            Some(identity) => self.store.entity(identity.id),
            None => None,
        };
        let source_card_id: Option<String> = match source {
            Some(identity) if identity.card_id.is_some() => clone_opt_string(&identity.card_id),
            _ => match source_entity {
                Some(e) => clone_opt_string(&e.card_id),
                None => None,
            },
        };
        let source_type: Option<String> = match source_entity {
            Some(e) if e.tag_symbol("CARDTYPE").is_some() => owned_str(e.tag_symbol("CARDTYPE")),
            _ => match &source_snapshot {
                Some(c) => clone_opt_string(&c.card_type),
                None => None,
            },
        };
        let source_zone: Option<String> = match source_entity {
            Some(e) if e.tag_symbol("ZONE").is_some() => owned_str(e.tag_symbol("ZONE")),
            _ => match &source_snapshot {
                Some(c) => clone_opt_string(&c.zone),
                None => None,
            },
        };
        let entity_controller: Option<i32> = match source_entity {
            Some(e) => crate::harness::state::snapshot::i32_tag(e, "CONTROLLER"),
            None => None,
        };
        let source_controller: Option<i32> = match entity_controller {
            Some(c) => Some(c),
            None => match &source_snapshot {
                Some(c) => c.controller,
                None => None,
            },
        };
        let local = self.store.local_player_id();
        let activatable = match &source_snapshot {
            Some(c) => c.keywords.activate_keyword && c.keywords.activate_available_now,
            None => false,
        };
        let facts = ActionFacts {
            block_type: block_type.clone(),
            source_card_id,
            source_type,
            source_zone,
            local_source: source_controller == local,
            activatable,
        };
        match classify_action(&facts) {
            Some(kind) => Some(PendingAction { timestamp, kind, source: source_snapshot, target: target_snapshot }),
            None => None,
        }
    }

    /// The projector's recruit snapshot, with the tracked freeze state.
    fn recruit_snapshot(&self, round_number: u32, raw_game_turn: u32, timestamp: Option<String>) -> (r: RecruitSnapshot)
        ensures
            self.proj_v().recruit_v(
                crate::harness::state::snapshot::RecruitSnapshotV { shop_frozen: self.proj_v().shop_frozen_v(), ..r@ },
                round_number,
                raw_game_turn,
                opt_view(timestamp),
            ),
            r.shop_frozen == crate::harness::state::snapshot::first_of(self.frozen_state_v(), self.proj_v().shop_frozen_v()),
    {
        let mut snapshot = self.projector().recruit_snapshot(round_number, raw_game_turn, timestamp);
        if self.shop_frozen_state.is_some() {
            snapshot.shop_frozen = self.shop_frozen_state;
        }
        snapshot
    }

    fn bootstrap_shop_frozen_state(&mut self)
        requires
            old(self).wf(),
        ensures
            final(self).wf(),
            final(self).router == old(self).router,
            *final(self) == (HarnessRuntime {
                shop_frozen_state: match old(self).shop_frozen_state {
                    Some(f) => Some(f),
                    None => Some(
                        match old(self).proj_v().shop_frozen_v() {
                            Some(f) => f,
                            None => false,
                        },
                    ),
                },
                ..*old(self)
            }),
            final(self).store_v() == old(self).store_v(),
            final(self).catalog_v() == old(self).catalog_v(),
            final(self).active_v() == old(self).active_v(),
            final(self).complete_v() == old(self).complete_v(),
            final(self).raw_turn_v() == old(self).raw_turn_v(),
            final(self).pending_recruit_action == old(self).pending_recruit_action,
    {
        if self.shop_frozen_state.is_none() {
            let observed = match self.projector().shop_frozen() {
                Some(f) => f,
                None => false,
            };
            self.shop_frozen_state = Some(observed);
        }
    }

    /// A freeze toggles the tracked freeze state; a reroll leaves the new
    /// shop unfrozen.
    fn apply_recruit_action_state(&mut self, kind: Option<RecruitActionKind>)
        requires
            old(self).wf(),
        ensures
            final(self).wf(),
            *final(self) == (HarnessRuntime {
                shop_frozen_state: match kind {
                    Some(RecruitActionKind::FreezeToggle) => Some(
                        !match old(self).shop_frozen_state {
                            Some(f) => f,
                            None => match old(self).proj_v().shop_frozen_v() {
                                Some(f) => f,
                                None => false,
                            },
                        },
                    ),
                    Some(RecruitActionKind::Refresh) => Some(false),
                    _ => old(self).shop_frozen_state,
                },
                ..*old(self)
            }),
            final(self).store_v() == old(self).store_v(),
            final(self).catalog_v() == old(self).catalog_v(),
            final(self).active_v() == old(self).active_v(),
            final(self).complete_v() == old(self).complete_v(),
            final(self).raw_turn_v() == old(self).raw_turn_v(),
    {
        match kind {
            Some(RecruitActionKind::FreezeToggle) => {
                let current = match self.shop_frozen_state {
                    Some(f) => f,
                    None => match self.projector().shop_frozen() {
                        Some(f) => f,
                        None => false,
                    },
                };
                self.shop_frozen_state = Some(!current);
            },
            Some(RecruitActionKind::Refresh) => {
                self.shop_frozen_state = Some(false);
            },
            _ => {},
        }
    }

    fn recover_block_stack(&mut self)
        requires
            old(self).wf(),
        ensures
            final(self).wf(),
            final(self).router == old(self).router,
            *final(self) == (HarnessRuntime {
                block_depth: 0,
                stale_block_stack_recoveries: if old(self).block_depth > 0
                    && old(self).stale_block_stack_recoveries < u32::MAX {
                    (old(self).stale_block_stack_recoveries + 1) as u32
                } else {
                    old(self).stale_block_stack_recoveries
                },
                ..*old(self)
            }),
            final(self).store_v() == old(self).store_v(),
            final(self).catalog_v() == old(self).catalog_v(),
            final(self).active_v() == old(self).active_v(),
            final(self).complete_v() == old(self).complete_v(),
            final(self).raw_turn_v() == old(self).raw_turn_v(),
    {
        if self.block_depth > 0 {
            self.block_depth = 0;
            self.stale_block_stack_recoveries = self.stale_block_stack_recoveries.saturating_add(1);
        }
    }

    fn refresh_metadata(&mut self)
        requires
            old(self).wf(),
        ensures
            final(self).wf(),
            final(self).router == old(self).router,
            metadata_refreshed(*old(self), *final(self)),
            final(self).store_v() == old(self).store_v(),
            final(self).catalog_v() == old(self).catalog_v(),
            final(self).active_v() == old(self).active_v(),
            final(self).complete_v() == old(self).complete_v(),
            final(self).raw_turn_v() == old(self).raw_turn_v(),
            final(self).pending_recruit_action == old(self).pending_recruit_action,
    {
        let lobby_players = self.projector().lobby_players();
        let local_player_id = self.store.local_player_id();
        let final_place: Option<u8> = match local_player_id {
            Some(player_id) => crate::harness::state::snapshot::fitting_u8_of(self.store.leaderboard_place(player_id)),
            None => None,
        };
        self.archive.local_player_id = local_player_id;
        self.archive.local_player_name = owned_str(self.store.local_player_name());
        self.archive.lobby_players = lobby_players;
        self.archive.final_place = final_place;
        self.archive.stale_block_stack_recoveries = self.stale_block_stack_recoveries;
    }
}

impl HarnessRuntime {
    /// The recruit state, while a recruit turn (odd raw turn) is running.
    pub fn current_recruit_state(&self) -> (r: Option<RecruitSnapshot>)
        ensures
            match self.raw_turn_v() {
                Some(t) => if t % 2 == 1 {
                    r is Some && self.proj_v().recruit_v(
                        crate::harness::state::snapshot::RecruitSnapshotV {
                            shop_frozen: self.proj_v().shop_frozen_v(),
                            ..r->0@
                        },
                        round_of(t),
                        t,
                        None,
                    ) && r->0.shop_frozen == crate::harness::state::snapshot::first_of(
                        self.frozen_state_v(),
                        self.proj_v().shop_frozen_v(),
                    )
                } else {
                    r is None
                },
                None => r is None,
            },
    {
        let turn = match self.current_raw_turn {
            Some(t) => t,
            None => {
                return None;
            },
        };
        if turn % 2 == 0 {
            return None;
        }
        Some(self.recruit_snapshot(round_number(turn), turn, None))
    }

    /// The combat state, while a combat turn (even raw turn) is running.
    pub fn current_combat_state(&self) -> (r: Option<LiveCombatSnapshot>)
        ensures
            match self.raw_turn_v() {
                Some(t) => if t % 2 == 0 {
                    r is Some && self.proj_v().combat_v(r->0@, round_of(t), t, None)
                } else {
                    r is None
                },
                None => r is None,
            },
    {
        let turn = match self.current_raw_turn {
            Some(t) => t,
            None => {
                return None;
            },
        };
        if turn % 2 == 1 {
            return None;
        }
        Some(self.projector().combat_snapshot(round_number(turn), turn, None))
    }

    pub open spec fn stable_shop_v(&self) -> Seq<crate::harness::state::snapshot::CardSnapshotV> {
        match self.recruit_revisions_v() {
            Some(revs) => if revs.len() > 0 {
                cards_view(revs.last().cards@)
            } else {
                Seq::empty()
            },
            None => {
                let rounds = self.archive_v().rounds@;
                if rounds.len() > 0 && rounds.last().recruit is Some && rounds.last().recruit->0.shop_revisions@.len()
                    > 0 {
                    cards_view(rounds.last().recruit->0.shop_revisions@.last().cards@)
                } else {
                    Seq::empty()
                }
            },
        }
    }

    /// Last emitted complete shop revision: the open recruit phase's, else
    /// the latest archived round's. Consumers that react to
    /// `HarnessEvent::ShopUpdated` should normally use this rather than raw
    /// EntityStore state.
    pub fn stable_shop(&self) -> (r: Vec<CardSnapshot>)
        ensures
            cards_view(r@) == self.stable_shop_v(),
    {
        if let Some(recruit) = &self.current_recruit {
            if recruit.shop_revisions.len() > 0 {
                return clone_cards(&recruit.shop_revisions[recruit.shop_revisions.len() - 1].cards);
            }
            return Vec::new();
        }
        match self.archive.latest_round() {
            Some(round) => match &round.recruit {
                Some(recruit) => if recruit.shop_revisions.len() > 0 {
                    clone_cards(&recruit.shop_revisions[recruit.shop_revisions.len() - 1].cards)
                } else {
                    Vec::new()
                },
                None => Vec::new(),
            },
            None => Vec::new(),
        }
    }

    /// CardIds of the stable shop; empty while a refresh is still being
    /// reconstructed, so that no partial or stale shop is exposed.
    pub fn current_shop_card_ids(&self) -> (r: Vec<String>)
        ensures
            strs_view(r@) == (if self.recruit_revisions_v() is Some && !self.shop_dirty_v()
                && self.recruit_revisions_v()->0.len() > 0 {
                card_ids_v(self.stable_shop_v())
            } else {
                Seq::empty()
            }),
    {
        if !self.shop_is_stable() {
            let r: Vec<String> = Vec::new();
            assert(strs_view(r@) =~= Seq::<Seq<char>>::empty());
            return r;
        }
        card_ids_of(&self.stable_shop())
    }

    /// The open choice with the largest id, as it stands.
    pub fn current_choice(&self) -> (r: Option<ChoiceArchive>)
        requires
            self.wf(),
        ensures
            match r {
                Some(c) => self.open_choice_ids().contains(c.id as i64) && (forall|k: i64|
                    #[trigger] self.open_choice_ids().contains(k) ==> k <= c.id) && materialized_v(
                    c,
                    self.store_v()@,
                    self.catalog_v(),
                    self.open_choice_v(c.id as i64),
                    None,
                ),
                None => self.open_choice_ids().is_empty(),
            },
    {
        self.open_choices.lemma_entries();
        let ghost es = self.open_choices.entries();
        let mut best: Option<usize> = None;
        let mut i: usize = 0;
        while i < self.open_choices.len()
            invariant
                i <= es.len(),
                es == self.open_choices.entries(),
                self.wf(),
                forall|k: i64| #[trigger] self.open_choices@.contains_key(k) <==> exists|j: int|
                    0 <= j < es.len() && es[j].0 == k,
                forall|j: int| 0 <= j < es.len() ==> #[trigger] self.open_choices@[es[j].0] == es[j].1,
                match best {
                    Some(b) => b < i && forall|j: int| 0 <= j < i ==> #[trigger] es[j].0 <= es[b as int].0,
                    None => i == 0,
                },
            decreases es.len() - i,
        {
            match best {
                Some(b) => {
                    if self.open_choices.key_at(i) > self.open_choices.key_at(b) {
                        best = Some(i);
                    }
                },
                None => {
                    best = Some(i);
                },
            }
            i += 1;
        }
        match best {
            Some(b) => {
                let choice = self.open_choices.value_at(b);
                let ghost key = es[b as int].0;
                assert(self.open_choices@.contains_key(key));
                assert(self.open_choices@[key].id == key);
                assert(choice@ == es[b as int].1);
                let c = self.materialize_choice(choice, None);
                assert forall|k: i64| #[trigger] self.open_choice_ids().contains(k) implies k <= c.id by {
                    let j = choose|j: int| 0 <= j < es.len() && es[j].0 == k;
                    assert(es[j].0 <= es[b as int].0);
                }
                Some(c)
            },
            None => {
                assert(self.open_choice_ids() =~= Set::<i64>::empty()) by {
                    assert forall|k: i64| !self.open_choice_ids().contains(k) by {
                        if self.open_choices@.contains_key(k) {
                            let j = choose|j: int| 0 <= j < es.len() && es[j].0 == k;
                        }
                    }
                }
                None
            },
        }
    }

    /// CardIds of the current choice's options.
    pub fn current_choice_option_ids(&self) -> (r: Vec<String>)
        requires
            self.wf(),
        ensures
            self.open_choice_ids().is_empty() ==> r@.len() == 0,
            forall|k: i64|
                #![trigger self.open_choice_v(k)]
                self.open_choice_ids().contains(k) && (forall|j: i64| #[trigger]
                    self.open_choice_ids().contains(j) ==> j <= k) ==> strs_view(r@) == card_ids_v(
                    descriptor_cards_v(self.store_v()@, self.catalog_v(), self.open_choice_v(k).options),
                ),
    {
        match self.current_choice() {
            Some(choice) => card_ids_of(&choice.options),
            None => Vec::new(),
        }
    }

    /// The timeout the countdown runs from: as last synchronized, else as the
    /// player's `TIMEOUT` tag shows it.
    pub open spec fn countdown_timeout_v(&self) -> Option<i32> {
        match self.timer_timeout_v() {
            Some(t) => Some(t),
            None => self.proj_v().timeout_v(),
        }
    }

    /// Best-effort live countdown: the timeout less the whole seconds since
    /// the timer started, never below zero. `None` outside recruit turns or
    /// without a known timeout. Whatever the clock reads, the result is
    /// `seconds_left` of the timeout and some elapsed time, and no time has
    /// elapsed while no timer runs.
    pub fn remaining_seconds(&self) -> (r: Option<i32>)
        ensures
            !(self.raw_turn_v() is Some && self.raw_turn_v()->0 % 2 == 1) ==> r is None,
            (self.raw_turn_v() is Some && self.raw_turn_v()->0 % 2 == 1) ==> (r is Some <==> self.countdown_timeout_v()
                is Some),
            r is Some ==> exists|m: u128| r == Some(#[trigger] seconds_left_v(self.countdown_timeout_v()->0, m)),
            !self.timer_anchored_v() && r is Some ==> r == Some(seconds_left_v(self.countdown_timeout_v()->0, 0)),
    {
        if !self.turn_is_recruit() {
            return None;
        }
        let timeout = match self.timer_timeout_seconds {
            Some(t) => t,
            None => match self.current_timeout_seconds() {
                Some(t) => t,
                None => {
                    return None;
                },
            },
        };
        let elapsed: u128 = match &self.timer_anchor {
            Some(anchor) => elapsed_millis(anchor),
            None => 0,
        };
        Some(seconds_left(timeout, elapsed))
    }

    /// A shop change of the open recruit phase waits to be settled.
    pub closed spec fn shop_change_pending_v(&self) -> bool {
        self.current_recruit is Some && self.current_recruit->0.shop_last_changed_at is Some
    }

    /// What `on_idle` does once the shop has been quiet for `quiet_millis`:
    /// a pending shop change is settled after 150 ms of quiet; otherwise
    /// nothing happens.
    pub open spec fn idle_outcome(
        before: HarnessRuntime,
        after: HarnessRuntime,
        quiet_millis: u128,
        events: Seq<HarnessEventV>,
    ) -> bool {
        if before.shop_change_pending_v() && quiet_millis >= 150 {
            shop_flush_outcome(before, after, Seq::empty(), events)
        } else {
            after == before && events.len() == 0
        }
    }

    /// The idle step for a known quiet time: a pending shop change is
    /// published once the entity set has been quiet for 150 ms.
    pub fn on_idle_after(&mut self, quiet_millis: u128) -> (r: Vec<HarnessEvent>)
        requires
            old(self).wf(),
        ensures
            final(self).wf(),
            HarnessRuntime::idle_outcome(*old(self), *final(self), quiet_millis, events_view(r@)),
            final(self).recruit_round_v() == old(self).recruit_round_v(),
            shop_published(
                old(self).recruit_round_v(),
                old(self).recruit_revisions_v(),
                final(self).recruit_revisions_v(),
                Seq::empty(),
                events_view(r@),
            ),
            final(self).store_v() == old(self).store_v(),
            final(self).catalog_v() == old(self).catalog_v(),
            final(self).active_v() == old(self).active_v(),
            final(self).complete_v() == old(self).complete_v(),
            final(self).raw_turn_v() == old(self).raw_turn_v(),
    {
        let mut events: Vec<HarnessEvent> = Vec::new();
        assert(events_view(events@) =~= Seq::<HarnessEventV>::empty());
        let pending = match &self.current_recruit {
            Some(recruit) => recruit.shop_last_changed_at.is_some(),
            None => false,
        };
        if pending && quiet_millis >= 150 {
            let ghost before = *self;
            self.flush_shop_revision(None, &mut events);
            proof {
                lemma_flush_outcome(before, *self, None, Seq::empty(), events@);
            }
        }
        events
    }

    /// Called by the live file watcher after it reaches the current EOF. Shop
    /// updates are emitted only after the entity set has been quiet for
    /// 150 ms, to avoid partial refresh snapshots. How long it has been quiet
    /// is read from the clock; whatever it reads, the step is `on_idle_after`
    /// of that reading, and with no change pending nothing happens.
    pub fn on_idle(&mut self) -> (r: Vec<HarnessEvent>)
        requires
            old(self).wf(),
        ensures
            final(self).wf(),
            !old(self).shop_change_pending_v() ==> *final(self) == *old(self) && r@.len() == 0,
            exists|m: u128| #[trigger] HarnessRuntime::idle_outcome(*old(self), *final(self), m, events_view(r@)),
            final(self).recruit_round_v() == old(self).recruit_round_v(),
            final(self).store_v() == old(self).store_v(),
            final(self).catalog_v() == old(self).catalog_v(),
            final(self).active_v() == old(self).active_v(),
            final(self).complete_v() == old(self).complete_v(),
            final(self).raw_turn_v() == old(self).raw_turn_v(),
    {
        let quiet: u128 = match &self.current_recruit {
            Some(recruit) => match &recruit.shop_last_changed_at {
                Some(instant) => elapsed_millis(instant),
                None => 0,
            },
            None => 0,
        };
        self.on_idle_after(quiet)
    }

    /// Deterministic flush for replay/tests and phase boundaries.
    pub fn flush_pending_shop_revision(&mut self) -> (r: Vec<HarnessEvent>)
        requires
            old(self).wf(),
        ensures
            final(self).wf(),
            shop_flush_outcome(*old(self), *final(self), Seq::empty(), events_view(r@)),
            final(self).recruit_round_v() == old(self).recruit_round_v(),
            shop_published(
                old(self).recruit_round_v(),
                old(self).recruit_revisions_v(),
                final(self).recruit_revisions_v(),
                Seq::empty(),
                events_view(r@),
            ),
            final(self).store_v() == old(self).store_v(),
            final(self).catalog_v() == old(self).catalog_v(),
            final(self).active_v() == old(self).active_v(),
            final(self).complete_v() == old(self).complete_v(),
            final(self).raw_turn_v() == old(self).raw_turn_v(),
    {
        let mut events: Vec<HarnessEvent> = Vec::new();
        assert(events_view(events@) =~= Seq::<HarnessEventV>::empty());
        let ghost before = *self;
        self.flush_shop_revision(None, &mut events);
        proof {
            lemma_flush_outcome(before, *self, None, Seq::empty(), events@);
        }
        events
    }

    /// Force-finalizes a partial stream. Replay uses this at EOF; live watch
    /// normally reaches STATE=COMPLETE first.
    pub fn finish(&mut self, timestamp: Option<String>) -> (r: Vec<HarnessEvent>)
        requires
            old(self).wf(),
        ensures
            final(self).wf(),
            stream_finished(*old(self), *final(self), opt_view(timestamp), r@),
            old(self).active_v() && !old(self).complete_v() ==> final(self).pending_recruit_v() is None,
            old(self).active_v() && !old(self).complete_v() && old(self).raw_turn_v() is Some && old(
                self,
            ).raw_turn_v()->0 % 2 == 0 && old(self).combat_round_v() is Some ==> events_view(r@).contains(
                HarnessEventV::RoundArchived { round_number: old(self).combat_round_v()->0 },
            ),
            old(self).active_v() && !old(self).complete_v() && old(self).raw_turn_v() is Some && old(
                self,
            ).raw_turn_v()->0 % 2 == 1 && old(self).recruit_round_v() is Some ==> events_view(r@).contains(
                HarnessEventV::RoundArchived { round_number: old(self).recruit_round_v()->0 },
            ),
            old(self).active_v() && !old(self).complete_v() ==> opt_view(final(self).archive_v().ended_at)
                == opt_view(timestamp),
            old(self).active_v() && !old(self).complete_v() && old(self).raw_turn_v() is Some && old(
                self,
            ).raw_turn_v()->0 % 2 == 1 && old(self).recruit_round_v() is Some ==> exists|j: int|
                0 <= j < final(self).archive_v().rounds@.len() && (#[trigger] final(self).archive_v().rounds@[j]).round_number
                    == old(self).recruit_round_v()->0 && (final(self).archive_v().rounds@[j].recruit matches Some(ra)
                    && actions_closed(old(self).recruit_actions_v(), old(self).open_action_v(), ra.actions@)),
            final(self).store_v() == old(self).store_v(),
            final(self).catalog_v() == old(self).catalog_v(),
            final(self).complete_v() == old(self).complete_v(),
            final(self).active_v() == old(self).active_v(),
    {
        let mut events: Vec<HarnessEvent> = Vec::new();
        let ghost before = *self;
        self.finalize_pending_recruit_action(clone_opt_string(&timestamp));
        let ghost m1 = *self;
        proof {
            lemma_pending_action_keeps_phase(before, m1, opt_view(timestamp));
        }
        self.pending_user_input = None;
        self.flush_shop_revision(clone_opt_string(&timestamp), &mut events);
        let ghost m2 = *self;
        let ghost e1 = events@;
        let tsx = clone_opt_string(&timestamp);
        let ghost tsx_g = tsx;
        let ghost tsy = timestamp;
        let ghost mut m3 = *self;
        let ghost mut m4 = *self;
        let ghost mut e2 = events@;
        if self.active && !self.complete_seen {
            let ghost m2b = *self;
            self.finalize_current_phase(tsx, &mut events);
            proof {
                m3 = *self;
                e2 = events@;
                lemma_phase_events(m2b, m3, tsx_g, e1, e2);
            }
            self.push_pending_recruit_as_partial_round(&mut events);
            proof {
                m4 = *self;
                reveal(shop_flushed);
                if before.current_raw_turn is Some && before.current_raw_turn->0 % 2 == 0 && before.current_combat is Some {
                    let ev = HarnessEventV::RoundArchived { round_number: before.current_combat->0.round_number };
                    assert(m2b.current_combat == before.current_combat);
                    assert(events_view(e2).last() == ev);
                    assert(events_view(events@).contains(ev)) by {
                        let j = e2.len() - 1;
                        assert(events_view(events@)[j] == ev);
                    }
                }
                if before.current_raw_turn is Some && before.current_raw_turn->0 % 2 == 1 && before.current_recruit is Some {
                    reveal(recruit_finalized);
                    reveal(pending_action_finalized);
                    reveal(recruit_start_step);
                    let n = before.current_recruit->0.round_number;
                    assert(m2b.current_recruit is Some && m2b.current_recruit->0.round_number == n);
                    assert(m3.pending_recruit_archive is Some && m3.pending_recruit_archive->0.round_number == n);
                    let ev = HarnessEventV::RoundArchived { round_number: n };
                    assert(events_view(events@).contains(ev)) by {
                        let j = events@.len() - 1;
                        assert(events_view(events@)[j] == ev);
                    }
                }
            }
            self.archive.ended_at = timestamp;
        }
        self.refresh_metadata();
        proof {
            assert(finish_chain(before, *self, opt_view(timestamp), tsx_g, tsy, m1, m2, m3, m4, e1, e2, events@));
            if before.active_v() && !before.complete_v() && before.raw_turn_v() is Some && before.raw_turn_v()->0 % 2
                == 1 && before.recruit_round_v() is Some {
                lemma_finish_records_action(before, *self, opt_view(timestamp), events@);
            }
        }
        events
    }
}

/// The countdown: `timeout` less the whole seconds in `elapsed_millis`
/// (both as `i32`, wrapping), never below zero.
pub open spec fn seconds_left_v(timeout: i32, elapsed_millis: u128) -> i32 {
    let left = vstd::wrapping::i32_specs::wrapping_sub(timeout, (elapsed_millis / 1000) as i32);
    if left > 0 {
        left
    } else {
        0
    }
}

/// The seconds left of `timeout` after `elapsed_millis`, never below zero.
pub fn seconds_left(timeout: i32, elapsed_millis: u128) -> (r: i32)
    ensures
        r == seconds_left_v(timeout, elapsed_millis),
{
    let elapsed = (elapsed_millis / 1000) as i32;
    let left = timeout.wrapping_sub(elapsed);
    if left > 0 {
        left
    } else {
        0
    }
}

fn clone_cards(cards: &Vec<CardSnapshot>) -> (r: Vec<CardSnapshot>)
    ensures
        cards_view(r@) == cards_view(cards@),
{
    let mut r: Vec<CardSnapshot> = Vec::new();
    let mut i: usize = 0;
    while i < cards.len()
        invariant
            i <= cards@.len(),
            cards_view(r@) == cards_view(cards@).take(i as int),
        decreases cards@.len() - i,
    {
        let c = cards[i].duplicate();
        let ghost before = r@;
        r.push(c);
        assert(cards_view(r@) =~= cards_view(before).push(cards@[i as int]@));
        assert(cards_view(cards@).take(i + 1) =~= cards_view(cards@).take(i as int).push(cards@[i as int]@));
        i += 1;
    }
    assert(cards_view(cards@).take(i as int) =~= cards_view(cards@));
    r
}

fn card_ids_of(cards: &Vec<CardSnapshot>) -> (r: Vec<String>)
    ensures
        strs_view(r@) == card_ids_v(cards_view(cards@)),
{
    let mut r: Vec<String> = Vec::new();
    let mut i: usize = 0;
    while i < cards.len()
        invariant
            i <= cards@.len(),
            strs_view(r@) == card_ids_v(cards_view(cards@).take(i as int)),
        decreases cards@.len() - i,
    {
        let ghost before = r@;
        if let Some(id) = &cards[i].card_id {
            r.push(id.clone());
            assert(strs_view(r@) =~= strs_view(before).push(id@));
        }
        assert(cards_view(cards@).take(i + 1).drop_last() =~= cards_view(cards@).take(i as int));
        i += 1;
    }
    assert(cards_view(cards@).take(i as int) =~= cards_view(cards@));
    r
}

/// The CardIds of the cards that have one, in order.
pub open spec fn card_ids_v(cards: Seq<crate::harness::state::snapshot::CardSnapshotV>) -> Seq<Seq<char>>
    decreases cards.len(),
{
    if cards.len() == 0 {
        Seq::empty()
    } else {
        let prev = card_ids_v(cards.drop_last());
        match cards.last().card_id {
            Some(id) => prev.push(id),
            None => prev,
        }
    }
}

spec fn hero_id_of(h: Option<HeroSnapshot>) -> Option<u32> {
    match h {
        Some(h) => Some(h.entity_id),
        None => None,
    }
}

spec fn hero_effective_of(h: Option<HeroSnapshot>) -> Option<i32> {
    match h {
        Some(h) => h.effective_health,
        None => None,
    }
}

/// A combat builder once its opening snapshot is taken: both heroes are
/// tracked from their effective health in that snapshot.
spec fn combat_started(c: CombatBuilder, s: LiveCombatSnapshot) -> CombatBuilder {
    CombatBuilder {
        player_hero_entity_id: hero_id_of(s.player.hero),
        opponent_hero_entity_id: hero_id_of(s.opponent.hero),
        player_effective_start: hero_effective_of(s.player.hero),
        opponent_effective_start: hero_effective_of(s.opponent.hero),
        player_effective_last: hero_effective_of(s.player.hero),
        opponent_effective_last: hero_effective_of(s.opponent.hero),
        start: Some(s),
        ..c
    }
}

fn record_combat_start(combat: &mut CombatBuilder, snapshot: LiveCombatSnapshot)
    ensures
        *final(combat) == combat_started(*old(combat), snapshot),
{
    let player_id = match &snapshot.player.hero {
        Some(h) => Some(h.entity_id),
        None => None,
    };
    let opponent_id = match &snapshot.opponent.hero {
        Some(h) => Some(h.entity_id),
        None => None,
    };
    let player_effective = match &snapshot.player.hero {
        Some(h) => h.effective_health,
        None => None,
    };
    let opponent_effective = match &snapshot.opponent.hero {
        Some(h) => h.effective_health,
        None => None,
    };
    combat.player_hero_entity_id = player_id;
    combat.opponent_hero_entity_id = opponent_id;
    combat.player_effective_start = player_effective;
    combat.opponent_effective_start = opponent_effective;
    combat.player_effective_last = player_effective;
    combat.opponent_effective_last = opponent_effective;
    combat.start = Some(snapshot);
}

/// Index of the first round numbered at least `n`.
pub open spec fn round_slot(s: Seq<RoundArchive>, n: u32) -> int
    decreases s.len(),
{
    if s.len() == 0 {
        0
    } else if s[0].round_number >= n {
        0
    } else {
        1 + round_slot(s.drop_first(), n)
    }
}

/// Ordered rounds with `r` stored: replacing the record of its number, or
/// inserted at its place.
pub open spec fn upsert_v(s: Seq<RoundArchive>, r: RoundArchive) -> Seq<RoundArchive> {
    let i = round_slot(s, r.round_number);
    if i < s.len() && s[i].round_number == r.round_number {
        s.update(i, r)
    } else {
        s.insert(i, r)
    }
}

proof fn lemma_upsert_matched(s: Seq<RoundArchive>, r: RoundArchive)
    requires
        rounds_ordered(s),
        rounds_matched(s),
        round_matched(r),
    ensures
        rounds_matched(upsert_v(s, r)),
{
    let n = r.round_number;
    lemma_slot_facts(s, n);
    let i = round_slot(s, n);
    let t = upsert_v(s, r);
    if i < s.len() && s[i].round_number == n {
        assert forall|k: int| 0 <= k < t.len() implies round_matched(#[trigger] t[k]) by {
            if k != i {
                assert(t[k] == s[k]);
            }
        }
    } else {
        assert forall|k: int| 0 <= k < t.len() implies round_matched(#[trigger] t[k]) by {
            if k < i {
                assert(t[k] == s[k]);
            } else if k > i {
                assert(t[k] == s[k - 1]);
            }
        }
    }
}

proof fn lemma_upsert_numbered(s: Seq<RoundArchive>, r: RoundArchive)
    requires
        rounds_ordered(s),
        archive_revisions_numbered(s),
        round_revisions_numbered(r),
    ensures
        archive_revisions_numbered(upsert_v(s, r)),
{
    let n = r.round_number;
    lemma_slot_facts(s, n);
    let i = round_slot(s, n);
    let t = upsert_v(s, r);
    if i < s.len() && s[i].round_number == n {
        assert forall|k: int| 0 <= k < t.len() implies round_revisions_numbered(#[trigger] t[k]) by {
            if k != i {
                assert(t[k] == s[k]);
            }
        }
    } else {
        assert forall|k: int| 0 <= k < t.len() implies round_revisions_numbered(#[trigger] t[k]) by {
            if k < i {
                assert(t[k] == s[k]);
            } else if k > i {
                assert(t[k] == s[k - 1]);
            }
        }
    }
}

/// Under ordered rounds, the first round of a number is in range.
proof fn lemma_first_round_in_range(s: Seq<RoundArchive>, n: u32)
    requires
        rounds_ordered(s),
    ensures
        match crate::harness::archive::first_round(s, n) {
            Some(i) => 0 <= i < s.len() && s[i].round_number == n,
            None => true,
        },
{
    if exists|i: int| 0 <= i < s.len() && s[i].round_number == n {
        let w = choose|i: int| 0 <= i < s.len() && s[i].round_number == n;
        assert forall|j: int| 0 <= j < w implies s[j].round_number != n by {
            assert(s[j].round_number < s[w].round_number);
        }
    }
}

proof fn lemma_upsert_position(s: Seq<RoundArchive>, n: u32, i: int)
    requires
        rounds_ordered(s),
        0 <= i <= s.len(),
        forall|k: int| 0 <= k < i ==> s[k].round_number < n,
        i == s.len() || s[i].round_number >= n,
    ensures
        round_slot(s, n) == i,
{
    lemma_slot_facts(s, n);
    let j = round_slot(s, n);
    if j < i {
        assert(s[j].round_number < n);
    } else if j > i {
        assert(s[i].round_number < n);
    }
}

proof fn lemma_slot_facts(s: Seq<RoundArchive>, n: u32)
    requires
        rounds_ordered(s),
    ensures
        0 <= round_slot(s, n) <= s.len(),
        forall|k: int| 0 <= k < round_slot(s, n) ==> #[trigger] s[k].round_number < n,
        round_slot(s, n) < s.len() ==> s[round_slot(s, n)].round_number >= n,
        forall|k: int| round_slot(s, n) <= k < s.len() ==> #[trigger] s[k].round_number >= n,
    decreases s.len(),
{
    if s.len() > 0 && s[0].round_number < n {
        let t = s.drop_first();
        assert(rounds_ordered(t)) by {
            assert forall|a: int, b: int| 0 <= a < b < t.len() implies t[a].round_number < t[b].round_number by {
                assert(s[a + 1].round_number < s[b + 1].round_number);
            }
        }
        lemma_slot_facts(t, n);
        assert forall|k: int| 0 <= k < round_slot(s, n) implies #[trigger] s[k].round_number < n by {
            if k > 0 {
                assert(s[k] == t[k - 1]);
            }
        }
        assert forall|k: int| round_slot(s, n) <= k < s.len() implies #[trigger] s[k].round_number >= n by {
            assert(s[k] == t[k - 1]);
        }
    } else if s.len() > 0 {
        assert forall|k: int| 0 <= k < s.len() implies #[trigger] s[k].round_number >= n by {
            if k > 0 {
                assert(s[0].round_number < s[k].round_number);
            }
        }
    }
}

/// Storing a round keeps rounds ordered, one per number.
pub proof fn lemma_upsert_ordered(s: Seq<RoundArchive>, r: RoundArchive)
    requires
        rounds_ordered(s),
    ensures
        rounds_ordered(upsert_v(s, r)),
{
    let n = r.round_number;
    lemma_slot_facts(s, n);
    let i = round_slot(s, n);
    let t = upsert_v(s, r);
    if i < s.len() && s[i].round_number == n {
        assert(t == s.update(i, r));
        assert forall|a: int, b: int| 0 <= a < b < t.len() implies t[a].round_number < t[b].round_number by {
            assert(s[a].round_number < s[b].round_number);
        }
    } else {
        assert(t == s.insert(i, r));
        assert forall|k: int| i <= k < s.len() implies #[trigger] s[k].round_number > n by {
            if k == i {
            } else {
                assert(s[i].round_number < s[k].round_number);
            }
        }
        assert forall|a: int, b: int| 0 <= a < b < t.len() implies t[a].round_number < t[b].round_number by {
            if b < i {
                assert(s[a].round_number < s[b].round_number);
            } else if b == i {
                assert(s[a].round_number < n);
            } else if a < i {
                assert(t[b] == s[b - 1]);
                assert(s[b - 1].round_number > n);
            } else if a == i {
                assert(t[b] == s[b - 1]);
                assert(s[b - 1].round_number > n);
            } else {
                assert(t[a] == s[a - 1]);
                assert(t[b] == s[b - 1]);
                assert(s[a - 1].round_number < s[b - 1].round_number);
            }
        }
    }
}

} // verus!
