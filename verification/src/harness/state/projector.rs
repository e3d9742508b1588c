//! Projects the entity store into the snapshots that the runtime records.

use vstd::prelude::*;

use crate::harness::card_catalog::{opt_str_view, CardCatalog, ResolvedV};
use crate::harness::power::event::{clone_opt_string, opt_view, TagValueV};
use crate::harness::state::entity_store::{tag_sym, to_i32, Entity, EntityStore, EntityV};
use crate::harness::state::snapshot::{
    card_v, cards_view, dynamic_tags_v, first_of, fitting_u8, fitting_u8_of, hero_v, i32_tag,
    i32_tag_v, opt_hero_view, opt_power_view, or_i32, owned_str, r_card_type, r_cost, r_name,
    r_text, resolve_opt, resolved_v, selected_dynamic_tags, truthy, truthy_v,
    trustworthy_entity_name, trustworthy_name_v, valid_card_type_tag, CardSnapshot, CardSnapshotV,
    lobby_view, CombatSideSnapshot, HeroPowerSnapshot, HeroPowerSnapshotV, HeroSnapshot,
    HeroSnapshotV, LiveCombatSnapshot, LiveCombatV, LobbyPlayerSnapshot, LobbyPlayerV,
    RecruitSnapshot, RecruitSnapshotV,
};
use crate::text::{
    chars_eq, chars_of, eq_ignore_ascii_case, find, find_exec, nat_text, starts_with,
    starts_with_exec, u64_text,
};

verus! {

broadcast use vstd::seq_lib::group_to_multiset_ensures, vstd::multiset::group_multiset_axioms;

pub open spec fn symbol_is(e: EntityV, tag: Seq<char>, want: Seq<char>) -> bool {
    tag_sym(e.tags, tag) == Some(want)
}

pub fn entity_symbol_is(e: &Entity, tag: &str, want: &str) -> (r: bool)
    ensures
        r == symbol_is(e@, tag@, want@),
{
    match e.tag_symbol(tag) {
        Some(s) => chars_eq(&chars_of(s), &chars_of(want)),
        None => false,
    }
}

pub open spec fn controlled_by(e: EntityV, p: i32) -> bool {
    i32_tag_v(e, "CONTROLLER"@) == Some(p)
}

pub open spec fn positioned(e: EntityV) -> bool {
    match i32_tag_v(e, "ZONE_POSITION"@) {
        Some(x) => x > 0,
        None => false,
    }
}

fn entity_positioned(e: &Entity) -> (r: bool)
    ensures
        r == positioned(e@),
{
    match i32_tag(e, "ZONE_POSITION") {
        Some(x) => x > 0,
        None => false,
    }
}

pub open spec fn id_is(e: EntityV, id: Seq<char>) -> bool {
    e.card_id == Some(id)
}

fn card_id_is(e: &Entity, id: &str) -> (r: bool)
    ensures
        r == id_is(e@, id@),
{
    match &e.card_id {
        Some(c) => chars_eq(&chars_of(c.as_str()), &chars_of(id)),
        None => false,
    }
}

/// Minion, Battlegrounds spell or spell: what Bob's tavern offers.
pub open spec fn is_shop_card_type(t: Option<Seq<char>>) -> bool {
    t == Some("MINION"@) || t == Some("BATTLEGROUND_SPELL"@) || t == Some("SPELL"@)
}

/// A card of the tavern: it has a CardId, and its live type, or else its
/// static type, is one the tavern offers.
pub open spec fn shop_card(e: EntityV, cat: Option<&CardCatalog>) -> bool {
    &&& e.card_id is Some
    &&& e.card_id->0.len() > 0
    &&& is_shop_card_type(first_of(valid_card_type_tag(e), r_card_type(resolved_v(e.card_id, cat))))
}

pub open spec fn board_member(e: EntityV, local: i32) -> bool {
    controlled_by(e, local) && symbol_is(e, "ZONE"@, "PLAY"@) && symbol_is(e, "CARDTYPE"@, "MINION"@)
        && positioned(e)
}

pub open spec fn hand_member(e: EntityV, local: i32) -> bool {
    controlled_by(e, local) && symbol_is(e, "ZONE"@, "HAND"@) && e.card_id is Some && !symbol_is(
        e,
        "CARDTYPE"@,
        "HERO"@,
    )
}

pub open spec fn shop_member(e: EntityV, dummy: i32, cat: Option<&CardCatalog>) -> bool {
    controlled_by(e, dummy) && symbol_is(e, "ZONE"@, "PLAY"@) && positioned(e) && shop_card(e, cat)
}

pub open spec fn trinket_member(e: EntityV, local: i32) -> bool {
    controlled_by(e, local) && symbol_is(e, "ZONE"@, "PLAY"@) && symbol_is(
        e,
        "CARDTYPE"@,
        "BATTLEGROUND_TRINKET"@,
    ) && !id_is(e, "BG30_Trinket_1st"@) && !id_is(e, "BG30_Trinket_2nd"@)
}

/// The cards of entities that satisfy `p`, in walking order.
pub open spec fn select_cards(
    s: Seq<(i64, EntityV)>,
    p: spec_fn(EntityV) -> bool,
    cat: Option<&CardCatalog>,
) -> Seq<CardSnapshotV>
    decreases s.len(),
{
    if s.len() == 0 {
        Seq::empty()
    } else {
        let prev = select_cards(s.drop_last(), p, cat);
        let e = s.last().1;
        if p(e) {
            prev.push(card_v(e, resolved_v(e.card_id, cat)))
        } else {
            prev
        }
    }
}

pub open spec fn position_key(c: CardSnapshotV) -> int {
    match c.zone_position {
        Some(p) => p as int,
        None => i32::MAX as int,
    }
}

/// Display order: by zone position (unplaced cards last), then entity id.
pub open spec fn card_le(a: CardSnapshotV, b: CardSnapshotV) -> bool {
    position_key(a) < position_key(b) || (position_key(a) == position_key(b) && a.entity_id
        <= b.entity_id)
}

pub open spec fn cards_sorted(s: Seq<CardSnapshotV>) -> bool {
    forall|i: int, j: int| 0 <= i < j < s.len() ==> card_le(s[i], s[j])
}

/// `s` holds exactly the cards of `src`, in display order.
pub open spec fn displayed(s: Seq<CardSnapshotV>, src: Seq<CardSnapshotV>) -> bool {
    cards_sorted(s) && s.to_multiset() == src.to_multiset()
}

fn card_before(a: &CardSnapshot, b: &CardSnapshot) -> (r: bool)
    ensures
        r == !card_le(b@, a@),
{
    let pa: i32 = match a.zone_position {
        Some(p) => p,
        None => i32::MAX,
    };
    let pb: i32 = match b.zone_position {
        Some(p) => p,
        None => i32::MAX,
    };
    pa < pb || (pa == pb && a.entity_id < b.entity_id)
}

/// Inserts `c` at its place in display order.
fn insert_card(v: &mut Vec<CardSnapshot>, c: CardSnapshot)
    requires
        cards_sorted(cards_view(old(v)@)),
    ensures
        cards_sorted(cards_view(final(v)@)),
        cards_view(final(v)@).to_multiset() == cards_view(old(v)@).to_multiset().insert(c@),
{
    let ghost s = cards_view(v@);
    let mut j: usize = 0;
    while j < v.len() && !card_before(&c, &v[j])
        invariant
            j <= v.len(),
            cards_view(v@) == s,
            forall|k: int| 0 <= k < j ==> card_le(#[trigger] s[k], c@),
        decreases v.len() - j,
    {
        j += 1;
    }
    let ghost cv = c@;
    v.insert(j, c);
    let ghost t = cards_view(v@);
    assert(t =~= s.insert(j as int, cv));
    assert(t.remove(j as int) =~= s);
    assert(t[j as int] == cv);
    assert(t.to_multiset().contains(cv)) by {
        assert(t.contains(cv));
    }
    assert(t.to_multiset() =~= s.to_multiset().insert(cv));
    assert forall|a: int, b: int| 0 <= a < b < t.len() implies card_le(t[a], t[b]) by {
        if b < j {
        } else if a < j && b == j {
        } else if a < j && b > j {
            assert(card_le(s[a], cv));
            if j < s.len() {
                assert(card_le(cv, s[j as int]));
                assert(card_le(s[j as int], s[b - 1]) || j == b - 1);
            }
        } else if a == j {
            assert(card_le(cv, s[j as int]));
            assert(card_le(s[j as int], s[b - 1]) || j == b - 1);
        } else {
        }
    }
}

/// The lists a projector can draw from the store.
enum CardList {
    Board,
    Hand,
    Shop,
    Trinkets,
}

spec fn list_member(kind: CardList, e: EntityV, owner: i32, cat: Option<&CardCatalog>) -> bool {
    match kind {
        CardList::Board => board_member(e, owner),
        CardList::Hand => hand_member(e, owner),
        CardList::Shop => shop_member(e, owner, cat),
        CardList::Trinkets => trinket_member(e, owner),
    }
}

pub struct StateProjector<'a> {
    store: &'a EntityStore,
    catalog: Option<&'a CardCatalog>,
}

impl<'a> StateProjector<'a> {
    pub closed spec fn store(&self) -> &'a EntityStore {
        self.store
    }

    pub closed spec fn catalog(&self) -> Option<&'a CardCatalog> {
        self.catalog
    }

    /// The projector over `store` with `catalog`.
    pub closed spec fn spec_of(store: &'a EntityStore, catalog: Option<&'a CardCatalog>) -> StateProjector<'a> {
        StateProjector { store, catalog }
    }

    pub open spec fn entities(&self) -> Seq<(i64, EntityV)> {
        self.store().entity_seq()
    }

    pub open spec fn local_v(&self) -> Option<i32> {
        self.store().first_player_with(true)
    }

    pub open spec fn dummy_v(&self) -> Option<i32> {
        self.store().first_player_with(false)
    }

    pub fn new(store: &'a EntityStore) -> (r: StateProjector<'a>)
        ensures
            r.store() == store,
            r.catalog() is None,
    {
        StateProjector { store, catalog: None }
    }

    pub fn with_catalog(store: &'a EntityStore, catalog: &'a CardCatalog) -> (r: StateProjector<'a>)
        ensures
            r.store() == store,
            r.catalog() == Some(catalog),
            r == StateProjector::spec_of(store, Some(catalog)),
    {
        StateProjector { store, catalog: Some(catalog) }
    }

    pub fn local_player_id(&self) -> (r: Option<i32>)
        ensures
            r == self.local_v(),
    {
        self.store.local_player_id()
    }

    /// Whether the projector's catalog names `e` as a tavern card.
    fn is_shop_card_entity(&self, e: &Entity) -> (r: bool)
        ensures
            r == shop_card(e@, self.catalog()),
    {
        let dynamic: Option<&str> = match e.tag_symbol("CARDTYPE") {
            Some(s) => if eq_ignore_ascii_case(&chars_of(s), &chars_of("INVALID")) {
                None
            } else {
                Some(s)
            },
            None => None,
        };
        let resolved = crate::harness::state::snapshot::resolve_opt(&e.card_id, self.catalog);
        let static_type: Option<&str> = match resolved {
            Some(c) => c.card_type(),
            None => None,
        };
        let t = match dynamic {
            Some(_) => dynamic,
            None => static_type,
        };
        let shop_type = match t {
            Some(s) => {
                let c = chars_of(s);
                chars_eq(&c, &chars_of("MINION")) || chars_eq(&c, &chars_of("BATTLEGROUND_SPELL"))
                    || chars_eq(&c, &chars_of("SPELL"))
            },
            None => false,
        };
        let nonempty = match &e.card_id {
            Some(id) => chars_of(id.as_str()).len() > 0,
            None => false,
        };
        nonempty && shop_type
    }

    fn member(&self, kind: &CardList, e: &Entity, owner: i32) -> (r: bool)
        ensures
            r == list_member(*kind, e@, owner, self.catalog()),
    {
        let controlled = match i32_tag(e, "CONTROLLER") {
            Some(c) => c == owner,
            None => false,
        };
        match kind {
            CardList::Board => controlled && entity_symbol_is(e, "ZONE", "PLAY") && entity_symbol_is(
                e,
                "CARDTYPE",
                "MINION",
            ) && entity_positioned(e),
            CardList::Hand => controlled && entity_symbol_is(e, "ZONE", "HAND") && e.card_id.is_some()
                && !entity_symbol_is(e, "CARDTYPE", "HERO"),
            CardList::Shop => controlled && entity_symbol_is(e, "ZONE", "PLAY") && entity_positioned(e)
                && self.is_shop_card_entity(e),
            CardList::Trinkets => controlled && entity_symbol_is(e, "ZONE", "PLAY") && entity_symbol_is(
                e,
                "CARDTYPE",
                "BATTLEGROUND_TRINKET",
            ) && !card_id_is(e, "BG30_Trinket_1st") && !card_id_is(e, "BG30_Trinket_2nd"),
        }
    }

    /// Snapshots of the entities on `kind`'s list for `owner`, in display order.
    fn collect(&self, kind: CardList, owner: i32, Ghost(p): Ghost<spec_fn(EntityV) -> bool>) -> (r: Vec<
        CardSnapshot,
    >)
        requires
            forall|e: EntityV| #[trigger] p(e) == list_member(kind, e, owner, self.catalog()),
        ensures
            displayed(cards_view(r@), select_cards(self.entities(), p, self.catalog())),
    {
        let ghost s = self.entities();
        let mut r: Vec<CardSnapshot> = Vec::new();
        assert(cards_view(r@) =~= Seq::<CardSnapshotV>::empty());
        assert(s.take(0) =~= Seq::<(i64, EntityV)>::empty());
        let mut i: usize = 0;
        while i < self.store.entity_count()
            invariant
                i <= s.len(),
                s == self.entities(),
                forall|e: EntityV| #[trigger] p(e) == list_member(kind, e, owner, self.catalog()),
                cards_sorted(cards_view(r@)),
                cards_view(r@).to_multiset() == select_cards(s.take(i as int), p, self.catalog()).to_multiset(),
            decreases s.len() - i,
        {
            let e = self.store.entity_at(i);
            assert(s.take(i + 1).drop_last() =~= s.take(i as int));
            assert(s.take(i + 1).last() == s[i as int]);
            if self.member(&kind, e, owner) {
                let c = CardSnapshot::from_entity_with_catalog(e, self.catalog);
                insert_card(&mut r, c);
            }
            i += 1;
        }
        assert(s.take(s.len() as int) =~= s);
        r
    }

    pub open spec fn board_v(&self, local: i32) -> Seq<CardSnapshotV> {
        select_cards(self.entities(), |e: EntityV| board_member(e, local), self.catalog())
    }

    pub open spec fn hand_v(&self, local: i32) -> Seq<CardSnapshotV> {
        select_cards(self.entities(), |e: EntityV| hand_member(e, local), self.catalog())
    }

    pub open spec fn shop_v(&self, dummy: i32) -> Seq<CardSnapshotV> {
        select_cards(self.entities(), |e: EntityV| shop_member(e, dummy, self.catalog()), self.catalog())
    }

    pub open spec fn trinkets_v(&self, local: i32) -> Seq<CardSnapshotV> {
        select_cards(self.entities(), |e: EntityV| trinket_member(e, local), self.catalog())
    }

    /// The local player's minions in play, in board order.
    pub fn board(&self) -> (r: Vec<CardSnapshot>)
        ensures
            match self.local_v() {
                Some(local) => displayed(cards_view(r@), self.board_v(local)),
                None => r@.len() == 0,
            },
    {
        match self.local_player_id() {
            Some(local) => self.collect(CardList::Board, local, Ghost(|e: EntityV| board_member(e, local))),
            None => Vec::new(),
        }
    }

    /// The local player's cards in hand, heroes excepted.
    pub fn hand(&self) -> (r: Vec<CardSnapshot>)
        ensures
            match self.local_v() {
                Some(local) => displayed(cards_view(r@), self.hand_v(local)),
                None => r@.len() == 0,
            },
    {
        match self.local_player_id() {
            Some(local) => self.collect(CardList::Hand, local, Ghost(|e: EntityV| hand_member(e, local))),
            None => Vec::new(),
        }
    }

    /// Bob's tavern offer: tavern cards placed in play by the dummy player.
    pub fn shop(&self) -> (r: Vec<CardSnapshot>)
        ensures
            match self.dummy_v() {
                Some(dummy) => displayed(cards_view(r@), self.shop_v(dummy)),
                None => r@.len() == 0,
            },
    {
        match self.store.dummy_player_id() {
            Some(dummy) => self.collect(
                CardList::Shop,
                dummy,
                Ghost(|e: EntityV| shop_member(e, dummy, self.catalog())),
            ),
            None => Vec::new(),
        }
    }

    /// The local player's trinkets in play, the placement trinkets excepted.
    pub fn trinkets(&self) -> (r: Vec<CardSnapshot>)
        ensures
            match self.local_v() {
                Some(local) => displayed(cards_view(r@), self.trinkets_v(local)),
                None => r@.len() == 0,
            },
    {
        match self.local_player_id() {
            Some(local) => self.collect(
                CardList::Trinkets,
                local,
                Ghost(|e: EntityV| trinket_member(e, local)),
            ),
            None => Vec::new(),
        }
    }

    /// The minions in play that the dummy player controls during combat.
    fn opponent_board(&self) -> (r: Vec<CardSnapshot>)
        ensures
            match self.dummy_v() {
                Some(dummy) => displayed(cards_view(r@), self.board_v(dummy)),
                None => r@.len() == 0,
            },
    {
        match self.store.dummy_player_id() {
            Some(dummy) => self.collect(CardList::Board, dummy, Ghost(|e: EntityV| board_member(e, dummy))),
            None => Vec::new(),
        }
    }
}


pub open spec fn player_i32_v(store: &EntityStore, pid: i32, tag: Seq<char>) -> Option<i32> {
    to_i32(
        match store.spec_player_tag(pid, tag) {
            Some(TagValueV::Int(v)) => Some(v),
            _ => None,
        },
    )
}

pub open spec fn player_symbol_v(store: &EntityStore, pid: i32, tag: Seq<char>) -> Option<Seq<char>> {
    match store.spec_player_tag(pid, tag) {
        Some(TagValueV::Symbol(v)) => Some(v),
        _ => None,
    }
}

pub open spec fn place_v(store: &EntityStore, pid: i32) -> Option<i32> {
    if store@.places.contains_key(pid as i64) {
        Some(store@.places[pid as i64])
    } else {
        None
    }
}

pub open spec fn name_v(store: &EntityStore, pid: i32) -> Option<Seq<char>> {
    if store@.player_names.contains_key(pid as i64) {
        Some(store@.player_names[pid as i64])
    } else {
        None
    }
}

/// Index of the candidate kept by a scan in walking order that keeps the
/// first candidate and replaces the kept one whenever `better(new, kept)`.
/// With "at least as large" this is what `Iterator::max_by_key` picks; with
/// "strictly larger" it is the first maximum.
pub open spec fn scan_best(
    s: Seq<(i64, EntityV)>,
    cand: spec_fn(EntityV) -> bool,
    ge: spec_fn(EntityV, EntityV) -> bool,
) -> Option<int>
    decreases s.len(),
{
    if s.len() == 0 {
        None
    } else {
        let prev = scan_best(s.drop_last(), cand, ge);
        let e = s.last().1;
        if cand(e) && (prev is None || ge(e, s[prev->0].1)) {
            Some(s.len() - 1)
        } else {
            prev
        }
    }
}

/// Index of the first entity that satisfies `p`.
pub open spec fn first_match(s: Seq<(i64, EntityV)>, p: spec_fn(EntityV) -> bool) -> Option<int>
    decreases s.len(),
{
    if s.len() == 0 {
        None
    } else {
        match first_match(s.drop_last(), p) {
            Some(i) => Some(i),
            None => if p(s.last().1) {
                Some(s.len() - 1)
            } else {
                None
            },
        }
    }
}

pub open spec fn any_match(s: Seq<(i64, EntityV)>, p: spec_fn(EntityV) -> bool) -> bool
    decreases s.len(),
{
    s.len() > 0 && (any_match(s.drop_last(), p) || p(s.last().1))
}

/// The least COST among entities that satisfy `p` and have one.
pub open spec fn min_cost(s: Seq<(i64, EntityV)>, p: spec_fn(EntityV) -> bool) -> Option<i32>
    decreases s.len(),
{
    if s.len() == 0 {
        None
    } else {
        let prev = min_cost(s.drop_last(), p);
        let e = s.last().1;
        match (p(e), i32_tag_v(e, "COST"@)) {
            (true, Some(c)) => match prev {
                Some(m) => Some(if c < m { c } else { m }),
                None => Some(c),
            },
            _ => prev,
        }
    }
}

pub open spec fn entity_at_v(s: Seq<(i64, EntityV)>, i: Option<int>) -> Option<EntityV> {
    match i {
        Some(k) => Some(s[k].1),
        None => None,
    }
}

pub open spec fn opt_entity_view(e: Option<&Entity>) -> Option<EntityV> {
    match e {
        Some(x) => Some(x@),
        None => None,
    }
}

pub open spec fn results_clone(e: EntityV) -> bool {
    truthy_v(e, "BACON_PLAYER_RESULTS_HERO_OVERRIDE"@)
}

pub open spec fn hero_candidate(e: EntityV, pid: i32) -> bool {
    symbol_is(e, "CARDTYPE"@, "HERO"@) && i32_tag_v(e, "PLAYER_ID"@) == Some(pid) && !results_clone(e)
}

/// How much a hero entity is preferred as the player's hero: for the local
/// player the one in play, for others the one set aside.
pub open spec fn zone_score(e: EntityV, local: bool) -> int {
    if local && symbol_is(e, "ZONE"@, "PLAY"@) {
        4
    } else if !local && symbol_is(e, "ZONE"@, "SETASIDE"@) {
        4
    } else if symbol_is(e, "ZONE"@, "PLAY"@) {
        3
    } else if symbol_is(e, "ZONE"@, "SETASIDE"@) {
        2
    } else {
        1
    }
}

pub open spec fn hero_pref_ge(a: EntityV, b: EntityV, local: bool) -> bool {
    zone_score(a, local) > zone_score(b, local) || (zone_score(a, local) == zone_score(b, local) && a.id
        >= b.id)
}

pub open spec fn hero_pref_gt(a: EntityV, b: EntityV, local: bool) -> bool {
    zone_score(a, local) > zone_score(b, local) || (zone_score(a, local) == zone_score(b, local) && a.id
        > b.id)
}

pub open spec fn best_hero(s: Seq<(i64, EntityV)>, pid: i32, local: bool) -> Option<EntityV> {
    entity_at_v(
        s,
        scan_best(s, |e: EntityV| hero_candidate(e, pid), |a: EntityV, b: EntityV| hero_pref_ge(a, b, local)),
    )
}

pub open spec fn play_hero_candidate(e: EntityV, pid: i32) -> bool {
    hero_candidate(e, pid) && symbol_is(e, "ZONE"@, "PLAY"@)
}

pub open spec fn power_candidate(e: EntityV, local: i32) -> bool {
    controlled_by(e, local) && symbol_is(e, "CARDTYPE"@, "HERO_POWER"@) && (symbol_is(e, "ZONE"@, "PLAY"@)
        || symbol_is(e, "ZONE"@, "SETASIDE"@))
}

pub open spec fn power_ge(a: EntityV, b: EntityV) -> bool {
    let pa = symbol_is(a, "ZONE"@, "PLAY"@);
    let pb = symbol_is(b, "ZONE"@, "PLAY"@);
    (pa && !pb) || (pa == pb && a.id >= b.id)
}

pub open spec fn reroll_button(e: EntityV) -> bool {
    (id_is(e, "TB_BaconShop_8p_Reroll_Button"@) || id_is(e, "TB_BaconShop_8P_Reroll_Button"@)) && symbol_is(
        e,
        "ZONE"@,
        "PLAY"@,
    )
}

/// `format!("{:02}", t)`.
pub open spec fn two_digit(t: u8) -> Seq<char> {
    if t < 10 {
        seq!['0'] + nat_text(t as nat)
    } else {
        nat_text(t as nat)
    }
}

/// A tavern-upgrade button in play for tier `target`.
pub open spec fn tech_up_button(e: EntityV, target: u8) -> bool {
    &&& e.card_id is Some
    &&& starts_with(e.card_id->0, "TB_BaconShopTechUp"@)
    &&& symbol_is(e, "ZONE"@, "PLAY"@)
    &&& (i32_tag_v(e, "TECH_LEVEL"@) == Some(target as i32) || find(e.card_id->0, two_digit(target)) is Some)
}

pub open spec fn lock_button(e: EntityV) -> bool {
    id_is(e, "TB_BaconShopLockAll_Button"@) && symbol_is(e, "ZONE"@, "PLAY"@)
}

pub open spec fn frozen_v(e: EntityV) -> bool {
    truthy_v(e, "FROZEN"@) || truthy_v(e, "BACON_IS_FROZEN"@)
}

pub open spec fn hero_with_place(store: &EntityStore, cat: Option<&CardCatalog>, pid: i32, e: EntityV) -> HeroSnapshotV {
    let h = hero_v(e, resolved_v(e.card_id, cat));
    HeroSnapshotV { leaderboard_place: first_of(fitting_u8(place_v(store, pid)), h.leaderboard_place), ..h }
}

pub open spec fn power_v(e: EntityV, r: Option<ResolvedV>) -> HeroPowerSnapshotV {
    let exhausted = truthy_v(e, "EXHAUSTED"@);
    HeroPowerSnapshotV {
        entity_id: e.id,
        card_id: e.card_id,
        name: first_of(r_name(r), trustworthy_name_v(e.name)),
        text: r_text(r),
        cost: first_of(i32_tag_v(e, "COST"@), r_cost(r)),
        exhausted,
        available: !exhausted && !truthy_v(e, "CANT_PLAY"@),
        dynamic_tags: dynamic_tags_v(e.tags),
    }
}

pub open spec fn gold_of(resources: i32, temp: i32, used: i32) -> i32 {
    let g = vstd::wrapping::i32_specs::wrapping_sub(
        vstd::wrapping::i32_specs::wrapping_add(resources, temp),
        used,
    );
    if g > 0 {
        g
    } else {
        0
    }
}

pub open spec fn unwrap_or_i32(o: Option<i32>, d: i32) -> i32 {
    match o {
        Some(v) => v,
        None => d,
    }
}

/// Kinds of single-entity picks that the projector makes.
enum Pick {
    Hero(i32, bool),
    PlayHero(i32),
    Power(i32),
    LobbyHero(i32, bool),
}

spec fn pick_cand(k: Pick, e: EntityV) -> bool {
    match k {
        Pick::Hero(pid, _) => hero_candidate(e, pid),
        Pick::PlayHero(pid) => play_hero_candidate(e, pid),
        Pick::Power(local) => power_candidate(e, local),
        Pick::LobbyHero(pid, _) => hero_candidate(e, pid),
    }
}

spec fn pick_ge(k: Pick, a: EntityV, b: EntityV) -> bool {
    match k {
        Pick::Hero(_, local) => hero_pref_ge(a, b, local),
        Pick::PlayHero(_) => a.id >= b.id,
        Pick::Power(_) => power_ge(a, b),
        Pick::LobbyHero(_, local) => hero_pref_gt(a, b, local),
    }
}

/// Kinds of cost lookups.
enum CostOf {
    Reroll,
    TechUp(u8),
}

spec fn cost_cand(k: CostOf, e: EntityV) -> bool {
    match k {
        CostOf::Reroll => reroll_button(e),
        CostOf::TechUp(t) => tech_up_button(e, t),
    }
}

fn zone_score_of(e: &Entity, local: bool) -> (r: i32)
    ensures
        r == zone_score(e@, local),
{
    let play = entity_symbol_is(e, "ZONE", "PLAY");
    let aside = entity_symbol_is(e, "ZONE", "SETASIDE");
    if local && play {
        4
    } else if !local && aside {
        4
    } else if play {
        3
    } else if aside {
        2
    } else {
        1
    }
}

fn is_results_hero_clone(e: &Entity) -> (r: bool)
    ensures
        r == results_clone(e@),
{
    crate::harness::state::snapshot::truthy(e, "BACON_PLAYER_RESULTS_HERO_OVERRIDE")
}

fn hero_candidate_of(e: &Entity, pid: i32) -> (r: bool)
    ensures
        r == hero_candidate(e@, pid),
{
    entity_symbol_is(e, "CARDTYPE", "HERO") && i32_tag(e, "PLAYER_ID") == Some(pid) && !is_results_hero_clone(e)
}

fn pick_cand_of(k: &Pick, e: &Entity) -> (r: bool)
    ensures
        r == pick_cand(*k, e@),
{
    match k {
        Pick::Hero(pid, _) => hero_candidate_of(e, *pid),
        Pick::LobbyHero(pid, _) => hero_candidate_of(e, *pid),
        Pick::PlayHero(pid) => hero_candidate_of(e, *pid) && entity_symbol_is(e, "ZONE", "PLAY"),
        Pick::Power(local) => i32_tag(e, "CONTROLLER") == Some(*local) && entity_symbol_is(
            e,
            "CARDTYPE",
            "HERO_POWER",
        ) && (entity_symbol_is(e, "ZONE", "PLAY") || entity_symbol_is(e, "ZONE", "SETASIDE")),
    }
}

fn pick_ge_of(k: &Pick, a: &Entity, b: &Entity) -> (r: bool)
    ensures
        r == pick_ge(*k, a@, b@),
{
    match k {
        Pick::Hero(_, local) => {
            let sa = zone_score_of(a, *local);
            let sb = zone_score_of(b, *local);
            sa > sb || (sa == sb && a.id >= b.id)
        },
        Pick::LobbyHero(_, local) => {
            let sa = zone_score_of(a, *local);
            let sb = zone_score_of(b, *local);
            sa > sb || (sa == sb && a.id > b.id)
        },
        Pick::PlayHero(_) => a.id >= b.id,
        Pick::Power(_) => {
            let pa = entity_symbol_is(a, "ZONE", "PLAY");
            let pb = entity_symbol_is(b, "ZONE", "PLAY");
            (pa && !pb) || (pa == pb && a.id >= b.id)
        },
    }
}

fn two_digit_exec(t: u8) -> (r: Vec<char>)
    ensures
        r@ == two_digit(t),
{
    let d = u64_text(t as u64);
    if t < 10 {
        let mut r: Vec<char> = Vec::new();
        r.push('0');
        let mut i: usize = 0;
        while i < d.len()
            invariant
                i <= d.len(),
                r@ == seq!['0'] + d@.take(i as int),
            decreases d.len() - i,
        {
            r.push(d[i]);
            assert(d@.take(i + 1) == d@.take(i as int).push(d@[i as int]));
            i += 1;
        }
        assert(d@.take(d.len() as int) == d@);
        r
    } else {
        d
    }
}

fn cost_cand_of(k: &CostOf, e: &Entity) -> (r: bool)
    ensures
        r == cost_cand(*k, e@),
{
    match k {
        CostOf::Reroll => (card_id_is(e, "TB_BaconShop_8p_Reroll_Button") || card_id_is(
            e,
            "TB_BaconShop_8P_Reroll_Button",
        )) && entity_symbol_is(e, "ZONE", "PLAY"),
        CostOf::TechUp(t) => match &e.card_id {
            Some(id) => {
                let idc = chars_of(id.as_str());
                starts_with_exec(&idc, &chars_of("TB_BaconShopTechUp")) && entity_symbol_is(e, "ZONE", "PLAY")
                    && (i32_tag(e, "TECH_LEVEL") == Some(*t as i32) || find_exec(&idc, &two_digit_exec(*t)).is_some())
            },
            None => false,
        },
    }
}

impl<'a> StateProjector<'a> {
    /// The entity that `max_by_key` would pick for `k`.
    fn pick(&self, k: Pick, Ghost(cand): Ghost<spec_fn(EntityV) -> bool>, Ghost(ge): Ghost<spec_fn(EntityV, EntityV) -> bool>) -> (r: Option<&'a Entity>)
        requires
            forall|e: EntityV| #[trigger] cand(e) == pick_cand(k, e),
            forall|a: EntityV, b: EntityV| #[trigger] ge(a, b) == pick_ge(k, a, b),
        ensures
            opt_entity_view(r) == entity_at_v(self.entities(), scan_best(self.entities(), cand, ge)),
    {
        let ghost s = self.entities();
        let store: &'a EntityStore = self.store;
        let mut best: Option<usize> = None;
        let mut i: usize = 0;
        while i < store.entity_count()
            invariant
                i <= s.len(),
                s == self.entities(),
                store == self.store(),
                forall|e: EntityV| #[trigger] cand(e) == pick_cand(k, e),
                forall|a: EntityV, b: EntityV| #[trigger] ge(a, b) == pick_ge(k, a, b),
                match best {
                    Some(b) => b < i && scan_best(s.take(i as int), cand, ge) == Some(b as int),
                    None => scan_best(s.take(i as int), cand, ge) is None,
                },
            decreases s.len() - i,
        {
            let e = store.entity_at(i);
            let ghost t = s.take(i + 1);
            assert(t.drop_last() =~= s.take(i as int));
            assert(t.last() == s[i as int]);
            if pick_cand_of(&k, e) {
                match best {
                    None => {
                        best = Some(i);
                    },
                    Some(b) => {
                        assert(t[b as int] == s[b as int]);
                        if pick_ge_of(&k, e, store.entity_at(b)) {
                            best = Some(i);
                        }
                    },
                }
            }
            i += 1;
        }
        assert(s.take(s.len() as int) =~= s);
        match best {
            Some(b) => Some(store.entity_at(b)),
            None => None,
        }
    }

    /// The least COST that `max`-free scanning finds for `k`.
    fn min_cost_of(&self, k: CostOf, Ghost(p): Ghost<spec_fn(EntityV) -> bool>) -> (r: Option<i32>)
        requires
            forall|e: EntityV| #[trigger] p(e) == cost_cand(k, e),
        ensures
            r == min_cost(self.entities(), p),
    {
        let ghost s = self.entities();
        let mut best: Option<i32> = None;
        let mut i: usize = 0;
        while i < self.store.entity_count()
            invariant
                i <= s.len(),
                s == self.entities(),
                forall|e: EntityV| #[trigger] p(e) == cost_cand(k, e),
                best == min_cost(s.take(i as int), p),
            decreases s.len() - i,
        {
            let e = self.store.entity_at(i);
            let ghost t = s.take(i + 1);
            assert(t.drop_last() =~= s.take(i as int));
            assert(t.last() == s[i as int]);
            if cost_cand_of(&k, e) {
                match i32_tag(e, "COST") {
                    Some(c) => {
                        best = match best {
                            Some(m) => Some(if c < m { c } else { m }),
                            None => Some(c),
                        };
                    },
                    None => {},
                }
            }
            i += 1;
        }
        assert(s.take(s.len() as int) =~= s);
        best
    }

    fn player_i32(&self, player_id: i32, tag: &str) -> (r: Option<i32>)
        ensures
            r == player_i32_v(self.store(), player_id, tag@),
    {
        match self.store.player_tag(player_id, tag) {
            Some(v) => match v.as_i64() {
                Some(x) => if i32::MIN as i64 <= x && x <= i32::MAX as i64 {
                    Some(x as i32)
                } else {
                    None
                },
                None => None,
            },
            None => None,
        }
    }

    fn player_symbol(&self, player_id: i32, tag: &str) -> (r: Option<&'a str>)
        ensures
            opt_str_view(r) == player_symbol_v(self.store(), player_id, tag@),
    {
        let store: &'a EntityStore = self.store;
        match store.player_tag(player_id, tag) {
            Some(v) => v.as_str(),
            None => None,
        }
    }

    pub open spec fn hero_entity_v(&self, pid: i32, local: bool) -> Option<EntityV> {
        best_hero(self.entities(), pid, local)
    }

    fn hero_entity_for_player(&self, player_id: i32, local: bool) -> (r: Option<&'a Entity>)
        ensures
            opt_entity_view(r) == self.hero_entity_v(player_id, local),
    {
        self.pick(
            Pick::Hero(player_id, local),
            Ghost(|e: EntityV| hero_candidate(e, player_id)),
            Ghost(|a: EntityV, b: EntityV| hero_pref_ge(a, b, local)),
        )
    }

    fn placed_hero(&self, player_id: i32, entity: &Entity) -> (r: HeroSnapshot)
        ensures
            r@ == hero_with_place(self.store(), self.catalog(), player_id, entity@),
    {
        let mut hero = HeroSnapshot::from_entity_with_catalog(entity, self.catalog);
        let place = fitting_u8_of(self.store.leaderboard_place(player_id));
        if place.is_some() {
            hero.leaderboard_place = place;
        }
        hero
    }

    pub open spec fn player_hero_v(&self, pid: i32, local: bool) -> Option<HeroSnapshotV> {
        match self.hero_entity_v(pid, local) {
            Some(e) => Some(hero_with_place(self.store(), self.catalog(), pid, e)),
            None => None,
        }
    }

    pub open spec fn local_hero_v(&self) -> Option<HeroSnapshotV> {
        match self.local_v() {
            Some(pid) => self.player_hero_v(pid, true),
            None => None,
        }
    }

    /// The local player's hero, with the store's leaderboard place.
    pub fn local_hero(&self) -> (r: Option<HeroSnapshot>)
        ensures
            opt_hero_view(r) == self.local_hero_v(),
    {
        let player_id = match self.local_player_id() {
            Some(p) => p,
            None => {
                return None;
            },
        };
        match self.hero_entity_for_player(player_id, true) {
            Some(e) => Some(self.placed_hero(player_id, e)),
            None => None,
        }
    }

    /// Another player's hero, preferring the copy set aside for them.
    pub fn hero_for_player(&self, player_id: i32) -> (r: Option<HeroSnapshot>)
        ensures
            opt_hero_view(r) == self.player_hero_v(player_id, false),
    {
        match self.hero_entity_for_player(player_id, false) {
            Some(e) => Some(self.placed_hero(player_id, e)),
            None => None,
        }
    }

    pub open spec fn combat_hero_entity_v(&self, pid: i32) -> Option<EntityV> {
        let s = self.entities();
        match entity_at_v(
            s,
            scan_best(s, |e: EntityV| play_hero_candidate(e, pid), |a: EntityV, b: EntityV| a.id >= b.id),
        ) {
            Some(e) => Some(e),
            None => self.hero_entity_v(pid, false),
        }
    }

    pub open spec fn combat_opponent_v(&self, pid: i32) -> Option<HeroSnapshotV> {
        match self.combat_hero_entity_v(pid) {
            Some(e) => Some(hero_with_place(self.store(), self.catalog(), pid, e)),
            None => None,
        }
    }

    /// The opponent's hero in play (the latest), else their preferred hero.
    fn hero_for_combat_opponent(&self, player_id: i32) -> (r: Option<HeroSnapshot>)
        ensures
            opt_hero_view(r) == self.combat_opponent_v(player_id),
    {
        let in_play = self.pick(
            Pick::PlayHero(player_id),
            Ghost(|e: EntityV| play_hero_candidate(e, player_id)),
            Ghost(|a: EntityV, b: EntityV| a.id >= b.id),
        );
        let entity = match in_play {
            Some(e) => Some(e),
            None => self.hero_entity_for_player(player_id, false),
        };
        match entity {
            Some(e) => Some(self.placed_hero(player_id, e)),
            None => None,
        }
    }

    pub open spec fn hero_power_v(&self) -> Option<HeroPowerSnapshotV> {
        match self.local_v() {
            Some(local) => {
                let s = self.entities();
                match entity_at_v(s, scan_best(s, |e: EntityV| power_candidate(e, local), |a: EntityV, b: EntityV| power_ge(a, b))) {
                    Some(e) => Some(power_v(e, resolved_v(e.card_id, self.catalog()))),
                    None => None,
                }
            },
            None => None,
        }
    }

    /// The local player's hero power: the one in play, else one set aside,
    /// the latest of either.
    pub fn hero_power(&self) -> (r: Option<HeroPowerSnapshot>)
        ensures
            opt_power_view(r) == self.hero_power_v(),
    {
        let local = match self.local_player_id() {
            Some(l) => l,
            None => {
                return None;
            },
        };
        let entity = match self.pick(
            Pick::Power(local),
            Ghost(|e: EntityV| power_candidate(e, local)),
            Ghost(|a: EntityV, b: EntityV| power_ge(a, b)),
        ) {
            Some(e) => e,
            None => {
                return None;
            },
        };
        let resolved = resolve_opt(&entity.card_id, self.catalog);
        let exhausted = truthy(entity, "EXHAUSTED");
        let cant_play = truthy(entity, "CANT_PLAY");
        let static_name = owned_str(
            match resolved {
                Some(c) => c.preferred_name(),
                None => None,
            },
        );
        let name = match static_name {
            Some(n) => Some(n),
            None => trustworthy_entity_name(&entity.name),
        };
        Some(
            HeroPowerSnapshot {
                entity_id: entity.id,
                card_id: clone_opt_string(&entity.card_id),
                name,
                text: owned_str(
                    match resolved {
                        Some(c) => c.preferred_text(),
                        None => None,
                    },
                ),
                cost: or_i32(
                    i32_tag(entity, "COST"),
                    match resolved {
                        Some(c) => c.cost(),
                        None => None,
                    },
                ),
                exhausted,
                available: !exhausted && !cant_play,
                dynamic_tags: selected_dynamic_tags(entity),
            },
        )
    }

    pub open spec fn timeout_v(&self) -> Option<i32> {
        match self.local_v() {
            Some(pid) => match player_i32_v(self.store(), pid, "TIMEOUT"@) {
                Some(v) => if v > 0 {
                    Some(v)
                } else {
                    None
                },
                None => None,
            },
            None => None,
        }
    }

    /// The action window's TIMEOUT for the local player, when positive.
    pub fn timeout_seconds(&self) -> (r: Option<i32>)
        ensures
            r == self.timeout_v(),
    {
        let player_id = match self.local_player_id() {
            Some(p) => p,
            None => {
                return None;
            },
        };
        match self.player_i32(player_id, "TIMEOUT") {
            Some(v) => if v > 0 {
                Some(v)
            } else {
                None
            },
            None => None,
        }
    }

    /// The cheapest reroll button in play.
    pub fn refresh_cost(&self) -> (r: Option<i32>)
        ensures
            r == min_cost(self.entities(), |e: EntityV| reroll_button(e)),
    {
        self.min_cost_of(CostOf::Reroll, Ghost(|e: EntityV| reroll_button(e)))
    }

    pub open spec fn tavern_tier_v(&self) -> Option<u8> {
        match self.local_v() {
            Some(pid) => fitting_u8(
                first_of(
                    player_i32_v(self.store(), pid, "PLAYER_TECH_LEVEL"@),
                    match self.local_hero_v() {
                        Some(h) => match h.tavern_tier {
                            Some(t) => Some(t as i32),
                            None => None,
                        },
                        None => None,
                    },
                ),
            ),
            None => None,
        }
    }

    /// The local player's tavern tier, from the player's tags or else the hero.
    pub fn tavern_tier(&self) -> (r: Option<u8>)
        ensures
            r == self.tavern_tier_v(),
    {
        let player_id = match self.local_player_id() {
            Some(p) => p,
            None => {
                return None;
            },
        };
        let tier = match self.player_i32(player_id, "PLAYER_TECH_LEVEL") {
            Some(t) => Some(t),
            None => match self.local_hero() {
                Some(h) => match h.tavern_tier {
                    Some(t) => Some(t as i32),
                    None => None,
                },
                None => None,
            },
        };
        fitting_u8_of(tier)
    }

    pub open spec fn upgrade_cost_v(&self) -> Option<i32> {
        match self.tavern_tier_v() {
            Some(current) => {
                let target: u8 = if current == 255 { 255 } else { (current + 1) as u8 };
                min_cost(self.entities(), |e: EntityV| tech_up_button(e, target))
            },
            None => None,
        }
    }

    /// The cheapest button in play that upgrades the tavern to the next tier.
    pub fn upgrade_cost(&self) -> (r: Option<i32>)
        ensures
            r == self.upgrade_cost_v(),
    {
        let current = match self.tavern_tier() {
            Some(t) => t,
            None => {
                return None;
            },
        };
        let target = current.saturating_add(1);
        self.min_cost_of(CostOf::TechUp(target), Ghost(|e: EntityV| tech_up_button(e, target)))
    }

    pub open spec fn next_opponent_v(&self) -> Option<i32> {
        match self.local_v() {
            Some(pid) => player_i32_v(self.store(), pid, "NEXT_OPPONENT_PLAYER_ID"@),
            None => None,
        }
    }

    pub fn next_opponent_player_id(&self) -> (r: Option<i32>)
        ensures
            r == self.next_opponent_v(),
    {
        let player_id = match self.local_player_id() {
            Some(p) => p,
            None => {
                return None;
            },
        };
        self.player_i32(player_id, "NEXT_OPPONENT_PLAYER_ID")
    }

    pub open spec fn gold_v(&self) -> Option<i32> {
        match self.local_v() {
            Some(pid) => match player_i32_v(self.store(), pid, "RESOURCES"@) {
                Some(res) => Some(
                    gold_of(
                        res,
                        unwrap_or_i32(player_i32_v(self.store(), pid, "TEMP_RESOURCES"@), 0),
                        unwrap_or_i32(player_i32_v(self.store(), pid, "RESOURCES_USED"@), 0),
                    ),
                ),
                None => None,
            },
            None => None,
        }
    }

    /// Gold left this turn: resources plus temporary resources, less what was
    /// spent, never below zero.
    pub fn current_gold(&self) -> (r: Option<i32>)
        ensures
            r == self.gold_v(),
    {
        let player_id = match self.local_player_id() {
            Some(p) => p,
            None => {
                return None;
            },
        };
        let resources = match self.player_i32(player_id, "RESOURCES") {
            Some(v) => v,
            None => {
                return None;
            },
        };
        let temp = match self.player_i32(player_id, "TEMP_RESOURCES") {
            Some(v) => v,
            None => 0,
        };
        let used = match self.player_i32(player_id, "RESOURCES_USED") {
            Some(v) => v,
            None => 0,
        };
        let g = resources.wrapping_add(temp).wrapping_sub(used);
        Some(
            if g > 0 {
                g
            } else {
                0
            },
        )
    }
}


pub open spec fn list_ok(
    owner: Option<i32>,
    r: Seq<CardSnapshotV>,
    src: spec_fn(i32) -> Seq<CardSnapshotV>,
) -> bool {
    match owner {
        Some(o) => displayed(r, src(o)),
        None => r.len() == 0,
    }
}

impl<'a> StateProjector<'a> {
    pub open spec fn lobby_hero_v(&self, pid: i32) -> Option<EntityV> {
        let s = self.entities();
        let local = self.local_v() == Some(pid);
        entity_at_v(s, scan_best(s, |e: EntityV| hero_candidate(e, pid), |a: EntityV, b: EntityV| hero_pref_gt(a, b, local)))
    }

    pub open spec fn lobby_entry_v(&self, pid: i32, e: EntityV) -> LobbyPlayerV {
        let base = hero_with_place(self.store(), self.catalog(), pid, e);
        let hero = HeroSnapshotV {
            tavern_tier: first_of(fitting_u8(player_i32_v(self.store(), pid, "PLAYER_TECH_LEVEL"@)), base.tavern_tier),
            ..base
        };
        let play_state = player_symbol_v(self.store(), pid, "PLAYSTATE"@);
        LobbyPlayerV {
            player_id: pid,
            is_local: self.local_v() == Some(pid),
            player_name: name_v(self.store(), pid),
            hero,
            play_state,
            alive: unwrap_or_i32(hero.remaining_health, 1) > 0 && play_state != Some("LOST"@),
        }
    }

    /// Lobby entries of players 1 through `k`, each with a hero.
    pub open spec fn lobby_upto(&self, k: int) -> Seq<LobbyPlayerV>
        decreases k,
    {
        if k <= 0 {
            Seq::empty()
        } else {
            let prev = self.lobby_upto(k - 1);
            match self.lobby_hero_v(k as i32) {
                Some(e) => prev.push(self.lobby_entry_v(k as i32, e)),
                None => prev,
            }
        }
    }

    pub open spec fn lobby_v(&self) -> Seq<LobbyPlayerV> {
        self.lobby_upto(8)
    }

    fn lobby_entry(&self, player_id: i32, entity: &Entity, local: Option<i32>) -> (r: LobbyPlayerSnapshot)
        requires
            local == self.local_v(),
        ensures
            r@ == self.lobby_entry_v(player_id, entity@),
    {
        let mut hero = self.placed_hero(player_id, entity);
        let tier = fitting_u8_of(self.player_i32(player_id, "PLAYER_TECH_LEVEL"));
        if tier.is_some() {
            hero.tavern_tier = tier;
        }
        let play_state = owned_str(self.player_symbol(player_id, "PLAYSTATE"));
        let lost = match &play_state {
            Some(p) => chars_eq(&chars_of(p.as_str()), &chars_of("LOST")),
            None => false,
        };
        let remaining = match hero.remaining_health {
            Some(h) => h,
            None => 1,
        };
        LobbyPlayerSnapshot {
            player_id,
            is_local: local == Some(player_id),
            player_name: owned_str(self.store.player_name(player_id)),
            hero,
            play_state,
            alive: remaining > 0 && !lost,
        }
    }

    /// One entry per player id from 1 to 8 that has a hero, in player order.
    /// A player counts as alive unless their hero has no health left or their
    /// PLAYSTATE is LOST (WON and TIED can describe a finished combat).
    pub fn lobby_players(&self) -> (r: Vec<LobbyPlayerSnapshot>)
        ensures
            lobby_view(r@) == self.lobby_v(),
    {
        let local = self.local_player_id();
        let mut out: Vec<LobbyPlayerSnapshot> = Vec::new();
        assert(lobby_view(out@) =~= self.lobby_upto(0));
        let mut pid: i32 = 1;
        while pid <= 8
            invariant
                1 <= pid <= 9,
                local == self.local_v(),
                lobby_view(out@) == self.lobby_upto(pid - 1),
            decreases 9 - pid,
        {
            let is_local = local == Some(pid);
            let picked = self.pick(
                Pick::LobbyHero(pid, is_local),
                Ghost(|e: EntityV| hero_candidate(e, pid)),
                Ghost(|a: EntityV, b: EntityV| hero_pref_gt(a, b, is_local)),
            );
            let ghost before = out@;
            match picked {
                Some(e) => {
                    let entry = self.lobby_entry(pid, e, local);
                    out.push(entry);
                    assert(lobby_view(out@) =~= lobby_view(before).push(entry@));
                },
                None => {},
            }
            pid += 1;
        }
        out
    }

    pub open spec fn shop_frozen_v(&self) -> Option<bool> {
        let s = self.entities();
        let lock = entity_at_v(s, first_match(s, |e: EntityV| lock_button(e)));
        if lock is Some && lock->0.tags.contains_key("TAG_SCRIPT_DATA_NUM_1"@) {
            Some(truthy_v(lock->0, "TAG_SCRIPT_DATA_NUM_1"@))
        } else {
            match self.dummy_v() {
                Some(d) => if any_match(s, |e: EntityV| shop_member(e, d, self.catalog())) {
                    Some(any_match(s, |e: EntityV| shop_member(e, d, self.catalog()) && frozen_v(e)))
                } else {
                    None
                },
                None => None,
            }
        }
    }

    fn find_lock(&self) -> (r: Option<&'a Entity>)
        ensures
            opt_entity_view(r) == entity_at_v(self.entities(), first_match(self.entities(), |e: EntityV| lock_button(e))),
    {
        let ghost s = self.entities();
        let ghost p = |e: EntityV| lock_button(e);
        let store: &'a EntityStore = self.store;
        let mut i: usize = 0;
        while i < store.entity_count()
            invariant
                i <= s.len(),
                s == self.entities(),
                store == self.store(),
                p == (|e: EntityV| lock_button(e)),
                first_match(s.take(i as int), p) is None,
            decreases s.len() - i,
        {
            let e = store.entity_at(i);
            let ghost t = s.take(i + 1);
            assert(t.drop_last() =~= s.take(i as int));
            assert(t.last() == s[i as int]);
            if card_id_is(e, "TB_BaconShopLockAll_Button") && entity_symbol_is(e, "ZONE", "PLAY") {
                proof {
                    lemma_first_match_prefix(s, p, i as int + 1);
                }
                return Some(e);
            }
            i += 1;
        }
        assert(s.take(s.len() as int) =~= s);
        None
    }

    /// Whether the tavern is frozen: the lock button's script flag when it
    /// carries one, else whether any card in the tavern is frozen; `None`
    /// when neither can be told.
    pub fn shop_frozen(&self) -> (r: Option<bool>)
        ensures
            r == self.shop_frozen_v(),
    {
        let lock = self.find_lock();
        if let Some(l) = lock {
            if l.tags.contains_key(&chars_of("TAG_SCRIPT_DATA_NUM_1")) {
                return Some(truthy(l, "TAG_SCRIPT_DATA_NUM_1"));
            }
        }
        let dummy = match self.store.dummy_player_id() {
            Some(d) => d,
            None => {
                return None;
            },
        };
        let ghost s = self.entities();
        let ghost ps = |e: EntityV| shop_member(e, dummy, self.catalog());
        let ghost pf = |e: EntityV| shop_member(e, dummy, self.catalog()) && frozen_v(e);
        let mut saw_shop = false;
        let mut frozen = false;
        let mut i: usize = 0;
        while i < self.store.entity_count()
            invariant
                i <= s.len(),
                s == self.entities(),
                ps == (|e: EntityV| shop_member(e, dummy, self.catalog())),
                pf == (|e: EntityV| shop_member(e, dummy, self.catalog()) && frozen_v(e)),
                saw_shop == any_match(s.take(i as int), ps),
                frozen == any_match(s.take(i as int), pf),
            decreases s.len() - i,
        {
            let e = self.store.entity_at(i);
            let ghost t = s.take(i + 1);
            assert(t.drop_last() =~= s.take(i as int));
            assert(t.last() == s[i as int]);
            if self.member(&CardList::Shop, e, dummy) {
                saw_shop = true;
                if truthy(e, "FROZEN") || truthy(e, "BACON_IS_FROZEN") {
                    frozen = true;
                }
            }
            i += 1;
        }
        assert(s.take(s.len() as int) =~= s);
        if saw_shop {
            Some(frozen)
        } else {
            None
        }
    }

    pub open spec fn recruit_v(&self, r: RecruitSnapshotV, round_number: u32, raw_game_turn: u32, timestamp: Option<Seq<char>>) -> bool {
        &&& r.round_number == round_number
        &&& r.raw_game_turn == raw_game_turn
        &&& r.timestamp == timestamp
        &&& r.hero == self.local_hero_v()
        &&& r.hero_power == self.hero_power_v()
        &&& r.gold == self.gold_v()
        &&& r.tavern_tier == self.tavern_tier_v()
        &&& r.refresh_cost == min_cost(self.entities(), |e: EntityV| reroll_button(e))
        &&& r.upgrade_cost == self.upgrade_cost_v()
        &&& r.shop_frozen == self.shop_frozen_v()
        &&& r.timeout_seconds == self.timeout_v()
        &&& r.next_opponent_player_id == self.next_opponent_v()
        &&& r.lobby == self.lobby_v()
        &&& list_ok(self.local_v(), r.board, |o: i32| self.board_v(o))
        &&& list_ok(self.local_v(), r.hand, |o: i32| self.hand_v(o))
        &&& list_ok(self.dummy_v(), r.shop, |o: i32| self.shop_v(o))
        &&& list_ok(self.local_v(), r.trinkets, |o: i32| self.trinkets_v(o))
    }

    /// Everything the local player sees during a recruit phase.
    pub fn recruit_snapshot(&self, round_number: u32, raw_game_turn: u32, timestamp: Option<String>) -> (r: RecruitSnapshot)
        ensures
            self.recruit_v(r@, round_number, raw_game_turn, opt_view(timestamp)),
    {
        RecruitSnapshot {
            round_number,
            raw_game_turn,
            timestamp,
            hero: self.local_hero(),
            hero_power: self.hero_power(),
            gold: self.current_gold(),
            tavern_tier: self.tavern_tier(),
            refresh_cost: self.refresh_cost(),
            upgrade_cost: self.upgrade_cost(),
            shop_frozen: self.shop_frozen(),
            timeout_seconds: self.timeout_seconds(),
            next_opponent_player_id: self.next_opponent_player_id(),
            lobby: self.lobby_players(),
            board: self.board(),
            hand: self.hand(),
            shop: self.shop(),
            trinkets: self.trinkets(),
        }
    }

    pub open spec fn combat_v(&self, r: LiveCombatV, round_number: u32, raw_game_turn: u32, timestamp: Option<Seq<char>>) -> bool {
        &&& r.round_number == round_number
        &&& r.raw_game_turn == raw_game_turn
        &&& r.timestamp == timestamp
        &&& r.opponent_player_id == self.next_opponent_v()
        &&& r.lobby == self.lobby_v()
        &&& r.player.hero == self.local_hero_v()
        &&& list_ok(self.local_v(), r.player.board, |o: i32| self.board_v(o))
        &&& r.opponent.hero == (match self.next_opponent_v() {
            Some(id) => self.combat_opponent_v(id),
            None => None,
        })
        &&& list_ok(self.dummy_v(), r.opponent.board, |o: i32| self.board_v(o))
    }

    /// Both sides of the combat that follows a recruit phase: the local
    /// player, and the next opponent whose minions the dummy player holds.
    pub fn combat_snapshot(&self, round_number: u32, raw_game_turn: u32, timestamp: Option<String>) -> (r: LiveCombatSnapshot)
        ensures
            self.combat_v(r@, round_number, raw_game_turn, opt_view(timestamp)),
    {
        let opponent_player_id = self.next_opponent_player_id();
        let opponent_hero = match opponent_player_id {
            Some(id) => self.hero_for_combat_opponent(id),
            None => None,
        };
        LiveCombatSnapshot {
            round_number,
            raw_game_turn,
            timestamp,
            opponent_player_id,
            lobby: self.lobby_players(),
            player: CombatSideSnapshot { hero: self.local_hero(), board: self.board() },
            opponent: CombatSideSnapshot { hero: opponent_hero, board: self.opponent_board() },
        }
    }
}

pub proof fn lemma_first_match_prefix(s: Seq<(i64, EntityV)>, p: spec_fn(EntityV) -> bool, n: int)
    requires
        0 < n <= s.len(),
        first_match(s.take(n - 1), p) is None,
        p(s[n - 1].1),
    ensures
        first_match(s, p) == Some(n - 1),
    decreases s.len() - n,
{
    let t = s.take(n);
    assert(t.drop_last() =~= s.take(n - 1));
    assert(first_match(t, p) == Some(n - 1));
    if n < s.len() {
        lemma_first_match_extend(s, p, n);
    } else {
        assert(t =~= s);
    }
}

pub proof fn lemma_first_match_extend(s: Seq<(i64, EntityV)>, p: spec_fn(EntityV) -> bool, n: int)
    requires
        0 < n <= s.len(),
        first_match(s.take(n), p) is Some,
    ensures
        first_match(s, p) == first_match(s.take(n), p),
    decreases s.len() - n,
{
    if n < s.len() {
        let t = s.take(n + 1);
        assert(t.drop_last() =~= s.take(n));
        lemma_first_match_extend(s, p, n + 1);
    } else {
        assert(s.take(n) =~= s);
    }
}

} // verus!
