//! Complete bottom-layer fact store. No strategy logic lives here.

use vstd::prelude::*;

use crate::harness::power::event::{
    clone_opt_string, opt_view, DescriptorV, EntityDescriptor, EntityIdentity, IdentityV,
    PowerEvent, PowerEventV, TagTarget, TagTargetV, TagValue, TagValueV,
};
use crate::maps::{IntMap, StrMap};
use crate::text::{chars_of, string_of};

verus! {

#[derive(Debug, Clone, Copy, PartialEq, Eq)]
pub struct PlayerRecord {
    pub entity_id: u32,
    pub player_id: i32,
    pub has_real_account: bool,
}

impl View for PlayerRecord {
    type V = PlayerRecord;

    open spec fn view(&self) -> PlayerRecord {
        *self
    }
}

#[derive(Debug)]
pub struct Entity {
    pub id: u32,
    pub name: Option<String>,
    pub card_id: Option<String>,
    pub tags: StrMap<TagValue>,
}

pub struct EntityV {
    pub id: u32,
    pub name: Option<Seq<char>>,
    pub card_id: Option<Seq<char>>,
    pub tags: Map<Seq<char>, TagValueV>,
}

impl View for Entity {
    type V = EntityV;

    open spec fn view(&self) -> EntityV {
        EntityV { id: self.id, name: opt_view(self.name), card_id: opt_view(self.card_id), tags: self.tags@ }
    }
}

pub open spec fn new_entity_v(id: u32) -> EntityV {
    EntityV { id, name: None, card_id: None, tags: Map::empty() }
}

/// The integer value of a tag, if the tag holds an integer.
pub open spec fn tag_int(tags: Map<Seq<char>, TagValueV>, tag: Seq<char>) -> Option<i64> {
    if tags.contains_key(tag) {
        match tags[tag] {
            TagValueV::Int(v) => Some(v),
            TagValueV::Symbol(_) => None,
        }
    } else {
        None
    }
}

/// The symbol value of a tag, if the tag holds a symbol.
pub open spec fn tag_sym(tags: Map<Seq<char>, TagValueV>, tag: Seq<char>) -> Option<Seq<char>> {
    if tags.contains_key(tag) {
        match tags[tag] {
            TagValueV::Int(_) => None,
            TagValueV::Symbol(s) => Some(s),
        }
    } else {
        None
    }
}

pub open spec fn merge_identity_v(e: EntityV, i: IdentityV) -> EntityV {
    EntityV {
        name: if i.name is Some { i.name } else { e.name },
        card_id: if i.card_id is Some { i.card_id } else { e.card_id },
        ..e
    }
}

pub open spec fn apply_descriptor_v(e: EntityV, d: DescriptorV) -> EntityV {
    let m = merge_identity_v(e, d.identity);
    let t1 = match d.zone {
        Some(z) => m.tags.insert("ZONE"@, TagValueV::Symbol(z)),
        None => m.tags,
    };
    let t2 = match d.zone_position {
        Some(p) => t1.insert("ZONE_POSITION"@, TagValueV::Int(p as i64)),
        None => t1,
    };
    let t3 = match d.controller {
        Some(c) => t2.insert("CONTROLLER"@, TagValueV::Int(c as i64)),
        None => t2,
    };
    EntityV { tags: t3, ..m }
}

impl Entity {
    pub fn new(id: u32) -> (r: Entity)
        ensures
            r@ == new_entity_v(id),
    {
        Entity { id, name: None, card_id: None, tags: StrMap::new() }
    }

    pub fn tag_chars(&self, name: &[char]) -> (r: Option<&TagValue>)
        ensures
            match r {
                Some(v) => self@.tags.contains_key(name@) && v@ == self@.tags[name@],
                None => !self@.tags.contains_key(name@),
            },
    {
        self.tags.get(name)
    }

    pub fn tag(&self, name: &str) -> (r: Option<&TagValue>)
        ensures
            match r {
                Some(v) => self@.tags.contains_key(name@) && v@ == self@.tags[name@],
                None => !self@.tags.contains_key(name@),
            },
    {
        self.tag_chars(&chars_of(name))
    }

    pub fn tag_i64(&self, name: &str) -> (r: Option<i64>)
        ensures
            r == tag_int(self@.tags, name@),
    {
        match self.tag(name) {
            Some(v) => v.as_i64(),
            None => None,
        }
    }

    pub fn tag_symbol(&self, name: &str) -> (r: Option<&str>)
        ensures
            opt_str(r) == tag_sym(self@.tags, name@),
    {
        match self.tag(name) {
            Some(v) => v.as_str(),
            None => None,
        }
    }

    fn merge_identity(&mut self, identity: &EntityIdentity)
        ensures
            final(self)@ == merge_identity_v(old(self)@, identity@),
    {
        if let Some(name) = &identity.name {
            self.name = Some(name.clone());
        }
        if let Some(card_id) = &identity.card_id {
            self.card_id = Some(card_id.clone());
        }
    }

    fn apply_descriptor(&mut self, d: &EntityDescriptor)
        ensures
            final(self)@ == apply_descriptor_v(old(self)@, d@),
    {
        self.merge_identity(&d.identity);
        if let Some(zone) = &d.zone {
            self.tags.insert(chars_of("ZONE"), TagValue::Symbol(zone.clone()));
        }
        if let Some(position) = d.zone_position {
            self.tags.insert(chars_of("ZONE_POSITION"), TagValue::Int(position as i64));
        }
        if let Some(controller) = d.controller {
            self.tags.insert(chars_of("CONTROLLER"), TagValue::Int(controller as i64));
        }
    }
}

pub open spec fn opt_str(o: Option<&str>) -> Option<Seq<char>> {
    match o {
        Some(s) => Some(s@),
        None => None,
    }
}


pub struct StoreV {
    pub entities: Map<i64, EntityV>,
    pub game_entity_id: Option<u32>,
    pub game_entity_tags: Map<Seq<char>, TagValueV>,
    pub players: Map<i64, PlayerRecord>,
    pub player_names: Map<i64, Seq<char>>,
    pub named_target_tags: Map<Seq<char>, Map<Seq<char>, TagValueV>>,
    /// Logical leaderboard place keyed by Battlegrounds PLAYER_ID.
    pub places: Map<i64, i32>,
}

pub open spec fn empty_store_v() -> StoreV {
    StoreV {
        entities: Map::empty(),
        game_entity_id: None,
        game_entity_tags: Map::empty(),
        players: Map::empty(),
        player_names: Map::empty(),
        named_target_tags: Map::empty(),
        places: Map::empty(),
    }
}

/// The entity at `id`, or a fresh one.
pub open spec fn base_entity(s: StoreV, id: u32) -> EntityV {
    if s.entities.contains_key(id as i64) {
        s.entities[id as i64]
    } else {
        new_entity_v(id)
    }
}

pub open spec fn to_i32(v: Option<i64>) -> Option<i32> {
    match v {
        Some(x) => if i32::MIN <= x <= i32::MAX {
            Some(x as i32)
        } else {
            None
        },
        None => None,
    }
}

/// Placement carried by an entity's tags: its PLAYER_ID and positive
/// PLAYER_LEADERBOARD_PLACE, unless it is a results-screen hero clone.
pub open spec fn placement_of(tags: Map<Seq<char>, TagValueV>) -> Option<(i32, i32)> {
    let clone_flag = match tag_int(tags, "BACON_PLAYER_RESULTS_HERO_OVERRIDE"@) {
        Some(v) => v,
        None => 0,
    };
    if clone_flag != 0 {
        None
    } else {
        match (to_i32(tag_int(tags, "PLAYER_ID"@)), to_i32(tag_int(tags, "PLAYER_LEADERBOARD_PLACE"@))) {
            (Some(pid), Some(place)) => if pid > 0 && place > 0 {
                Some((pid, place))
            } else {
                None
            },
            _ => None,
        }
    }
}

/// The store after one Power event.
pub open spec fn spec_apply(s: StoreV, e: PowerEventV) -> StoreV {
    match e {
        PowerEventV::CreateGame => empty_store_v(),
        PowerEventV::GameEntityDeclared { entity_id } => StoreV { game_entity_id: Some(entity_id), ..s },
        PowerEventV::PlayerDeclared { entity_id, player_id, has_real_account } => {
            let b = base_entity(s, entity_id);
            let e2 = EntityV {
                tags: b.tags.insert("PLAYER_ID"@, TagValueV::Int(player_id as i64)).insert(
                    "CARDTYPE"@,
                    TagValueV::Symbol("PLAYER"@),
                ),
                ..b
            };
            StoreV {
                players: s.players.insert(
                    player_id as i64,
                    PlayerRecord { entity_id, player_id, has_real_account },
                ),
                entities: s.entities.insert(entity_id as i64, e2),
                ..s
            }
        },
        PowerEventV::PlayerNameDeclared { player_id, name } => StoreV {
            player_names: s.player_names.insert(player_id as i64, name),
            ..s
        },
        PowerEventV::EntityCreated { id, card_id } => StoreV {
            entities: s.entities.insert(id as i64, EntityV { card_id, ..new_entity_v(id) }),
            ..s
        },
        PowerEventV::EntityDefined(d) => StoreV {
            entities: s.entities.insert(
                d.identity.id as i64,
                apply_descriptor_v(base_entity(s, d.identity.id), d),
            ),
            ..s
        },
        PowerEventV::EntityCardChanged { identity, new_card_id } => StoreV {
            entities: s.entities.insert(
                identity.id as i64,
                EntityV {
                    card_id: Some(new_card_id),
                    ..merge_identity_v(base_entity(s, identity.id), identity)
                },
            ),
            ..s
        },
        PowerEventV::TagChanged { target, tag, value } => match target {
            TagTargetV::Entity(identity) => {
                let m = merge_identity_v(base_entity(s, identity.id), identity);
                let e2 = EntityV { tags: m.tags.insert(tag, value), ..m };
                StoreV {
                    entities: s.entities.insert(identity.id as i64, e2),
                    places: match placement_of(e2.tags) {
                        Some((pid, place)) => s.places.insert(pid as i64, place),
                        None => s.places,
                    },
                    ..s
                }
            },
            TagTargetV::GameEntity => StoreV {
                game_entity_tags: s.game_entity_tags.insert(tag, value),
                ..s
            },
            TagTargetV::PlayerName(name) => {
                let old = if s.named_target_tags.contains_key(name) {
                    s.named_target_tags[name]
                } else {
                    Map::empty()
                };
                StoreV { named_target_tags: s.named_target_tags.insert(name, old.insert(tag, value)), ..s }
            },
        },
        _ => s,
    }
}

/// Complete bottom-layer fact store.
#[derive(Debug)]
pub struct EntityStore {
    entities: IntMap<Entity>,
    game_entity_id: Option<u32>,
    game_entity_tags: StrMap<TagValue>,
    players: IntMap<PlayerRecord>,
    player_names: IntMap<String>,
    named_target_tags: StrMap<StrMap<TagValue>>,
    leaderboard_place_by_player: IntMap<i32>,
}

impl View for EntityStore {
    type V = StoreV;

    closed spec fn view(&self) -> StoreV {
        StoreV {
            entities: self.entities@,
            game_entity_id: self.game_entity_id,
            game_entity_tags: self.game_entity_tags@,
            players: self.players@,
            player_names: self.player_names@,
            named_target_tags: self.named_target_tags@,
            places: self.leaderboard_place_by_player@,
        }
    }
}

impl EntityStore {
    /// Entities in the order in which the store walks them.
    pub closed spec fn entity_seq(&self) -> Seq<(i64, EntityV)> {
        self.entities.entries()
    }

    /// Players in the order in which the store walks them.
    pub closed spec fn player_seq(&self) -> Seq<(i64, PlayerRecord)> {
        self.players.entries()
    }

    /// The walks list every entity and every player once, with what the
    /// store holds for it.
    pub open spec fn walks_ok(&self) -> bool {
        &&& crate::maps::lists_map(self.entity_seq(), self@.entities)
        &&& crate::maps::lists_map(self.player_seq(), self@.players)
    }

    /// The walks of every store list its maps.
    pub fn lemma_walks(&self)
        ensures
            self.walks_ok(),
    {
        self.entities.lemma_entries();
        self.players.lemma_entries();
    }

    pub fn new() -> (r: EntityStore)
        ensures
            r@ == empty_store_v(),
            r.entity_seq().len() == 0,
            r.player_seq().len() == 0,
    {
        EntityStore {
            entities: IntMap::new(),
            game_entity_id: None,
            game_entity_tags: StrMap::new(),
            players: IntMap::new(),
            player_names: IntMap::new(),
            named_target_tags: StrMap::new(),
            leaderboard_place_by_player: IntMap::new(),
        }
    }

    pub fn clear(&mut self)
        ensures
            final(self)@ == empty_store_v(),
            final(self).entity_seq().len() == 0,
            final(self).player_seq().len() == 0,
    {
        *self = EntityStore::new();
    }

    pub fn entity(&self, id: u32) -> (r: Option<&Entity>)
        ensures
            match r {
                Some(e) => self@.entities.contains_key(id as i64) && e@ == self@.entities[id as i64],
                None => !self@.entities.contains_key(id as i64),
            },
    {
        self.entities.get(id as i64)
    }

    pub fn entity_count(&self) -> (r: usize)
        ensures
            r == self.entity_seq().len(),
            r == self@.entities.dom().len(),
    {
        self.entities.lemma_entries();
        self.entities.len()
    }

    pub fn entity_at(&self, i: usize) -> (r: &Entity)
        requires
            i < self.entity_seq().len(),
        ensures
            r@ == self.entity_seq()[i as int].1,
    {
        self.entities.value_at(i)
    }

    /// Every entity, in walking order.
    pub fn entities(&self) -> (r: Vec<&Entity>)
        ensures
            r.len() == self.entity_seq().len(),
            forall|i: int| 0 <= i < r.len() ==> r[i]@ == self.entity_seq()[i].1,
    {
        let mut r: Vec<&Entity> = Vec::new();
        let mut i: usize = 0;
        while i < self.entities.len()
            invariant
                i <= self.entity_seq().len(),
                r.len() == i,
                forall|j: int| 0 <= j < i ==> r[j]@ == self.entity_seq()[j].1,
            decreases self.entity_seq().len() - i,
        {
            r.push(self.entities.value_at(i));
            i += 1;
        }
        r
    }

    pub fn game_entity_id(&self) -> (r: Option<u32>)
        ensures
            r == self@.game_entity_id,
    {
        self.game_entity_id
    }

    pub fn game_entity_tag(&self, tag: &str) -> (r: Option<&TagValue>)
        ensures
            match r {
                Some(v) => self@.game_entity_tags.contains_key(tag@) && v@ == self@.game_entity_tags[tag@],
                None => !self@.game_entity_tags.contains_key(tag@),
            },
    {
        self.game_entity_tags.get(&chars_of(tag))
    }

    pub fn player(&self, player_id: i32) -> (r: Option<&PlayerRecord>)
        ensures
            match r {
                Some(p) => self@.players.contains_key(player_id as i64) && *p == self@.players[player_id as i64],
                None => !self@.players.contains_key(player_id as i64),
            },
    {
        self.players.get(player_id as i64)
    }

    pub fn player_count(&self) -> (r: usize)
        ensures
            r == self.player_seq().len(),
            r == self@.players.dom().len(),
    {
        self.players.lemma_entries();
        self.players.len()
    }

    pub fn player_at(&self, i: usize) -> (r: &PlayerRecord)
        requires
            i < self.player_seq().len(),
        ensures
            *r == self.player_seq()[i as int].1,
    {
        self.players.value_at(i)
    }

    /// Every player record, in walking order.
    pub fn players(&self) -> (r: Vec<PlayerRecord>)
        ensures
            r@ == self.player_seq().map_values(|e: (i64, PlayerRecord)| e.1),
    {
        let mut r: Vec<PlayerRecord> = Vec::new();
        let mut i: usize = 0;
        while i < self.players.len()
            invariant
                i <= self.player_seq().len(),
                r@ == self.player_seq().take(i as int).map_values(|e: (i64, PlayerRecord)| e.1),
            decreases self.player_seq().len() - i,
        {
            r.push(*self.players.value_at(i));
            assert(self.player_seq().take(i + 1) == self.player_seq().take(i as int).push(self.player_seq()[i as int]));
            i += 1;
        }
        assert(self.player_seq().take(self.player_seq().len() as int) == self.player_seq());
        r
    }

    pub fn player_name(&self, player_id: i32) -> (r: Option<&str>)
        ensures
            match r {
                Some(n) => self@.player_names.contains_key(player_id as i64) && n@ == self@.player_names[player_id as i64],
                None => !self@.player_names.contains_key(player_id as i64),
            },
    {
        match self.player_names.get(player_id as i64) {
            Some(n) => Some(n.as_str()),
            None => None,
        }
    }

    /// Player id of the first player (in walking order) that is or is not
    /// backed by a with_account account.
    pub open spec fn first_player_with(&self, with_account: bool) -> Option<i32> {
        first_player_from(self.player_seq(), with_account, 0)
    }

    fn find_player(&self, with_account: bool) -> (r: Option<i32>)
        ensures
            r == self.first_player_with(with_account),
    {
        let mut i: usize = 0;
        while i < self.players.len()
            invariant
                i <= self.player_seq().len(),
                first_player_from(self.player_seq(), with_account, i as int) == first_player_from(self.player_seq(), with_account, 0),
            decreases self.player_seq().len() - i,
        {
            let p = self.players.value_at(i);
            if p.has_real_account == with_account {
                return Some(p.player_id);
            }
            i += 1;
        }
        None
    }

    pub fn local_player_id(&self) -> (r: Option<i32>)
        ensures
            r == self.first_player_with(true),
            match r {
                Some(p) => exists|k: i64|
                    self@.players.contains_key(k) && #[trigger] self@.players[k].player_id == p
                        && self@.players[k].has_real_account == true,
                None => forall|k: i64|
                    self@.players.contains_key(k) ==> #[trigger] self@.players[k].has_real_account != true,
            },
    {
        self.lemma_walks();
        proof {
            lemma_first_player(self.player_seq(), true, 0);
            let s = self.player_seq();
            match self.first_player_with(true) {
                Some(p) => {
                    let j = choose|j: int| 0 <= j < s.len() && s[j].1.has_real_account == true && s[j].1.player_id == p;
                    assert(self@.players[s[j].0] == s[j].1);
                },
                None => {
                    assert forall|k: i64| self@.players.contains_key(k) implies #[trigger] self@.players[k].has_real_account
                        != true by {
                        let j = choose|j: int| 0 <= j < s.len() && s[j].0 == k;
                        assert(self@.players[s[j].0] == s[j].1);
                    }
                },
            }
        }
        self.find_player(true)
    }

    pub fn dummy_player_id(&self) -> (r: Option<i32>)
        ensures
            r == self.first_player_with(false),
            match r {
                Some(p) => exists|k: i64|
                    self@.players.contains_key(k) && #[trigger] self@.players[k].player_id == p
                        && self@.players[k].has_real_account == false,
                None => forall|k: i64|
                    self@.players.contains_key(k) ==> #[trigger] self@.players[k].has_real_account != false,
            },
    {
        self.lemma_walks();
        proof {
            lemma_first_player(self.player_seq(), false, 0);
            let s = self.player_seq();
            match self.first_player_with(false) {
                Some(p) => {
                    let j = choose|j: int| 0 <= j < s.len() && s[j].1.has_real_account == false && s[j].1.player_id == p;
                    assert(self@.players[s[j].0] == s[j].1);
                },
                None => {
                    assert forall|k: i64| self@.players.contains_key(k) implies #[trigger] self@.players[k].has_real_account
                        != false by {
                        let j = choose|j: int| 0 <= j < s.len() && s[j].0 == k;
                        assert(self@.players[s[j].0] == s[j].1);
                    }
                },
            }
        }
        self.find_player(false)
    }

    pub fn local_player_name(&self) -> (r: Option<&str>)
        ensures
            opt_str(r) == (match self.first_player_with(true) {
                Some(id) => if self@.player_names.contains_key(id as i64) {
                    Some(self@.player_names[id as i64])
                } else {
                    None
                },
                None => None,
            }),
    {
        match self.local_player_id() {
            Some(id) => self.player_name(id),
            None => None,
        }
    }

    pub fn leaderboard_place(&self, player_id: i32) -> (r: Option<i32>)
        ensures
            r == (if self@.places.contains_key(player_id as i64) {
                Some(self@.places[player_id as i64])
            } else {
                None
            }),
    {
        match self.leaderboard_place_by_player.get(player_id as i64) {
            Some(p) => Some(*p),
            None => None,
        }
    }

    pub open spec fn spec_player_entity(&self, player_id: i32) -> Option<EntityV> {
        if self@.players.contains_key(player_id as i64) {
            let eid = self@.players[player_id as i64].entity_id;
            if self@.entities.contains_key(eid as i64) {
                Some(self@.entities[eid as i64])
            } else {
                None
            }
        } else {
            None
        }
    }

    pub fn player_entity(&self, player_id: i32) -> (r: Option<&Entity>)
        ensures
            match r {
                Some(e) => self.spec_player_entity(player_id) == Some(e@),
                None => self.spec_player_entity(player_id) is None,
            },
    {
        match self.player(player_id) {
            Some(p) => self.entity(p.entity_id),
            None => None,
        }
    }

    /// The latest player tag: a value addressed to the player's name wins
    /// over the player entity's own tag.
    pub open spec fn spec_player_tag(&self, player_id: i32, tag: Seq<char>) -> Option<TagValueV> {
        let named = if self@.player_names.contains_key(player_id as i64) {
            let name = self@.player_names[player_id as i64];
            if self@.named_target_tags.contains_key(name) && self@.named_target_tags[name].contains_key(tag) {
                Some(self@.named_target_tags[name][tag])
            } else {
                None
            }
        } else {
            None
        };
        match named {
            Some(v) => Some(v),
            None => match self.spec_player_entity(player_id) {
                Some(e) => if e.tags.contains_key(tag) {
                    Some(e.tags[tag])
                } else {
                    None
                },
                None => None,
            },
        }
    }

    pub fn player_tag(&self, player_id: i32, tag: &str) -> (r: Option<&TagValue>)
        ensures
            match r {
                Some(v) => self.spec_player_tag(player_id, tag@) == Some(v@),
                None => self.spec_player_tag(player_id, tag@) is None,
            },
    {
        let t = chars_of(tag);
        if let Some(name) = self.player_names.get(player_id as i64) {
            let nc = chars_of(name.as_str());
            if let Some(tags) = self.named_target_tags.get(&nc) {
                if let Some(v) = tags.get(&t) {
                    return Some(v);
                }
            }
        }
        match self.player_entity(player_id) {
            Some(e) => e.tag_chars(&t),
            None => None,
        }
    }

    fn take_entity(&mut self, id: u32) -> (r: Entity)
        ensures
            r@ == base_entity(old(self)@, id),
            final(self)@ == (StoreV { entities: old(self)@.entities.remove(id as i64), ..old(self)@ }),
    {
        match self.entities.remove(id as i64) {
            Some(e) => e,
            None => Entity::new(id),
        }
    }

    /// Applies one Power event; the walks keep listing the maps.
    pub fn apply(&mut self, event: &PowerEvent)
        ensures
            final(self)@ == spec_apply(old(self)@, event@),
            final(self).walks_ok(),
    {
        self.apply_event(event);
        self.lemma_walks();
    }

    fn apply_event(&mut self, event: &PowerEvent)
        ensures
            final(self)@ == spec_apply(old(self)@, event@),
    {
        match event {
            PowerEvent::CreateGame => self.clear(),
            PowerEvent::GameEntityDeclared { entity_id } => {
                self.game_entity_id = Some(*entity_id);
            },
            PowerEvent::PlayerDeclared { entity_id, player_id, has_real_account } => {
                self.players.insert(
                    *player_id as i64,
                    PlayerRecord {
                        entity_id: *entity_id,
                        player_id: *player_id,
                        has_real_account: *has_real_account,
                    },
                );
                let mut e = self.take_entity(*entity_id);
                e.tags.insert(chars_of("PLAYER_ID"), TagValue::Int(*player_id as i64));
                e.tags.insert(chars_of("CARDTYPE"), TagValue::Symbol(string_of(&chars_of("PLAYER"))));
                self.entities.insert(*entity_id as i64, e);
                proof {
                    assert(self@.entities =~= spec_apply(old(self)@, event@).entities);
                }
            },
            PowerEvent::PlayerNameDeclared { player_id, name } => {
                self.player_names.insert(*player_id as i64, name.clone());
            },
            PowerEvent::EntityCreated { id, card_id } => {
                let mut e = Entity::new(*id);
                e.card_id = clone_opt_string(card_id);
                self.entities.insert(*id as i64, e);
            },
            PowerEvent::EntityDefined(d) => {
                let mut e = self.take_entity(d.identity.id);
                e.apply_descriptor(d);
                self.entities.insert(d.identity.id as i64, e);
                proof {
                    assert(self@.entities =~= spec_apply(old(self)@, event@).entities);
                }
            },
            PowerEvent::EntityCardChanged { identity, new_card_id } => {
                let mut e = self.take_entity(identity.id);
                e.merge_identity(identity);
                e.card_id = Some(new_card_id.clone());
                self.entities.insert(identity.id as i64, e);
                proof {
                    assert(self@.entities =~= spec_apply(old(self)@, event@).entities);
                }
            },
            PowerEvent::TagChanged { target, tag, value } => match target {
                TagTarget::Entity(identity) => {
                    let mut e = self.take_entity(identity.id);
                    e.merge_identity(identity);
                    e.tags.insert(chars_of(tag.as_str()), value.duplicate());
                    let placement = placement(&e);
                    self.entities.insert(identity.id as i64, e);
                    if let Some((pid, place)) = placement {
                        self.leaderboard_place_by_player.insert(pid as i64, place);
                    }
                    proof {
                        assert(self@.entities =~= spec_apply(old(self)@, event@).entities);
                    }
                },
                TagTarget::GameEntity => {
                    self.game_entity_tags.insert(chars_of(tag.as_str()), value.duplicate());
                },
                TagTarget::PlayerName(name) => {
                    let nc = chars_of(name.as_str());
                    let mut tags = match self.named_target_tags.remove(&nc) {
                        Some(t) => t,
                        None => StrMap::new(),
                    };
                    tags.insert(chars_of(tag.as_str()), value.duplicate());
                    self.named_target_tags.insert(nc, tags);
                    proof {
                        assert(self@.named_target_tags =~= spec_apply(old(self)@, event@).named_target_tags);
                    }
                },
            },
            _ => {},
        }
    }
}

proof fn lemma_first_player(s: Seq<(i64, PlayerRecord)>, with_account: bool, i: int)
    requires
        0 <= i,
    ensures
        match first_player_from(s, with_account, i) {
            Some(p) => exists|j: int| i <= j < s.len() && s[j].1.has_real_account == with_account && s[j].1.player_id == p,
            None => forall|j: int| i <= j < s.len() ==> s[j].1.has_real_account != with_account,
        },
    decreases s.len() - i,
{
    if i < s.len() && s[i].1.has_real_account != with_account {
        lemma_first_player(s, with_account, i + 1);
    }
}

pub open spec fn first_player_from(s: Seq<(i64, PlayerRecord)>, with_account: bool, i: int) -> Option<i32>
    decreases s.len() - i,
{
    if i < 0 || i >= s.len() {
        None
    } else if s[i].1.has_real_account == with_account {
        Some(s[i].1.player_id)
    } else {
        first_player_from(s, with_account, i + 1)
    }
}

fn i32_of(v: Option<i64>) -> (r: Option<i32>)
    ensures
        r == to_i32(v),
{
    match v {
        Some(x) => if i32::MIN as i64 <= x && x <= i32::MAX as i64 {
            Some(x as i32)
        } else {
            None
        },
        None => None,
    }
}

fn placement(e: &Entity) -> (r: Option<(i32, i32)>)
    ensures
        r == placement_of(e@.tags),
{
    let clone_flag = match e.tag_i64("BACON_PLAYER_RESULTS_HERO_OVERRIDE") {
        Some(v) => v,
        None => 0,
    };
    if clone_flag != 0 {
        return None;
    }
    match (i32_of(e.tag_i64("PLAYER_ID")), i32_of(e.tag_i64("PLAYER_LEADERBOARD_PLACE"))) {
        (Some(pid), Some(place)) => if pid > 0 && place > 0 {
            Some((pid, place))
        } else {
            None
        },
        _ => None,
    }
}


/// Every entity other than `id` is kept as it was.
pub open spec fn others_kept(before: Map<i64, EntityV>, after: Map<i64, EntityV>, id: i64) -> bool {
    forall|k: i64|
        k != id ==> (#[trigger] after.contains_key(k) == before.contains_key(k)) && (before.contains_key(k)
            ==> after[k] == before[k])
}

/// What each fact leaves in the store: a created entity exists with its
/// CardId and no tags; a changed card takes the new CardId; a tag change
/// sets that tag to that value (on the entity, the game entity or the named
/// target); declared names and players are recorded. Entities the fact does
/// not name are kept.
pub proof fn lemma_apply_effects(s: StoreV, e: PowerEventV)
    ensures
        match e {
            PowerEventV::EntityCreated { id, card_id } => {
                let a = spec_apply(s, e).entities;
                &&& a.contains_key(id as i64)
                &&& a[id as i64].id == id
                &&& a[id as i64].card_id == card_id
                &&& a[id as i64].tags == Map::<Seq<char>, TagValueV>::empty()
                &&& others_kept(s.entities, a, id as i64)
            },
            PowerEventV::EntityCardChanged { identity, new_card_id } => {
                let a = spec_apply(s, e).entities;
                &&& a.contains_key(identity.id as i64)
                &&& a[identity.id as i64].card_id == Some(new_card_id)
                &&& others_kept(s.entities, a, identity.id as i64)
            },
            PowerEventV::TagChanged { target, tag, value } => match target {
                TagTargetV::Entity(identity) => {
                    let a = spec_apply(s, e).entities;
                    &&& a.contains_key(identity.id as i64)
                    &&& a[identity.id as i64].tags.contains_key(tag)
                    &&& a[identity.id as i64].tags[tag] == value
                    &&& others_kept(s.entities, a, identity.id as i64)
                },
                TagTargetV::GameEntity => spec_apply(s, e).game_entity_tags.contains_key(tag)
                    && spec_apply(s, e).game_entity_tags[tag] == value && spec_apply(s, e).entities == s.entities,
                TagTargetV::PlayerName(name) => spec_apply(s, e).named_target_tags.contains_key(name)
                    && spec_apply(s, e).named_target_tags[name].contains_key(tag)
                    && spec_apply(s, e).named_target_tags[name][tag] == value && spec_apply(s, e).entities == s.entities,
            },
            PowerEventV::PlayerNameDeclared { player_id, name } => spec_apply(s, e).player_names.contains_key(
                player_id as i64,
            ) && spec_apply(s, e).player_names[player_id as i64] == name,
            PowerEventV::PlayerDeclared { entity_id, player_id, has_real_account } => spec_apply(
                s,
                e,
            ).players.contains_key(player_id as i64) && spec_apply(s, e).players[player_id as i64] == (PlayerRecord {
                entity_id,
                player_id,
                has_real_account,
            }),
            _ => true,
        },
{
}

/// An entity definition (`FULL_ENTITY` / `SHOW_ENTITY`) files the entity with
/// the name and CardId it gives (keeping earlier ones it leaves out) and
/// with the zone, zone position and controller it gives as tags; other tags
/// of the entity and other entities are kept.
pub proof fn lemma_apply_defined(s: StoreV, d: crate::harness::power::event::DescriptorV)
    ensures
        ({
            let a = spec_apply(s, PowerEventV::EntityDefined(d)).entities;
            let id = d.identity.id as i64;
            let b = base_entity(s, d.identity.id);
            &&& a.contains_key(id)
            &&& a[id].card_id == (if d.identity.card_id is Some { d.identity.card_id } else { b.card_id })
            &&& a[id].name == (if d.identity.name is Some { d.identity.name } else { b.name })
            &&& (d.zone matches Some(z) ==> a[id].tags.contains_key("ZONE"@) && a[id].tags["ZONE"@] == TagValueV::Symbol(z))
            &&& (d.zone_position matches Some(p) ==> a[id].tags.contains_key("ZONE_POSITION"@)
                && a[id].tags["ZONE_POSITION"@] == TagValueV::Int(p as i64))
            &&& (d.controller matches Some(c) ==> a[id].tags.contains_key("CONTROLLER"@)
                && a[id].tags["CONTROLLER"@] == TagValueV::Int(c as i64))
            &&& forall|t: Seq<char>|
                t != "ZONE"@ && t != "ZONE_POSITION"@ && t != "CONTROLLER"@ && #[trigger] b.tags.contains_key(t)
                    ==> a[id].tags.contains_key(t) && a[id].tags[t] == b.tags[t]
            &&& others_kept(s.entities, a, id)
        }),
{
    reveal_strlit("ZONE");
    reveal_strlit("ZONE_POSITION");
    reveal_strlit("CONTROLLER");
    assert("ZONE"@.len() != "ZONE_POSITION"@.len());
    assert("ZONE"@.len() != "CONTROLLER"@.len());
    assert("ZONE_POSITION"@.len() != "CONTROLLER"@.len());
}
} // verus!
