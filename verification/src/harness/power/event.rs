//! Bottom-layer Power.log facts.

use vstd::prelude::*;

use crate::text::{chars_of, parse_i64, parse_i64_chars, string_of, trim, trim_chars};

verus! {

pub type EntityId = u32;

pub open spec fn opt_view(o: Option<String>) -> Option<Seq<char>> {
    match o {
        Some(s) => Some(s@),
        None => None,
    }
}

/// A tag value: an integer where the raw text parses as `i64`, else a symbol.
#[derive(Debug)]
pub enum TagValue {
    Int(i64),
    Symbol(String),
}

pub enum TagValueV {
    Int(i64),
    Symbol(Seq<char>),
}

impl View for TagValue {
    type V = TagValueV;

    open spec fn view(&self) -> TagValueV {
        match self {
            TagValue::Int(v) => TagValueV::Int(*v),
            TagValue::Symbol(s) => TagValueV::Symbol(s@),
        }
    }
}

/// What `TagValue::parse` makes of a raw value.
pub open spec fn spec_tag_value(raw: Seq<char>) -> TagValueV {
    let t = trim(raw);
    match parse_i64(t) {
        Some(v) => TagValueV::Int(v as i64),
        None => TagValueV::Symbol(t),
    }
}

impl TagValue {
    pub fn parse(raw: &str) -> (r: TagValue)
        ensures
            r@ == spec_tag_value(raw@),
    {
        let chars = chars_of(raw);
        Self::parse_chars(&chars)
    }

    pub fn parse_chars(raw: &[char]) -> (r: TagValue)
        ensures
            r@ == spec_tag_value(raw@),
    {
        let t = trim_chars(raw);
        match parse_i64_chars(&t) {
            Some(v) => TagValue::Int(v),
            None => TagValue::Symbol(string_of(&t)),
        }
    }

    pub fn as_i64(&self) -> (r: Option<i64>)
        ensures
            r == (match self@ {
                TagValueV::Int(v) => Some(v),
                TagValueV::Symbol(_) => None,
            }),
    {
        match self {
            TagValue::Int(v) => Some(*v),
            TagValue::Symbol(_) => None,
        }
    }

    pub fn as_str(&self) -> (r: Option<&str>)
        ensures
            match self@ {
                TagValueV::Int(_) => r is None,
                TagValueV::Symbol(s) => r is Some && r->0@ == s,
            },
    {
        match self {
            TagValue::Int(_) => None,
            TagValue::Symbol(v) => Some(v.as_str()),
        }
    }

    /// A copy with the same view.
    pub fn duplicate(&self) -> (r: TagValue)
        ensures
            r@ == self@,
    {
        match self {
            TagValue::Int(v) => TagValue::Int(*v),
            TagValue::Symbol(s) => TagValue::Symbol(s.clone()),
        }
    }
}

#[derive(Debug)]
pub struct EntityIdentity {
    pub id: EntityId,
    pub name: Option<String>,
    pub card_id: Option<String>,
}

pub struct IdentityV {
    pub id: EntityId,
    pub name: Option<Seq<char>>,
    pub card_id: Option<Seq<char>>,
}

impl View for EntityIdentity {
    type V = IdentityV;

    open spec fn view(&self) -> IdentityV {
        IdentityV { id: self.id, name: opt_view(self.name), card_id: opt_view(self.card_id) }
    }
}

pub fn clone_opt_string(o: &Option<String>) -> (r: Option<String>)
    ensures
        opt_view(r) == opt_view(*o),
{
    match o {
        Some(s) => Some(s.clone()),
        None => None,
    }
}

impl EntityIdentity {
    pub fn duplicate(&self) -> (r: EntityIdentity)
        ensures
            r@ == self@,
    {
        EntityIdentity {
            id: self.id,
            name: clone_opt_string(&self.name),
            card_id: clone_opt_string(&self.card_id),
        }
    }
}

#[derive(Debug)]
pub struct EntityDescriptor {
    pub identity: EntityIdentity,
    pub zone: Option<String>,
    pub zone_position: Option<i32>,
    pub controller: Option<i32>,
}

pub struct DescriptorV {
    pub identity: IdentityV,
    pub zone: Option<Seq<char>>,
    pub zone_position: Option<i32>,
    pub controller: Option<i32>,
}

impl View for EntityDescriptor {
    type V = DescriptorV;

    open spec fn view(&self) -> DescriptorV {
        DescriptorV {
            identity: self.identity@,
            zone: opt_view(self.zone),
            zone_position: self.zone_position,
            controller: self.controller,
        }
    }
}

impl EntityDescriptor {
    pub fn duplicate(&self) -> (r: EntityDescriptor)
        ensures
            r@ == self@,
    {
        EntityDescriptor {
            identity: self.identity.duplicate(),
            zone: clone_opt_string(&self.zone),
            zone_position: self.zone_position,
            controller: self.controller,
        }
    }
}

#[derive(Debug)]
pub enum TagTarget {
    Entity(EntityIdentity),
    GameEntity,
    PlayerName(String),
}

pub enum TagTargetV {
    Entity(IdentityV),
    GameEntity,
    PlayerName(Seq<char>),
}

impl View for TagTarget {
    type V = TagTargetV;

    open spec fn view(&self) -> TagTargetV {
        match self {
            TagTarget::Entity(i) => TagTargetV::Entity(i@),
            TagTarget::GameEntity => TagTargetV::GameEntity,
            TagTarget::PlayerName(n) => TagTargetV::PlayerName(n@),
        }
    }
}

/// Bottom-layer facts only. Battlegrounds semantics such as Buy/Refresh are
/// inferred later by the runtime.
#[derive(Debug)]
pub enum PowerEvent {
    CreateGame,
    GameEntityDeclared { entity_id: EntityId },
    PlayerDeclared { entity_id: EntityId, player_id: i32, has_real_account: bool },
    PlayerNameDeclared { player_id: i32, name: String },
    /// `FULL_ENTITY - Creating` replaces an old entity with the same id.
    EntityCreated { id: EntityId, card_id: Option<String> },
    EntityDefined(EntityDescriptor),
    EntityCardChanged { identity: EntityIdentity, new_card_id: String },
    TagChanged { target: TagTarget, tag: String, value: TagValue },
    /// Direct player input reported by `GameState.SendOption()`.
    UserOptionSent {
        selected_option: i32,
        selected_target: Option<EntityId>,
        selected_position: Option<i32>,
    },
    /// `Entity` and `Target` are parsed independently.
    BlockStarted {
        block_type: String,
        source: Option<EntityIdentity>,
        target: Option<EntityIdentity>,
        effect_card_id: Option<String>,
    },
    BlockEnded,
}

pub open spec fn opt_identity_view(o: Option<EntityIdentity>) -> Option<IdentityV> {
    match o {
        Some(i) => Some(i@),
        None => None,
    }
}

pub enum PowerEventV {
    CreateGame,
    GameEntityDeclared { entity_id: EntityId },
    PlayerDeclared { entity_id: EntityId, player_id: i32, has_real_account: bool },
    PlayerNameDeclared { player_id: i32, name: Seq<char> },
    EntityCreated { id: EntityId, card_id: Option<Seq<char>> },
    EntityDefined(DescriptorV),
    EntityCardChanged { identity: IdentityV, new_card_id: Seq<char> },
    TagChanged { target: TagTargetV, tag: Seq<char>, value: TagValueV },
    UserOptionSent {
        selected_option: i32,
        selected_target: Option<EntityId>,
        selected_position: Option<i32>,
    },
    BlockStarted {
        block_type: Seq<char>,
        source: Option<IdentityV>,
        target: Option<IdentityV>,
        effect_card_id: Option<Seq<char>>,
    },
    BlockEnded,
}

impl View for PowerEvent {
    type V = PowerEventV;

    open spec fn view(&self) -> PowerEventV {
        match self {
            PowerEvent::CreateGame => PowerEventV::CreateGame,
            PowerEvent::GameEntityDeclared { entity_id } => PowerEventV::GameEntityDeclared {
                entity_id: *entity_id,
            },
            PowerEvent::PlayerDeclared { entity_id, player_id, has_real_account } =>
                PowerEventV::PlayerDeclared {
                entity_id: *entity_id,
                player_id: *player_id,
                has_real_account: *has_real_account,
            },
            PowerEvent::PlayerNameDeclared { player_id, name } => PowerEventV::PlayerNameDeclared {
                player_id: *player_id,
                name: name@,
            },
            PowerEvent::EntityCreated { id, card_id } => PowerEventV::EntityCreated {
                id: *id,
                card_id: opt_view(*card_id),
            },
            PowerEvent::EntityDefined(d) => PowerEventV::EntityDefined(d@),
            PowerEvent::EntityCardChanged { identity, new_card_id } =>
                PowerEventV::EntityCardChanged { identity: identity@, new_card_id: new_card_id@ },
            PowerEvent::TagChanged { target, tag, value } => PowerEventV::TagChanged {
                target: target@,
                tag: tag@,
                value: value@,
            },
            PowerEvent::UserOptionSent { selected_option, selected_target, selected_position } =>
                PowerEventV::UserOptionSent {
                selected_option: *selected_option,
                selected_target: *selected_target,
                selected_position: *selected_position,
            },
            PowerEvent::BlockStarted { block_type, source, target, effect_card_id } =>
                PowerEventV::BlockStarted {
                block_type: block_type@,
                source: opt_identity_view(*source),
                target: opt_identity_view(*target),
                effect_card_id: opt_view(*effect_card_id),
            },
            PowerEvent::BlockEnded => PowerEventV::BlockEnded,
        }
    }
}

} // verus!
