//! Choice facts.

use vstd::prelude::*;

use crate::harness::power::event::{DescriptorV, EntityDescriptor};

verus! {

#[derive(Debug)]
pub enum ChoiceEvent {
    Opened { id: u32, player_name: String, choice_type: String, count_min: usize, count_max: usize },
    Source { id: u32, source: Option<EntityDescriptor>, raw_source: String },
    Option { id: u32, index: usize, entity: EntityDescriptor },
    SelectionStarted { id: u32, entities_count: usize },
    Selected { id: u32, index: usize, entity: EntityDescriptor },
}

pub enum ChoiceEventV {
    Opened { id: u32, player_name: Seq<char>, choice_type: Seq<char>, count_min: usize, count_max: usize },
    Source { id: u32, source: Option<DescriptorV>, raw_source: Seq<char> },
    Option { id: u32, index: usize, entity: DescriptorV },
    SelectionStarted { id: u32, entities_count: usize },
    Selected { id: u32, index: usize, entity: DescriptorV },
}

pub open spec fn opt_descriptor(o: Option<EntityDescriptor>) -> Option<DescriptorV> {
    match o {
        Some(d) => Some(d@),
        None => None,
    }
}

impl View for ChoiceEvent {
    type V = ChoiceEventV;

    open spec fn view(&self) -> ChoiceEventV {
        match self {
            ChoiceEvent::Opened { id, player_name, choice_type, count_min, count_max } =>
                ChoiceEventV::Opened {
                id: *id,
                player_name: player_name@,
                choice_type: choice_type@,
                count_min: *count_min,
                count_max: *count_max,
            },
            ChoiceEvent::Source { id, source, raw_source } => ChoiceEventV::Source {
                id: *id,
                source: opt_descriptor(*source),
                raw_source: raw_source@,
            },
            ChoiceEvent::Option { id, index, entity } => ChoiceEventV::Option {
                id: *id,
                index: *index,
                entity: entity@,
            },
            ChoiceEvent::SelectionStarted { id, entities_count } => ChoiceEventV::SelectionStarted {
                id: *id,
                entities_count: *entities_count,
            },
            ChoiceEvent::Selected { id, index, entity } => ChoiceEventV::Selected {
                id: *id,
                index: *index,
                entity: entity@,
            },
        }
    }
}

pub open spec fn opt_choice(o: Option<ChoiceEvent>) -> Option<ChoiceEventV> {
    match o {
        Some(e) => Some(e@),
        None => None,
    }
}

} // verus!
