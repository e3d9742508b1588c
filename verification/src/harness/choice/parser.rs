//! Choice line parser.

use vstd::prelude::*;

use super::event::{opt_choice, opt_descriptor, ChoiceEvent, ChoiceEventV};
use crate::harness::power::parser::{
    parse_descriptor_chars, spec_parse_descriptor, spec_unsigned_value_after, spec_value_until_ws,
    unsigned_value_after, value_until_ws, opt_chars,
};
use crate::text::{
    chars_of, find, find_exec, parse_usize, parse_usize_chars, starts_with, starts_with_exec,
    string_of, strip_prefix_chars, subrange, trim, trim_chars,
};

verus! {

/// `index` of `Entities[index]=...`.
pub open spec fn spec_index_inside_brackets(line: Seq<char>) -> Option<int> {
    match find(line, seq!['[']) {
        None => None,
        Some(o) => {
            let open = o + 1;
            match find(line.skip(open), seq![']']) {
                None => None,
                Some(c) => parse_usize(line.subrange(open, open + c)),
            }
        },
    }
}

fn index_inside_brackets(line: &[char]) -> (r: Option<usize>)
    ensures
        match r {
            Some(v) => spec_index_inside_brackets(line@) == Some(v as int),
            None => spec_index_inside_brackets(line@) is None,
        },
{
    let ob: Vec<char> = vec!['['];
    assert(ob@ == seq!['[']);
    let o = match find_exec(line, &ob) {
        None => return None,
        Some(o) => o,
    };
    assert(line.len() == line@.len());
    let rest = subrange(line, o + 1, line.len());
    assert(rest@ == line@.skip(o + 1));
    let cb: Vec<char> = vec![']'];
    assert(cb@ == seq![']']);
    let c = match find_exec(&rest, &cb) {
        None => return None,
        Some(c) => c,
    };
    assert(rest.len() == rest@.len());
    let inner = subrange(line, o + 1, o + 1 + c);
    parse_usize_chars(&inner)
}

/// The part after the first `=`, trimmed.
pub open spec fn spec_after_eq(line: Seq<char>) -> Option<Seq<char>> {
    match find(line, seq!['=']) {
        None => None,
        Some(p) => Some(trim(line.skip(p + 1))),
    }
}

fn after_eq(line: &[char]) -> (r: Option<Vec<char>>)
    ensures
        opt_chars(r) == spec_after_eq(line@),
{
    let e: Vec<char> = vec!['='];
    assert(e@ == seq!['=']);
    let p = match find_exec(line, &e) {
        None => return None,
        Some(p) => p,
    };
    assert(line.len() == line@.len());
    let rest = subrange(line, p + 1, line.len());
    assert(rest@ == line@.skip(p + 1));
    Some(trim_chars(&rest))
}

/// What a choices payload means given the currently open choice id; also
/// the open choice id afterwards.
pub open spec fn spec_choice_line(current: Option<u32>, payload: Seq<char>) -> (
    Option<ChoiceEventV>,
    Option<u32>,
) {
    if starts_with(payload, "id="@) {
        match (
            spec_unsigned_value_after(payload, "id="@),
            spec_value_until_ws(payload, "Player="@),
            spec_value_until_ws(payload, "ChoiceType="@),
            spec_unsigned_value_after(payload, "CountMin="@),
            spec_unsigned_value_after(payload, "CountMax="@),
        ) {
            (Some(id), Some(player), Some(ct), Some(cmin), Some(cmax)) => (
                Some(
                    ChoiceEventV::Opened {
                        id: id as u32,
                        player_name: player,
                        choice_type: ct,
                        count_min: cmin as usize,
                        count_max: cmax as usize,
                    },
                ),
                Some(id as u32),
            ),
            _ => (None, current),
        }
    } else if starts_with(payload, "Source="@) {
        match current {
            None => (None, current),
            Some(id) => {
                let raw = trim(payload.skip("Source="@.len() as int));
                (
                    Some(
                        ChoiceEventV::Source {
                            id,
                            source: spec_parse_descriptor(raw),
                            raw_source: raw,
                        },
                    ),
                    current,
                )
            },
        }
    } else if starts_with(payload, "Entities["@) {
        match current {
            None => (None, current),
            Some(id) => match (spec_index_inside_brackets(payload), spec_after_eq(payload)) {
                (Some(index), Some(raw)) => match spec_parse_descriptor(raw) {
                    Some(entity) => (
                        Some(ChoiceEventV::Option { id, index: index as usize, entity }),
                        current,
                    ),
                    None => (None, current),
                },
                _ => (None, current),
            },
        }
    } else {
        (None, current)
    }
}

/// What a chosen-entities payload means given the current selection id.
pub open spec fn spec_chosen_line(current: Option<u32>, payload: Seq<char>) -> (
    Option<ChoiceEventV>,
    Option<u32>,
) {
    if starts_with(payload, "id="@) {
        match (
            spec_unsigned_value_after(payload, "id="@),
            spec_unsigned_value_after(payload, "EntitiesCount="@),
        ) {
            (Some(id), Some(n)) => (
                Some(ChoiceEventV::SelectionStarted { id: id as u32, entities_count: n as usize }),
                Some(id as u32),
            ),
            _ => (None, current),
        }
    } else if starts_with(payload, "Entities["@) {
        match current {
            None => (None, current),
            Some(id) => match (spec_index_inside_brackets(payload), spec_after_eq(payload)) {
                (Some(index), Some(raw)) => match spec_parse_descriptor(raw) {
                    Some(entity) => (
                        Some(ChoiceEventV::Selected { id, index: index as usize, entity }),
                        current,
                    ),
                    None => (None, current),
                },
                _ => (None, current),
            },
        }
    } else {
        (None, current)
    }
}

pub open spec fn spec_choice_parse_line(
    choice_id: Option<u32>,
    chosen_id: Option<u32>,
    line: Seq<char>,
) -> (Option<ChoiceEventV>, Option<u32>, Option<u32>) {
    match find(line, "GameState.DebugPrintEntityChoices() - "@) {
        Some(p) => {
            let r = spec_choice_line(
                choice_id,
                trim(line.skip(p + "GameState.DebugPrintEntityChoices() - "@.len())),
            );
            (r.0, r.1, chosen_id)
        },
        None => match find(line, "GameState.DebugPrintEntitiesChosen() - "@) {
            Some(p) => {
                let r = spec_chosen_line(
                    chosen_id,
                    trim(line.skip(p + "GameState.DebugPrintEntitiesChosen() - "@.len())),
                );
                (r.0, choice_id, r.1)
            },
            None => (None, choice_id, chosen_id),
        },
    }
}

fn payload_after_marker(line: &[char], marker: &str) -> (r: Option<Vec<char>>)
    ensures
        match r {
            Some(t) => find(line@, marker@) is Some && t@ == trim(
                line@.skip(find(line@, marker@)->0 + marker@.len()),
            ),
            None => find(line@, marker@) is None,
        },
{
    let m = chars_of(marker);
    let p = match find_exec(line, &m) {
        None => return None,
        Some(p) => p,
    };
    assert(m.len() == m@.len());
    assert(line.len() == line@.len());
    let rest = subrange(line, p + m.len(), line.len());
    assert(rest@ == line@.skip(p + m@.len()));
    Some(trim_chars(&rest))
}

fn entities_line(id: u32, payload: &[char], selected: bool) -> (r: Option<ChoiceEvent>)
    ensures
        opt_choice(r) == (match (spec_index_inside_brackets(payload@), spec_after_eq(payload@)) {
            (Some(index), Some(raw)) => match spec_parse_descriptor(raw) {
                Some(entity) => Some(
                    if selected {
                        ChoiceEventV::Selected { id, index: index as usize, entity }
                    } else {
                        ChoiceEventV::Option { id, index: index as usize, entity }
                    },
                ),
                None => None,
            },
            _ => None,
        }),
{
    let index = match index_inside_brackets(payload) {
        None => return None,
        Some(i) => i,
    };
    let raw = match after_eq(payload) {
        None => return None,
        Some(r) => r,
    };
    let entity = match parse_descriptor_chars(&raw) {
        None => return None,
        Some(e) => e,
    };
    if selected {
        Some(ChoiceEvent::Selected { id, index, entity })
    } else {
        Some(ChoiceEvent::Option { id, index, entity })
    }
}

#[derive(Debug)]
pub struct ChoiceParser {
    current_choice_id: Option<u32>,
    current_chosen_id: Option<u32>,
}

impl ChoiceParser {
    pub closed spec fn choice_id(&self) -> Option<u32> {
        self.current_choice_id
    }

    pub closed spec fn chosen_id(&self) -> Option<u32> {
        self.current_chosen_id
    }

    pub fn new() -> (r: ChoiceParser)
        ensures
            r.choice_id() is None,
            r.chosen_id() is None,
    {
        ChoiceParser { current_choice_id: None, current_chosen_id: None }
    }

    pub fn reset(&mut self)
        ensures
            final(self).choice_id() is None,
            final(self).chosen_id() is None,
    {
        self.current_choice_id = None;
        self.current_chosen_id = None;
    }

    /// Parses one physical log line.
    pub fn parse_line(&mut self, line: &str) -> (r: Option<ChoiceEvent>)
        ensures
            (opt_choice(r), final(self).choice_id(), final(self).chosen_id())
                == spec_choice_parse_line(old(self).choice_id(), old(self).chosen_id(), line@),
    {
        let chars = chars_of(line);
        if let Some(payload) = payload_after_marker(&chars, "GameState.DebugPrintEntityChoices() - ") {
            return self.parse_choice_line(&payload);
        }
        if let Some(payload) = payload_after_marker(&chars, "GameState.DebugPrintEntitiesChosen() - ") {
            return self.parse_chosen_line(&payload);
        }
        None
    }

    fn parse_choice_line(&mut self, payload: &[char]) -> (r: Option<ChoiceEvent>)
        ensures
            (opt_choice(r), final(self).current_choice_id) == spec_choice_line(
                old(self).current_choice_id,
                payload@,
            ),
            final(self).current_chosen_id == old(self).current_chosen_id,
    {
        if starts_with_exec(payload, &chars_of("id=")) {
            let id = unsigned_value_after(payload, &chars_of("id="));
            let player = value_until_ws(payload, &chars_of("Player="));
            let ct = value_until_ws(payload, &chars_of("ChoiceType="));
            let cmin = unsigned_value_after(payload, &chars_of("CountMin="));
            let cmax = unsigned_value_after(payload, &chars_of("CountMax="));
            return match (id, player, ct, cmin, cmax) {
                (Some(id), Some(player), Some(ct), Some(cmin), Some(cmax)) => {
                    self.current_choice_id = Some(id);
                    Some(
                        ChoiceEvent::Opened {
                            id,
                            player_name: string_of(&player),
                            choice_type: string_of(&ct),
                            count_min: cmin as usize,
                            count_max: cmax as usize,
                        },
                    )
                },
                _ => None,
            };
        }
        if let Some(rest) = strip_prefix_chars(payload, &chars_of("Source=")) {
            let id = match self.current_choice_id {
                None => return None,
                Some(id) => id,
            };
            let raw = trim_chars(&rest);
            return Some(
                ChoiceEvent::Source {
                    id,
                    source: parse_descriptor_chars(&raw),
                    raw_source: string_of(&raw),
                },
            );
        }
        if starts_with_exec(payload, &chars_of("Entities[")) {
            let id = match self.current_choice_id {
                None => return None,
                Some(id) => id,
            };
            return entities_line(id, payload, false);
        }
        None
    }

    fn parse_chosen_line(&mut self, payload: &[char]) -> (r: Option<ChoiceEvent>)
        ensures
            (opt_choice(r), final(self).current_chosen_id) == spec_chosen_line(
                old(self).current_chosen_id,
                payload@,
            ),
            final(self).current_choice_id == old(self).current_choice_id,
    {
        if starts_with_exec(payload, &chars_of("id=")) {
            let id = unsigned_value_after(payload, &chars_of("id="));
            let n = unsigned_value_after(payload, &chars_of("EntitiesCount="));
            return match (id, n) {
                (Some(id), Some(n)) => {
                    self.current_chosen_id = Some(id);
                    Some(ChoiceEvent::SelectionStarted { id, entities_count: n as usize })
                },
                _ => None,
            };
        }
        if starts_with_exec(payload, &chars_of("Entities[")) {
            let id = match self.current_chosen_id {
                None => return None,
                Some(id) => id,
            };
            return entities_line(id, payload, true);
        }
        None
    }
}

} // verus!
