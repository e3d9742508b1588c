//! Routes each physical log line to the Choice parser first, then the Power parser.

use vstd::prelude::*;

use crate::harness::choice::event::{opt_choice, ChoiceEvent, ChoiceEventV};
use crate::harness::choice::parser::{spec_choice_parse_line, ChoiceParser};
use crate::harness::power::event::{opt_view, PowerEvent, PowerEventV};
use crate::harness::power::parser::{
    spec_parse_line, LineParseResult, LineResultV, PendingV, PowerParser,
};
use crate::text::{
    chars_eq, chars_of, first_token, first_token_chars, skip_ws_from, string_of, subrange,
    token_end, token_end_from, ws_skip,
};

verus! {

#[derive(Debug)]
pub enum LogEvent {
    Power(PowerEvent),
    Choice(ChoiceEvent),
}

pub enum LogEventV {
    Power(PowerEventV),
    Choice(ChoiceEventV),
}

impl View for LogEvent {
    type V = LogEventV;

    open spec fn view(&self) -> LogEventV {
        match self {
            LogEvent::Power(e) => LogEventV::Power(e@),
            LogEvent::Choice(e) => LogEventV::Choice(e@),
        }
    }
}

#[derive(Debug)]
pub struct ParsedLogEvent {
    pub timestamp: Option<String>,
    pub event: LogEvent,
}

pub struct ParsedV {
    pub timestamp: Option<Seq<char>>,
    pub event: LogEventV,
}

impl View for ParsedLogEvent {
    type V = ParsedV;

    open spec fn view(&self) -> ParsedV {
        ParsedV { timestamp: opt_view(self.timestamp), event: self.event@ }
    }
}

pub open spec fn opt_parsed(o: Option<ParsedLogEvent>) -> Option<ParsedV> {
    match o {
        Some(p) => Some(p@),
        None => None,
    }
}

/// The text after the first whitespace-separated token.
pub open spec fn after_first_token(s: Seq<char>) -> Seq<char> {
    s.skip(token_end(s, ws_skip(s, 0)))
}

/// The second whitespace-separated token when the first is a log level
/// `D`, `W`, `E` or `I`.
pub open spec fn spec_extract_timestamp(line: Seq<char>) -> Option<Seq<char>> {
    let level = first_token(line);
    if level == "D"@ || level == "W"@ || level == "E"@ || level == "I"@ {
        let t = first_token(after_first_token(line));
        if t.len() == 0 {
            None
        } else {
            Some(t)
        }
    } else {
        None
    }
}

pub fn extract_timestamp(line: &str) -> (r: Option<String>)
    ensures
        opt_view(r) == spec_extract_timestamp(line@),
{
    let chars = chars_of(line);
    let a = skip_ws_from(&chars, 0);
    let b = token_end_from(&chars, a);
    let level = subrange(&chars, a, b);
    if !(chars_eq(&level, &chars_of("D")) || chars_eq(&level, &chars_of("W"))
        || chars_eq(&level, &chars_of("E")) || chars_eq(&level, &chars_of("I"))) {
        return None;
    }
    let rest = subrange(&chars, b, chars.len());
    assert(rest@ == after_first_token(chars@));
    let t = first_token_chars(&rest);
    if t.len() == 0 {
        None
    } else {
        Some(string_of(&t))
    }
}

/// Result of routing one line: the event, and the parsers' states afterwards.
pub open spec fn spec_route(
    pending: Option<PendingV>,
    choice_id: Option<u32>,
    chosen_id: Option<u32>,
    line: Seq<char>,
) -> (Option<ParsedV>, Option<PendingV>, Option<u32>, Option<u32>) {
    let ts = spec_extract_timestamp(line);
    let c = spec_choice_parse_line(choice_id, chosen_id, line);
    match c.0 {
        Some(e) => (Some(ParsedV { timestamp: ts, event: LogEventV::Choice(e) }), pending, c.1, c.2),
        None => {
            let p = spec_parse_line(pending, line);
            match p.0 {
                LineResultV::Event(e) => (
                    Some(ParsedV { timestamp: ts, event: LogEventV::Power(e) }),
                    p.1,
                    c.1,
                    c.2,
                ),
                _ => (None, p.1, c.1, c.2),
            }
        },
    }
}

#[derive(Debug)]
pub struct LogRouter {
    power: PowerParser,
    choice: ChoiceParser,
}

impl LogRouter {
    pub closed spec fn pending(&self) -> Option<PendingV> {
        self.power.pending()
    }

    pub closed spec fn choice_id(&self) -> Option<u32> {
        self.choice.choice_id()
    }

    pub closed spec fn chosen_id(&self) -> Option<u32> {
        self.choice.chosen_id()
    }

    /// The router's state is its parsers' states: nothing pending, no open choice.
    pub open spec fn is_fresh(&self) -> bool {
        self.pending() is None && self.choice_id() is None && self.chosen_id() is None
    }

    pub fn new() -> (r: LogRouter)
        ensures
            r.is_fresh(),
    {
        LogRouter { power: PowerParser::new(), choice: ChoiceParser::new() }
    }

    pub fn reset(&mut self)
        ensures
            final(self).is_fresh(),
    {
        self.power.reset();
        self.choice.reset();
    }

    pub fn parse_line(&mut self, line: &str) -> (r: Option<ParsedLogEvent>)
        ensures
            (opt_parsed(r), final(self).pending(), final(self).choice_id(), final(self).chosen_id())
                == spec_route(old(self).pending(), old(self).choice_id(), old(self).chosen_id(), line@),
    {
        let timestamp = extract_timestamp(line);
        if let Some(event) = self.choice.parse_line(line) {
            return Some(ParsedLogEvent { timestamp, event: LogEvent::Choice(event) });
        }
        match self.power.parse_line(line) {
            LineParseResult::Event(event) => Some(ParsedLogEvent { timestamp, event: LogEvent::Power(event) }),
            _ => None,
        }
    }
}

} // verus!
