//! Parsing of `DebugPrintEntityChoices()` / `DebugPrintEntitiesChosen()` lines.

pub mod event;
pub mod parser;
