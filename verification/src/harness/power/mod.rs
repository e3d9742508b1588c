//! Parsing of `GameState.DebugPrintPower()` and related Power.log lines.

pub mod event;
pub mod parser;
