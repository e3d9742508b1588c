//! HearthCoach harness: parses Hearthstone `Power.log` facts, keeps the entity
//! fact store, projects Battlegrounds snapshots and archives one record per round.

pub mod debug_fmt;
pub mod demo;
pub mod harness;
pub mod maps;
pub mod text;
