//! Log parsing, the entity fact store, state projection and the match runtime.


pub mod archive;
pub mod available_tribes;
pub mod card_catalog;
pub mod choice;
pub mod monitor;
pub mod power;
pub mod report;
pub mod router;
pub mod runtime;
pub mod state;

