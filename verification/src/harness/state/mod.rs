//! The complete entity fact store and the snapshots projected from it.

pub mod entity_store;
pub mod projector;
pub mod snapshot;
