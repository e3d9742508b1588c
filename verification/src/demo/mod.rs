//! Coach-side logic around the harness: the Hearthstone log configuration,
//! planner data, the local agent view, the HDT knowledge layer and the task
//! ledger.

pub mod agent;
pub mod coach;
pub mod compliance;
pub mod config;
pub mod control_center;
pub mod deepseek;
pub mod environment;
pub mod hdt_knowledge;
pub mod model;
pub mod overlay;
pub mod server;
