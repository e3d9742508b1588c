//! The agent and session-history settings of the coach configuration.
use vstd::prelude::*;

use crate::text::{chars_of, string_of};

verus! {

/// Session-history settings.
pub struct ComplianceConfig {
    /// Directory that saved sessions go to.
    pub history_dir: String,
    pub auto_save_sessions: bool,
    /// How many settled tasks the task ledger keeps.
    pub task_history_limit: usize,
}

impl Default for ComplianceConfig {
    fn default() -> (r: Self)
        ensures
            r.history_dir@ == "hearthcoach_sessions"@,
            r.auto_save_sessions,
            r.task_history_limit == 200,
    {
        ComplianceConfig {
            history_dir: string_of(&chars_of("hearthcoach_sessions")),
            auto_save_sessions: true,
            task_history_limit: 200,
        }
    }
}

/// Settings of the local agent.
pub struct AgentConfig {
    pub enabled: bool,
    pub auto_plan_during_combat: bool,
    /// Prepare a composition guide as soon as the lobby's tribes are known.
    pub auto_prepare_guide: bool,
    /// Rounds whose trinket offer is planned one combat ahead.
    pub trinket_rounds: Vec<u32>,
    /// Effective health at or below which the plan turns to survival.
    pub critical_health: i32,
    /// Effective health at or below which greedy plans stop.
    pub emergency_health: i32,
}

impl Default for AgentConfig {
    fn default() -> (r: Self)
        ensures
            r.enabled,
            r.auto_plan_during_combat,
            r.auto_prepare_guide,
            r.trinket_rounds@ == seq![6u32, 9u32],
            r.critical_health == 15,
            r.emergency_health == 8,
    {
        let mut rounds: Vec<u32> = Vec::new();
        rounds.push(6);
        rounds.push(9);
        assert(rounds@ =~= seq![6u32, 9u32]);
        AgentConfig {
            enabled: true,
            auto_plan_during_combat: true,
            auto_prepare_guide: true,
            trinket_rounds: rounds,
            critical_health: 15,
            emergency_health: 8,
        }
    }
}

} // verus!
