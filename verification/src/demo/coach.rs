//! The live coach's decisions: how each runtime event, trinket-ranking
//! result and chat request moves the coach's state, and what work it asks
//! for. The work itself (planner and chat requests, snapshots, tracing,
//! session files) is carried out by the caller, which feeds back its results
//! as further events.

use vstd::prelude::*;

use crate::harness::archive::{ChoiceKind, RecruitActionKind};
use crate::harness::runtime::{HarnessEvent, HarnessEventV, PhaseKind};
use crate::text::{chars_eq, chars_of, eq_ignore_ascii_case, strs_view, trim_chars};

verus! {

/// The phase the coach shows.
#[derive(Debug, Clone, Copy, PartialEq, Eq, Structural)]
pub enum CoachPhase {
    Idle,
    Pregame,
    Recruit,
    Combat,
    Complete,
    Unknown,
}

/// The coach's phase name for a runtime phase.
pub open spec fn coach_phase_v(p: PhaseKind) -> CoachPhase {
    match p {
        PhaseKind::Recruit => CoachPhase::Recruit,
        PhaseKind::Combat => CoachPhase::Combat,
        PhaseKind::Complete => CoachPhase::Complete,
        PhaseKind::Pregame => CoachPhase::Pregame,
        PhaseKind::Unknown => CoachPhase::Unknown,
    }
}

pub fn coach_phase(p: PhaseKind) -> (r: CoachPhase)
    ensures
        r == coach_phase_v(p),
{
    match p {
        PhaseKind::Recruit => CoachPhase::Recruit,
        PhaseKind::Combat => CoachPhase::Combat,
        PhaseKind::Complete => CoachPhase::Complete,
        PhaseKind::Pregame => CoachPhase::Pregame,
        PhaseKind::Unknown => CoachPhase::Unknown,
    }
}

/// Why running background tasks are cancelled.
#[derive(Debug, Clone, Copy, PartialEq, Eq, Structural)]
pub enum CancelReason {
    /// A new match started.
    NewMatch,
    /// The log source changed before the match completed.
    LogRefresh,
    /// The match completed.
    MatchEnded,
    /// The coach went idle.
    MatchClosed,
}

/// Why the strategic plan is reconsidered.
#[derive(Debug, Clone, Copy, PartialEq, Eq, Structural)]
pub enum ReplanCode {
    TavernUpgrade,
    UnexpectedTrinketChoice,
    TrinketSelected,
    UserChatPlanUpdate,
}

/// Why a chat message is refused.
#[derive(Debug, Clone, Copy, PartialEq, Eq, Structural)]
pub enum ChatRejection {
    Empty,
    TooLong,
    NoApiKey,
    NoMatch,
    Busy,
    NoSnapshot,
}

/// Work the coach asks its caller for.
#[derive(Debug, Clone, Copy, PartialEq, Eq, Structural)]
pub enum CoachAction {
    CancelAllRunning(CancelReason),
    WaitForIdle { millis: u64 },
    /// Open a fresh session record and trace its start.
    ResetSession,
    FinalizeSession,
    FinalizeInterruptedSession,
    TracePhase { round_number: u32, phase: CoachPhase },
    /// Show the event's shop cards and recompute their highlights.
    ShowShop { round_number: u32, revision: u32 },
    /// Read the open choice's options from the runtime for display.
    RefreshChoiceView,
    /// Clear the displayed choice options and trinket rankings.
    ClearChoiceView,
    ProcessRecruitSnapshot,
    StoreSnapshot,
    SpawnStrategicPlan { target_round: u32, replan: Option<ReplanCode> },
    EnsurePlanForRound { round_number: u32 },
    RecomputeTactical,
    PushReplan(ReplanCode),
    StartTrinketRanking { generation: u64, round_number: u32 },
    RankTrinkets { generation: u64 },
    AbandonTrinketRanking { generation: u64 },
    ShowTrinketRankings,
    DiscardTrinketRanking,
    RejectChat(ChatRejection),
    AcceptChat,
    StartChat { generation: u64, target_round: u32 },
    ApplyPlanPatch { target_round: u32 },
    FinishChatReply { stale_patch: bool },
    DiscardChatReply,
    ChatCancelled,
    ChatError,
}

/// The coach's state.
#[derive(Debug)]
pub struct CoachState {
    pub match_active: bool,
    pub current_round: u32,
    pub phase: CoachPhase,
    /// Bumped whenever the shown phase or round changes.
    pub phase_epoch: u64,
    /// Bumped to retire planner requests still in flight.
    pub planner_generation: u64,
    pub shop_revision: u32,
    pub decision_revision: u32,
    pub refreshes_used: u8,
    pub overlay_test_mode: bool,
    pub open_choice_kind: Option<ChoiceKind>,
    pub open_choice_option_count: usize,
    pub trinket_choice_replan_pending: bool,
    pub trinket_ranking_generation: u64,
    pub trinket_option_signature: Vec<String>,
    pub trinket_ranking_busy: bool,
    pub trinket_rankings_ready: bool,
    pub chat_generation: u64,
    pub chat_busy: bool,
    pub chat_target_round: u32,
    pub has_snapshot: bool,
}

pub struct CoachStateV {
    pub match_active: bool,
    pub current_round: u32,
    pub phase: CoachPhase,
    pub phase_epoch: u64,
    pub planner_generation: u64,
    pub shop_revision: u32,
    pub decision_revision: u32,
    pub refreshes_used: u8,
    pub overlay_test_mode: bool,
    pub open_choice_kind: Option<ChoiceKind>,
    pub open_choice_option_count: usize,
    pub trinket_choice_replan_pending: bool,
    pub trinket_ranking_generation: u64,
    pub trinket_option_signature: Seq<Seq<char>>,
    pub trinket_ranking_busy: bool,
    pub trinket_rankings_ready: bool,
    pub chat_generation: u64,
    pub chat_busy: bool,
    pub chat_target_round: u32,
    pub has_snapshot: bool,
}

impl View for CoachState {
    type V = CoachStateV;

    open spec fn view(&self) -> CoachStateV {
        CoachStateV {
            match_active: self.match_active,
            current_round: self.current_round,
            phase: self.phase,
            phase_epoch: self.phase_epoch,
            planner_generation: self.planner_generation,
            shop_revision: self.shop_revision,
            decision_revision: self.decision_revision,
            refreshes_used: self.refreshes_used,
            overlay_test_mode: self.overlay_test_mode,
            open_choice_kind: self.open_choice_kind,
            open_choice_option_count: self.open_choice_option_count,
            trinket_choice_replan_pending: self.trinket_choice_replan_pending,
            trinket_ranking_generation: self.trinket_ranking_generation,
            trinket_option_signature: strs_view(self.trinket_option_signature@),
            trinket_ranking_busy: self.trinket_ranking_busy,
            trinket_rankings_ready: self.trinket_rankings_ready,
            chat_generation: self.chat_generation,
            chat_busy: self.chat_busy,
            chat_target_round: self.chat_target_round,
            has_snapshot: self.has_snapshot,
        }
    }
}

/// What the coach is told.
#[derive(Debug)]
pub enum CoachEvent {
    /// A runtime event, with what the caller read alongside it: the open
    /// choice's kind and option count, the signature of the trinket options
    /// under the current trinket plan, whether that plan already targets the
    /// current round, and the agent settings.
    Runtime {
        event: HarnessEvent,
        choice_kind: Option<ChoiceKind>,
        choice_option_count: usize,
        trinket_signature: Vec<String>,
        trinket_preplanned: bool,
        agent_enabled: bool,
        auto_plan_during_combat: bool,
    },
    /// The debounce before a trinket ranking request ran out.
    TrinketRankingDue { generation: u64 },
    /// A trinket ranking (from the model or the local fallback) is ready.
    TrinketRanked { generation: u64 },
    /// The user sent a chat message.
    ChatRequested { message: String, api_key: String, api_compatibility: String },
    /// The chat task for an accepted message was started; `plan_target` is
    /// the current round plan's target round, when there is a plan.
    ChatStarted { plan_target: Option<u32> },
    /// A chat reply arrived.
    ChatReplied { generation: u64, live_plan_target: Option<u32>, has_patch: bool },
    /// The reply's plan patch was applied; `changed` when the plan changed.
    ChatPatchApplied { changed: bool },
    /// A chat request failed or was cancelled.
    ChatFailed { generation: u64, cancelled: bool },
}

pub enum CoachEventV {
    Runtime {
        event: HarnessEventV,
        choice_kind: Option<ChoiceKind>,
        choice_option_count: usize,
        trinket_signature: Seq<Seq<char>>,
        trinket_preplanned: bool,
        agent_enabled: bool,
        auto_plan_during_combat: bool,
    },
    TrinketRankingDue { generation: u64 },
    TrinketRanked { generation: u64 },
    ChatRequested { message: Seq<char>, api_key: Seq<char>, api_compatibility: Seq<char> },
    ChatStarted { plan_target: Option<u32> },
    ChatReplied { generation: u64, live_plan_target: Option<u32>, has_patch: bool },
    ChatPatchApplied { changed: bool },
    ChatFailed { generation: u64, cancelled: bool },
}

impl View for CoachEvent {
    type V = CoachEventV;

    open spec fn view(&self) -> CoachEventV {
        match self {
            CoachEvent::Runtime {
                event,
                choice_kind,
                choice_option_count,
                trinket_signature,
                trinket_preplanned,
                agent_enabled,
                auto_plan_during_combat,
            } => CoachEventV::Runtime {
                event: event@,
                choice_kind: *choice_kind,
                choice_option_count: *choice_option_count,
                trinket_signature: strs_view(trinket_signature@),
                trinket_preplanned: *trinket_preplanned,
                agent_enabled: *agent_enabled,
                auto_plan_during_combat: *auto_plan_during_combat,
            },
            CoachEvent::TrinketRankingDue { generation } => CoachEventV::TrinketRankingDue { generation: *generation },
            CoachEvent::TrinketRanked { generation } => CoachEventV::TrinketRanked { generation: *generation },
            CoachEvent::ChatRequested { message, api_key, api_compatibility } => CoachEventV::ChatRequested {
                message: message@,
                api_key: api_key@,
                api_compatibility: api_compatibility@,
            },
            CoachEvent::ChatStarted { plan_target } => CoachEventV::ChatStarted { plan_target: *plan_target },
            CoachEvent::ChatReplied { generation, live_plan_target, has_patch } => CoachEventV::ChatReplied {
                generation: *generation,
                live_plan_target: *live_plan_target,
                has_patch: *has_patch,
            },
            CoachEvent::ChatPatchApplied { changed } => CoachEventV::ChatPatchApplied { changed: *changed },
            CoachEvent::ChatFailed { generation, cancelled } => CoachEventV::ChatFailed {
                generation: *generation,
                cancelled: *cancelled,
            },
        }
    }
}

pub open spec fn bump(x: u64) -> u64 {
    if x < u64::MAX {
        (x + 1) as u64
    } else {
        x
    }
}

/// The state before any match: nothing known, phase Pregame.
pub open spec fn fresh_v() -> CoachStateV {
    CoachStateV {
        match_active: false,
        current_round: 0,
        phase: CoachPhase::Pregame,
        phase_epoch: 0,
        planner_generation: 0,
        shop_revision: 0,
        decision_revision: 0,
        refreshes_used: 0,
        overlay_test_mode: false,
        open_choice_kind: None,
        open_choice_option_count: 0,
        trinket_choice_replan_pending: false,
        trinket_ranking_generation: 0,
        trinket_option_signature: Seq::empty(),
        trinket_ranking_busy: false,
        trinket_rankings_ready: false,
        chat_generation: 0,
        chat_busy: false,
        chat_target_round: 0,
        has_snapshot: false,
    }
}

/// Going idle after a match: everything is forgotten but the counters,
/// which move on so that no late result of the old match is taken.
pub open spec fn closed_v(s: CoachStateV) -> CoachStateV {
    CoachStateV {
        phase: CoachPhase::Idle,
        phase_epoch: bump(s.phase_epoch),
        planner_generation: bump(s.planner_generation),
        chat_generation: bump(s.chat_generation),
        trinket_ranking_generation: bump(s.trinket_ranking_generation),
        ..fresh_v()
    }
}

/// Showing phase `phase` of round `round`.
pub open spec fn phase_set_v(s: CoachStateV, round: u32, phase: CoachPhase) -> CoachStateV {
    let epoch = if s.phase != phase || s.current_round != round {
        bump(s.phase_epoch)
    } else {
        s.phase_epoch
    };
    if phase == CoachPhase::Recruit {
        CoachStateV {
            phase_epoch: epoch,
            current_round: round,
            phase,
            refreshes_used: 0,
            shop_revision: 0,
            decision_revision: 0,
            ..s
        }
    } else {
        CoachStateV {
            phase_epoch: epoch,
            current_round: round,
            phase,
            decision_revision: 0,
            overlay_test_mode: false,
            ..s
        }
    }
}

/// Asking for a trinket ranking of the options signed `sig`: only while a
/// trinket choice with options is open, and not again for the same options
/// while a ranking is running or shown.
pub open spec fn trinket_schedule_v(s: CoachStateV, sig: Seq<Seq<char>>) -> (CoachStateV, Seq<CoachAction>) {
    if s.open_choice_kind != Some(ChoiceKind::Trinket) || s.open_choice_option_count == 0 {
        (s, Seq::empty())
    } else if sig == s.trinket_option_signature && (s.trinket_ranking_busy || s.trinket_rankings_ready) {
        (s, Seq::empty())
    } else {
        let g = bump(s.trinket_ranking_generation);
        (
            CoachStateV {
                trinket_option_signature: sig,
                trinket_ranking_generation: g,
                trinket_ranking_busy: true,
                trinket_rankings_ready: false,
                ..s
            },
            seq![CoachAction::StartTrinketRanking { generation: g, round_number: s.current_round }],
        )
    }
}

/// A runtime event: its own bookkeeping, then the snapshot, then the
/// planning work it calls for.
pub open spec fn observe_v(
    s: CoachStateV,
    event: HarnessEventV,
    choice_kind: Option<ChoiceKind>,
    choice_option_count: usize,
    sig: Seq<Seq<char>>,
    preplanned: bool,
    agent_enabled: bool,
    auto_plan: bool,
) -> (CoachStateV, Seq<CoachAction>) {
    match event {
        HarnessEventV::MatchInterrupted { .. } => (
            closed_v(s),
            seq![
                CoachAction::CancelAllRunning(CancelReason::LogRefresh),
                CoachAction::WaitForIdle { millis: 300 },
                CoachAction::FinalizeInterruptedSession,
                CoachAction::CancelAllRunning(CancelReason::MatchClosed),
            ],
        ),
        HarnessEventV::MatchCompleted => (
            closed_v(s),
            seq![
                CoachAction::CancelAllRunning(CancelReason::MatchEnded),
                CoachAction::WaitForIdle { millis: 800 },
                CoachAction::FinalizeSession,
                CoachAction::CancelAllRunning(CancelReason::MatchClosed),
            ],
        ),
        HarnessEventV::ShopUpdated { round_number, revision, .. } => if !s.match_active || s.phase
            != CoachPhase::Recruit || s.current_round != round_number {
            (s, Seq::empty())
        } else {
            let s1 = CoachStateV {
                shop_revision: if revision > s.shop_revision {
                    revision
                } else {
                    s.shop_revision
                },
                decision_revision: 0,
                ..s
            };
            (
                CoachStateV { has_snapshot: true, ..s1 },
                seq![
                    CoachAction::ShowShop { round_number, revision },
                    CoachAction::ProcessRecruitSnapshot,
                    CoachAction::RecomputeTactical,
                ],
            )
        },
        _ => {
            let (s1, a1) = observe_pre_v(s, event, choice_kind, choice_option_count);
            observe_post_v(
                CoachStateV { has_snapshot: true, ..s1 },
                a1.push(CoachAction::StoreSnapshot),
                event,
                sig,
                preplanned,
                agent_enabled,
                auto_plan,
            )
        },
    }
}

/// A runtime event's own bookkeeping (other than interruption, completion
/// and shop updates).
pub open spec fn observe_pre_v(
    s: CoachStateV,
    event: HarnessEventV,
    choice_kind: Option<ChoiceKind>,
    choice_option_count: usize,
) -> (CoachStateV, Seq<CoachAction>) {
    match event {
        HarnessEventV::MatchStarted => (
            CoachStateV { match_active: true, phase_epoch: 1, ..fresh_v() },
            seq![CoachAction::CancelAllRunning(CancelReason::NewMatch), CoachAction::ResetSession],
        ),
        HarnessEventV::PhaseStarted { round_number, phase } => (
            phase_set_v(s, round_number, coach_phase_v(phase)),
            seq![CoachAction::TracePhase { round_number, phase: coach_phase_v(phase) }],
        ),
        HarnessEventV::RecruitAction { kind, .. } => (
            if kind == RecruitActionKind::Refresh {
                CoachStateV {
                    refreshes_used: if s.refreshes_used < u8::MAX {
                        (s.refreshes_used + 1) as u8
                    } else {
                        s.refreshes_used
                    },
                    ..s
                }
            } else {
                s
            },
            Seq::empty(),
        ),
        HarnessEventV::ChoiceOpened { .. } | HarnessEventV::ChoiceUpdated { .. } => (
            CoachStateV {
                open_choice_kind: choice_kind,
                open_choice_option_count: choice_option_count,
                ..s
            },
            seq![CoachAction::RefreshChoiceView],
        ),
        _ => (s, Seq::empty()),
    }
}

/// The planning work a runtime event calls for, after its snapshot `s2`
/// with the actions `a2` so far.
pub open spec fn observe_post_v(
    s2: CoachStateV,
    a2: Seq<CoachAction>,
    event: HarnessEventV,
    sig: Seq<Seq<char>>,
    preplanned: bool,
    agent_enabled: bool,
    auto_plan: bool,
) -> (CoachStateV, Seq<CoachAction>) {
    match event {
        HarnessEventV::PhaseStarted { round_number, phase } => if phase == PhaseKind::Combat {
            if agent_enabled && auto_plan {
                (
                    s2,
                    a2.push(
                        CoachAction::SpawnStrategicPlan {
                            target_round: if round_number < u32::MAX {
                                (round_number + 1) as u32
                            } else {
                                round_number
                            },
                            replan: None,
                        },
                    ),
                )
            } else {
                (s2, a2)
            }
        } else if phase == PhaseKind::Recruit {
            (s2, a2.push(CoachAction::EnsurePlanForRound { round_number }))
        } else {
            (s2, a2)
        },
        HarnessEventV::RecruitAction { kind, .. } => if kind == RecruitActionKind::TavernUpgrade {
            (s2, a2.push(CoachAction::PushReplan(ReplanCode::TavernUpgrade)))
        } else if kind != RecruitActionKind::Refresh {
            (s2, a2.push(CoachAction::RecomputeTactical))
        } else {
            (s2, a2)
        },
        HarnessEventV::ChoiceOpened { .. } | HarnessEventV::ChoiceUpdated { .. } => {
            let trinket = s2.open_choice_kind == Some(ChoiceKind::Trinket);
            let request = trinket && !preplanned && !s2.trinket_choice_replan_pending;
            let s3 = if request {
                CoachStateV { trinket_choice_replan_pending: true, ..s2 }
            } else {
                s2
            };
            let a3 = if request {
                a2.push(
                    CoachAction::SpawnStrategicPlan {
                        target_round: s2.current_round,
                        replan: Some(ReplanCode::UnexpectedTrinketChoice),
                    },
                )
            } else {
                a2
            };
            if trinket {
                let (s4, a4) = trinket_schedule_v(s3, sig);
                (s4, a3 + a4)
            } else {
                (s3, a3)
            }
        },
        HarnessEventV::ChoiceResolved { .. } => {
            let trinket = s2.open_choice_kind == Some(ChoiceKind::Trinket);
            let s3 = CoachStateV {
                open_choice_option_count: 0,
                trinket_choice_replan_pending: false,
                trinket_ranking_generation: bump(s2.trinket_ranking_generation),
                trinket_option_signature: Seq::empty(),
                trinket_rankings_ready: false,
                trinket_ranking_busy: false,
                open_choice_kind: None,
                ..s2
            };
            let a3 = a2.push(CoachAction::ClearChoiceView);
            if trinket {
                (s3, a3.push(CoachAction::PushReplan(ReplanCode::TrinketSelected)))
            } else {
                (s3, a3)
            }
        },
        _ => (s2, a2),
    }

}

/// Whether a chat message may be sent, and why not.
pub open spec fn chat_check_v(s: CoachStateV, message: Seq<char>, api_key: Seq<char>, compat: Seq<char>) -> Option<
    ChatRejection,
> {
    let m = crate::text::trim(message);
    if m.len() == 0 {
        Some(ChatRejection::Empty)
    } else if m.len() > 500 {
        Some(ChatRejection::TooLong)
    } else if crate::text::trim(api_key).len() == 0 && crate::text::eq_ignore_case(compat, "deepseek"@) {
        Some(ChatRejection::NoApiKey)
    } else if !s.match_active || s.current_round == 0 {
        Some(ChatRejection::NoMatch)
    } else if s.chat_busy {
        Some(ChatRejection::Busy)
    } else if !s.has_snapshot {
        Some(ChatRejection::NoSnapshot)
    } else {
        None
    }
}

/// One step of the coach.
pub open spec fn coach_step_v(s: CoachStateV, e: CoachEventV) -> (CoachStateV, Seq<CoachAction>) {
    match e {
        CoachEventV::Runtime {
            event,
            choice_kind,
            choice_option_count,
            trinket_signature,
            trinket_preplanned,
            agent_enabled,
            auto_plan_during_combat,
        } => observe_v(
            s,
            event,
            choice_kind,
            choice_option_count,
            trinket_signature,
            trinket_preplanned,
            agent_enabled,
            auto_plan_during_combat,
        ),
        CoachEventV::TrinketRankingDue { generation } => if generation == s.trinket_ranking_generation
            && s.open_choice_kind == Some(ChoiceKind::Trinket) && s.open_choice_option_count > 0 {
            (s, seq![CoachAction::RankTrinkets { generation }])
        } else {
            (s, seq![CoachAction::AbandonTrinketRanking { generation }])
        },
        CoachEventV::TrinketRanked { generation } => if generation != s.trinket_ranking_generation
            || s.open_choice_kind != Some(ChoiceKind::Trinket) {
            (s, seq![CoachAction::DiscardTrinketRanking])
        } else {
            (
                CoachStateV { trinket_ranking_busy: false, trinket_rankings_ready: true, ..s },
                seq![CoachAction::ShowTrinketRankings],
            )
        },
        CoachEventV::ChatRequested { message, api_key, api_compatibility } => match chat_check_v(
            s,
            message,
            api_key,
            api_compatibility,
        ) {
            Some(why) => (s, seq![CoachAction::RejectChat(why)]),
            None => (s, seq![CoachAction::AcceptChat]),
        },
        CoachEventV::ChatStarted { plan_target } => {
            let g = bump(s.chat_generation);
            let target = match plan_target {
                Some(t) if t > 0 => t,
                _ => if s.phase == CoachPhase::Combat && s.current_round < u32::MAX {
                    (s.current_round + 1) as u32
                } else {
                    s.current_round
                },
            };
            (
                CoachStateV { chat_generation: g, chat_busy: true, chat_target_round: target, ..s },
                seq![CoachAction::StartChat { generation: g, target_round: target }],
            )
        },
        CoachEventV::ChatReplied { generation, live_plan_target, has_patch } => if generation != s.chat_generation
            || !s.match_active {
            (s, seq![CoachAction::DiscardChatReply])
        } else {
            let stale = s.current_round > s.chat_target_round || match live_plan_target {
                Some(t) => t > 0 && t != s.chat_target_round,
                None => false,
            };
            let a = if !stale && has_patch {
                seq![CoachAction::ApplyPlanPatch { target_round: s.chat_target_round }]
            } else {
                Seq::empty()
            };
            (
                CoachStateV { chat_busy: false, ..s },
                a.push(CoachAction::FinishChatReply { stale_patch: stale && has_patch }),
            )
        },
        CoachEventV::ChatPatchApplied { changed } => if changed {
            (
                CoachStateV { planner_generation: bump(s.planner_generation), ..s },
                seq![CoachAction::PushReplan(ReplanCode::UserChatPlanUpdate), CoachAction::RecomputeTactical],
            )
        } else {
            (s, Seq::empty())
        },
        CoachEventV::ChatFailed { generation, cancelled } => if cancelled {
            if generation == s.chat_generation {
                (CoachStateV { chat_busy: false, ..s }, seq![CoachAction::ChatCancelled])
            } else {
                (s, seq![CoachAction::ChatCancelled])
            }
        } else if generation != s.chat_generation {
            (s, seq![CoachAction::DiscardChatReply])
        } else {
            (CoachStateV { chat_busy: false, ..s }, seq![CoachAction::ChatError])
        },
    }
}

fn bump_u64(x: u64) -> (r: u64)
    ensures
        r == bump(x),
{
    if x < u64::MAX {
        x + 1
    } else {
        x
    }
}

fn strings_eq(a: &Vec<String>, b: &Vec<String>) -> (r: bool)
    ensures
        r == (strs_view(a@) == strs_view(b@)),
{
    if a.len() != b.len() {
        assert(strs_view(a@).len() != strs_view(b@).len());
        return false;
    }
    let mut i: usize = 0;
    while i < a.len()
        invariant
            i <= a@.len(),
            a@.len() == b@.len(),
            forall|k: int| 0 <= k < i ==> a@[k]@ == b@[k]@,
        decreases a@.len() - i,
    {
        if !chars_eq(&chars_of(a[i].as_str()), &chars_of(b[i].as_str())) {
            assert(strs_view(a@)[i as int] != strs_view(b@)[i as int]);
            return false;
        }
        i += 1;
    }
    assert(strs_view(a@) =~= strs_view(b@));
    true
}

impl CoachState {
    /// The coach before any match.
    pub fn new() -> (r: CoachState)
        ensures
            r@ == fresh_v(),
    {
        let r = CoachState {
            match_active: false,
            current_round: 0,
            phase: CoachPhase::Pregame,
            phase_epoch: 0,
            planner_generation: 0,
            shop_revision: 0,
            decision_revision: 0,
            refreshes_used: 0,
            overlay_test_mode: false,
            open_choice_kind: None,
            open_choice_option_count: 0,
            trinket_choice_replan_pending: false,
            trinket_ranking_generation: 0,
            trinket_option_signature: Vec::new(),
            trinket_ranking_busy: false,
            trinket_rankings_ready: false,
            chat_generation: 0,
            chat_busy: false,
            chat_target_round: 0,
            has_snapshot: false,
        };
        assert(r@.trinket_option_signature =~= Seq::<Seq<char>>::empty());
        r
    }

    /// A copy of the state.
    pub fn duplicate(&self) -> (r: CoachState)
        ensures
            r@ == self@,
    {
        CoachState {
            match_active: self.match_active,
            current_round: self.current_round,
            phase: self.phase,
            phase_epoch: self.phase_epoch,
            planner_generation: self.planner_generation,
            shop_revision: self.shop_revision,
            decision_revision: self.decision_revision,
            refreshes_used: self.refreshes_used,
            overlay_test_mode: self.overlay_test_mode,
            open_choice_kind: self.open_choice_kind,
            open_choice_option_count: self.open_choice_option_count,
            trinket_choice_replan_pending: self.trinket_choice_replan_pending,
            trinket_ranking_generation: self.trinket_ranking_generation,
            trinket_option_signature: crate::harness::state::snapshot::clone_strings(&self.trinket_option_signature),
            trinket_ranking_busy: self.trinket_ranking_busy,
            trinket_rankings_ready: self.trinket_rankings_ready,
            chat_generation: self.chat_generation,
            chat_busy: self.chat_busy,
            chat_target_round: self.chat_target_round,
            has_snapshot: self.has_snapshot,
        }
    }
}

fn closed(s: &CoachState) -> (r: CoachState)
    ensures
        r@ == closed_v(s@),
{
    let mut r = CoachState::new();
    r.phase = CoachPhase::Idle;
    r.phase_epoch = bump_u64(s.phase_epoch);
    r.planner_generation = bump_u64(s.planner_generation);
    r.chat_generation = bump_u64(s.chat_generation);
    r.trinket_ranking_generation = bump_u64(s.trinket_ranking_generation);
    r
}

fn phase_set(s: CoachState, round: u32, phase: CoachPhase) -> (r: CoachState)
    ensures
        r@ == phase_set_v(s@, round, phase),
{
    let mut r = s;
    if r.phase != phase || r.current_round != round {
        r.phase_epoch = bump_u64(r.phase_epoch);
    }
    r.current_round = round;
    r.phase = phase;
    if phase == CoachPhase::Recruit {
        r.refreshes_used = 0;
        r.shop_revision = 0;
        r.decision_revision = 0;
    } else {
        r.decision_revision = 0;
        r.overlay_test_mode = false;
    }
    r
}

fn schedule_trinkets(s: CoachState, sig: Vec<String>) -> (r: (CoachState, Vec<CoachAction>))
    ensures
        (r.0@, r.1@) == trinket_schedule_v(s@, strs_view(sig@)),
{
    let mut s = s;
    if s.open_choice_kind != Some(ChoiceKind::Trinket) || s.open_choice_option_count == 0 {
        return (s, Vec::new());
    }
    if strings_eq(&sig, &s.trinket_option_signature) && (s.trinket_ranking_busy || s.trinket_rankings_ready) {
        return (s, Vec::new());
    }
    let g = bump_u64(s.trinket_ranking_generation);
    s.trinket_option_signature = sig;
    s.trinket_ranking_generation = g;
    s.trinket_ranking_busy = true;
    s.trinket_rankings_ready = false;
    let round = s.current_round;
    let mut a: Vec<CoachAction> = Vec::new();
    a.push(CoachAction::StartTrinketRanking { generation: g, round_number: round });
    (s, a)
}

fn observe(
    s: CoachState,
    event: &HarnessEvent,
    choice_kind: Option<ChoiceKind>,
    choice_option_count: usize,
    sig: Vec<String>,
    preplanned: bool,
    agent_enabled: bool,
    auto_plan: bool,
) -> (r: (CoachState, Vec<CoachAction>))
    ensures
        (r.0@, r.1@) == observe_v(
            s@,
            event@,
            choice_kind,
            choice_option_count,
            strs_view(sig@),
            preplanned,
            agent_enabled,
            auto_plan,
        ),
{
    let mut a: Vec<CoachAction> = Vec::new();
    match event {
        HarnessEvent::MatchInterrupted { .. } => {
            a.push(CoachAction::CancelAllRunning(CancelReason::LogRefresh));
            a.push(CoachAction::WaitForIdle { millis: 300 });
            a.push(CoachAction::FinalizeInterruptedSession);
            a.push(CoachAction::CancelAllRunning(CancelReason::MatchClosed));
            return (closed(&s), a);
        },
        HarnessEvent::MatchCompleted => {
            a.push(CoachAction::CancelAllRunning(CancelReason::MatchEnded));
            a.push(CoachAction::WaitForIdle { millis: 800 });
            a.push(CoachAction::FinalizeSession);
            a.push(CoachAction::CancelAllRunning(CancelReason::MatchClosed));
            return (closed(&s), a);
        },
        HarnessEvent::ShopUpdated { round_number, revision, .. } => {
            let mut s = s;
            if !s.match_active || s.phase != CoachPhase::Recruit || s.current_round != *round_number {
                return (s, a);
            }
            if *revision > s.shop_revision {
                s.shop_revision = *revision;
            }
            s.decision_revision = 0;
            s.has_snapshot = true;
            a.push(CoachAction::ShowShop { round_number: *round_number, revision: *revision });
            a.push(CoachAction::ProcessRecruitSnapshot);
            a.push(CoachAction::RecomputeTactical);
            return (s, a);
        },
        _ => {},
    }
    let (s1, mut a1) = observe_pre(s, event, choice_kind, choice_option_count);
    let mut s2 = s1;
    s2.has_snapshot = true;
    a1.push(CoachAction::StoreSnapshot);
    observe_post(s2, a1, event, sig, preplanned, agent_enabled, auto_plan)
}

fn observe_pre(s: CoachState, event: &HarnessEvent, choice_kind: Option<ChoiceKind>, choice_option_count: usize) -> (r: (
    CoachState,
    Vec<CoachAction>,
))
    ensures
        (r.0@, r.1@) == observe_pre_v(s@, event@, choice_kind, choice_option_count),
{
    let mut a: Vec<CoachAction> = Vec::new();
    let s = match event {
        HarnessEvent::MatchStarted => {
            a.push(CoachAction::CancelAllRunning(CancelReason::NewMatch));
            a.push(CoachAction::ResetSession);
            let mut f = CoachState::new();
            f.match_active = true;
            f.phase_epoch = 1;
            f
        },
        HarnessEvent::PhaseStarted { round_number, phase } => {
            let p = coach_phase(*phase);
            a.push(CoachAction::TracePhase { round_number: *round_number, phase: p });
            phase_set(s, *round_number, p)
        },
        HarnessEvent::RecruitAction { kind, .. } => {
            let mut s = s;
            if *kind == RecruitActionKind::Refresh && s.refreshes_used < u8::MAX {
                s.refreshes_used = s.refreshes_used + 1;
            }
            s
        },
        HarnessEvent::ChoiceOpened { .. } | HarnessEvent::ChoiceUpdated { .. } => {
            let mut s = s;
            s.open_choice_kind = choice_kind;
            s.open_choice_option_count = choice_option_count;
            a.push(CoachAction::RefreshChoiceView);
            s
        },
        _ => s,
    };
    (s, a)
}

fn observe_post(
    s: CoachState,
    a: Vec<CoachAction>,
    event: &HarnessEvent,
    sig: Vec<String>,
    preplanned: bool,
    agent_enabled: bool,
    auto_plan: bool,
) -> (r: (CoachState, Vec<CoachAction>))
    ensures
        (r.0@, r.1@) == observe_post_v(s@, a@, event@, strs_view(sig@), preplanned, agent_enabled, auto_plan),
{
    let mut s = s;
    let mut a = a;
    match event {
        HarnessEvent::PhaseStarted { round_number, phase } => {
            if *phase == PhaseKind::Combat {
                if agent_enabled && auto_plan {
                    let target = if *round_number < u32::MAX {
                        *round_number + 1
                    } else {
                        *round_number
                    };
                    a.push(CoachAction::SpawnStrategicPlan { target_round: target, replan: None });
                }
            } else if *phase == PhaseKind::Recruit {
                a.push(CoachAction::EnsurePlanForRound { round_number: *round_number });
            }
            (s, a)
        },
        HarnessEvent::RecruitAction { kind, .. } => {
            if *kind == RecruitActionKind::TavernUpgrade {
                a.push(CoachAction::PushReplan(ReplanCode::TavernUpgrade));
            } else if *kind != RecruitActionKind::Refresh {
                a.push(CoachAction::RecomputeTactical);
            }
            (s, a)
        },
        HarnessEvent::ChoiceOpened { .. } | HarnessEvent::ChoiceUpdated { .. } => {
            let trinket = s.open_choice_kind == Some(ChoiceKind::Trinket);
            let request = trinket && !preplanned && !s.trinket_choice_replan_pending;
            if request {
                s.trinket_choice_replan_pending = true;
                a.push(
                    CoachAction::SpawnStrategicPlan {
                        target_round: s.current_round,
                        replan: Some(ReplanCode::UnexpectedTrinketChoice),
                    },
                );
            }
            if trinket {
                let ghost a3 = a@;
                let (s4, mut a4) = schedule_trinkets(s, sig);
                let ghost a4v = a4@;
                a.append(&mut a4);
                assert(a@ == a3 + a4v);
                (s4, a)
            } else {
                (s, a)
            }
        },
        HarnessEvent::ChoiceResolved { .. } => {
            let trinket = s.open_choice_kind == Some(ChoiceKind::Trinket);
            s.open_choice_option_count = 0;
            s.trinket_choice_replan_pending = false;
            s.trinket_ranking_generation = bump_u64(s.trinket_ranking_generation);
            s.trinket_option_signature = Vec::new();
            s.trinket_rankings_ready = false;
            s.trinket_ranking_busy = false;
            s.open_choice_kind = None;
            a.push(CoachAction::ClearChoiceView);
            if trinket {
                a.push(CoachAction::PushReplan(ReplanCode::TrinketSelected));
            }
            assert(s@.trinket_option_signature =~= Seq::<Seq<char>>::empty());
            (s, a)
        },
        _ => (s, a),
    }
}

/// One step of the live coach: the next state and the work to do, exactly
/// as `coach_step_v` says.
pub fn coach_step(state: &CoachState, event: CoachEvent) -> (r: (CoachState, Vec<CoachAction>))
    ensures
        (r.0@, r.1@) == coach_step_v(state@, event@),
{
    let mut s = state.duplicate();
    let mut a: Vec<CoachAction> = Vec::new();
    match event {
        CoachEvent::Runtime {
            event,
            choice_kind,
            choice_option_count,
            trinket_signature,
            trinket_preplanned,
            agent_enabled,
            auto_plan_during_combat,
        } => observe(
            s,
            &event,
            choice_kind,
            choice_option_count,
            trinket_signature,
            trinket_preplanned,
            agent_enabled,
            auto_plan_during_combat,
        ),
        CoachEvent::TrinketRankingDue { generation } => {
            if generation == s.trinket_ranking_generation && s.open_choice_kind == Some(ChoiceKind::Trinket)
                && s.open_choice_option_count > 0 {
                a.push(CoachAction::RankTrinkets { generation });
            } else {
                a.push(CoachAction::AbandonTrinketRanking { generation });
            }
            (s, a)
        },
        CoachEvent::TrinketRanked { generation } => {
            if generation != s.trinket_ranking_generation || s.open_choice_kind != Some(ChoiceKind::Trinket) {
                a.push(CoachAction::DiscardTrinketRanking);
            } else {
                s.trinket_ranking_busy = false;
                s.trinket_rankings_ready = true;
                a.push(CoachAction::ShowTrinketRankings);
            }
            (s, a)
        },
        CoachEvent::ChatRequested { message, api_key, api_compatibility } => {
            let m = trim_chars(&chars_of(message.as_str()));
            let key = trim_chars(&chars_of(api_key.as_str()));
            let why = if m.len() == 0 {
                Some(ChatRejection::Empty)
            } else if m.len() > 500 {
                Some(ChatRejection::TooLong)
            } else if key.len() == 0 && eq_ignore_ascii_case(
                &chars_of(api_compatibility.as_str()),
                &chars_of("deepseek"),
            ) {
                Some(ChatRejection::NoApiKey)
            } else if !s.match_active || s.current_round == 0 {
                Some(ChatRejection::NoMatch)
            } else if s.chat_busy {
                Some(ChatRejection::Busy)
            } else if !s.has_snapshot {
                Some(ChatRejection::NoSnapshot)
            } else {
                None
            };
            match why {
                Some(w) => a.push(CoachAction::RejectChat(w)),
                None => a.push(CoachAction::AcceptChat),
            }
            (s, a)
        },
        CoachEvent::ChatStarted { plan_target } => {
            let g = bump_u64(s.chat_generation);
            let target = match plan_target {
                Some(t) if t > 0 => t,
                _ => if s.phase == CoachPhase::Combat && s.current_round < u32::MAX {
                    s.current_round + 1
                } else {
                    s.current_round
                },
            };
            s.chat_generation = g;
            s.chat_busy = true;
            s.chat_target_round = target;
            a.push(CoachAction::StartChat { generation: g, target_round: target });
            (s, a)
        },
        CoachEvent::ChatReplied { generation, live_plan_target, has_patch } => {
            if generation != s.chat_generation || !s.match_active {
                a.push(CoachAction::DiscardChatReply);
                return (s, a);
            }
            let stale = s.current_round > s.chat_target_round || match live_plan_target {
                Some(t) => t > 0 && t != s.chat_target_round,
                None => false,
            };
            if !stale && has_patch {
                a.push(CoachAction::ApplyPlanPatch { target_round: s.chat_target_round });
            }
            s.chat_busy = false;
            a.push(CoachAction::FinishChatReply { stale_patch: stale && has_patch });
            (s, a)
        },
        CoachEvent::ChatPatchApplied { changed } => {
            if changed {
                s.planner_generation = bump_u64(s.planner_generation);
                a.push(CoachAction::PushReplan(ReplanCode::UserChatPlanUpdate));
                a.push(CoachAction::RecomputeTactical);
            }
            (s, a)
        },
        CoachEvent::ChatFailed { generation, cancelled } => {
            if cancelled {
                if generation == s.chat_generation {
                    s.chat_busy = false;
                }
                a.push(CoachAction::ChatCancelled);
            } else if generation != s.chat_generation {
                a.push(CoachAction::DiscardChatReply);
            } else {
                s.chat_busy = false;
                a.push(CoachAction::ChatError);
            }
            (s, a)
        },
    }
}

} // verus!
