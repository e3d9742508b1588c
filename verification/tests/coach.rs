use hearthcoach_harness::demo::coach::{
    coach_step, CancelReason, ChatRejection, CoachAction, CoachEvent, CoachPhase, CoachState, ReplanCode,
};
use hearthcoach_harness::harness::archive::{ChoiceKind, RecruitActionKind};
use hearthcoach_harness::harness::runtime::{HarnessEvent, PhaseKind};

fn runtime_event(event: HarnessEvent) -> CoachEvent {
    CoachEvent::Runtime {
        event,
        choice_kind: None,
        choice_option_count: 0,
        trinket_signature: Vec::new(),
        trinket_preplanned: false,
        agent_enabled: true,
        auto_plan_during_combat: true,
    }
}

fn started() -> CoachState {
    let (s, _) = coach_step(&CoachState::new(), runtime_event(HarnessEvent::MatchStarted));
    s
}

fn in_recruit(round: u32) -> CoachState {
    let (s, _) = coach_step(
        &started(),
        runtime_event(HarnessEvent::PhaseStarted { round_number: round, phase: PhaseKind::Recruit }),
    );
    s
}

#[test]
fn coach_match_start_resets_and_cancels_old_tasks() {
    let (s, actions) = coach_step(&CoachState::new(), runtime_event(HarnessEvent::MatchStarted));
    assert!(s.match_active);
    assert_eq!(s.phase_epoch, 1);
    assert_eq!(s.phase, CoachPhase::Pregame);
    assert_eq!(
        actions,
        vec![
            CoachAction::CancelAllRunning(CancelReason::NewMatch),
            CoachAction::ResetSession,
            CoachAction::StoreSnapshot,
        ]
    );
}

#[test]
fn coach_recruit_phase_ensures_a_plan() {
    let (s, actions) = coach_step(
        &started(),
        runtime_event(HarnessEvent::PhaseStarted { round_number: 3, phase: PhaseKind::Recruit }),
    );
    assert_eq!(s.current_round, 3);
    assert_eq!(s.phase, CoachPhase::Recruit);
    assert_eq!(s.phase_epoch, 2);
    assert_eq!(
        actions,
        vec![
            CoachAction::TracePhase { round_number: 3, phase: CoachPhase::Recruit },
            CoachAction::StoreSnapshot,
            CoachAction::EnsurePlanForRound { round_number: 3 },
        ]
    );
}

#[test]
fn coach_combat_phase_plans_the_next_round() {
    let (_, actions) = coach_step(
        &in_recruit(3),
        runtime_event(HarnessEvent::PhaseStarted { round_number: 3, phase: PhaseKind::Combat }),
    );
    assert_eq!(
        actions.last(),
        Some(&CoachAction::SpawnStrategicPlan { target_round: 4, replan: None })
    );
}

#[test]
fn coach_shop_of_another_round_is_ignored() {
    let s = in_recruit(3);
    let (t, actions) = coach_step(
        &s,
        runtime_event(HarnessEvent::ShopUpdated { round_number: 2, revision: 1, card_ids: vec!["A".to_owned()] }),
    );
    assert!(actions.is_empty());
    assert_eq!(t.shop_revision, 0);
    let (t, actions) = coach_step(
        &s,
        runtime_event(HarnessEvent::ShopUpdated { round_number: 3, revision: 2, card_ids: vec!["A".to_owned()] }),
    );
    assert_eq!(t.shop_revision, 2);
    assert_eq!(
        actions,
        vec![
            CoachAction::ShowShop { round_number: 3, revision: 2 },
            CoachAction::ProcessRecruitSnapshot,
            CoachAction::RecomputeTactical,
        ]
    );
}

#[test]
fn coach_tavern_upgrade_asks_for_a_replan() {
    let (s, actions) = coach_step(
        &in_recruit(2),
        runtime_event(HarnessEvent::RecruitAction { round_number: 2, kind: RecruitActionKind::Refresh }),
    );
    assert_eq!(s.refreshes_used, 1);
    assert_eq!(actions, vec![CoachAction::StoreSnapshot]);
    let (_, actions) = coach_step(
        &s,
        runtime_event(HarnessEvent::RecruitAction { round_number: 2, kind: RecruitActionKind::TavernUpgrade }),
    );
    assert_eq!(actions.last(), Some(&CoachAction::PushReplan(ReplanCode::TavernUpgrade)));
}

#[test]
fn coach_trinket_choice_is_ranked_once_per_option_set() {
    let s = in_recruit(6);
    let event = |sig: &str| CoachEvent::Runtime {
        event: HarnessEvent::ChoiceUpdated { id: 9 },
        choice_kind: Some(ChoiceKind::Trinket),
        choice_option_count: 2,
        trinket_signature: vec![sig.to_owned()],
        trinket_preplanned: true,
        agent_enabled: true,
        auto_plan_during_combat: true,
    };
    let (s, actions) = coach_step(&s, event("a|b"));
    assert_eq!(s.trinket_ranking_generation, 1);
    assert!(s.trinket_ranking_busy);
    assert_eq!(actions.last(), Some(&CoachAction::StartTrinketRanking { generation: 1, round_number: 6 }));
    let (s, actions) = coach_step(&s, event("a|b"));
    assert_eq!(s.trinket_ranking_generation, 1);
    assert_eq!(actions, vec![CoachAction::RefreshChoiceView, CoachAction::StoreSnapshot]);
    let (s, actions) = coach_step(&s, CoachEvent::TrinketRanked { generation: 1 });
    assert!(s.trinket_rankings_ready && !s.trinket_ranking_busy);
    assert_eq!(actions, vec![CoachAction::ShowTrinketRankings]);
    let (s, actions) = coach_step(&s, runtime_event(HarnessEvent::ChoiceResolved { id: 9 }));
    assert_eq!(s.open_choice_kind, None);
    assert_eq!(s.trinket_ranking_generation, 2);
    assert_eq!(actions.last(), Some(&CoachAction::PushReplan(ReplanCode::TrinketSelected)));
    let (_, actions) = coach_step(&s, CoachEvent::TrinketRanked { generation: 1 });
    assert_eq!(actions, vec![CoachAction::DiscardTrinketRanking]);
}

#[test]
fn coach_unplanned_trinket_choice_spawns_a_plan() {
    let (s, actions) = coach_step(
        &in_recruit(6),
        CoachEvent::Runtime {
            event: HarnessEvent::ChoiceOpened { id: 4 },
            choice_kind: Some(ChoiceKind::Trinket),
            choice_option_count: 0,
            trinket_signature: Vec::new(),
            trinket_preplanned: false,
            agent_enabled: true,
            auto_plan_during_combat: true,
        },
    );
    assert!(s.trinket_choice_replan_pending);
    assert_eq!(
        actions.last(),
        Some(&CoachAction::SpawnStrategicPlan { target_round: 6, replan: Some(ReplanCode::UnexpectedTrinketChoice) })
    );
}

fn chat(s: &CoachState, message: &str, key: &str) -> Vec<CoachAction> {
    coach_step(
        s,
        CoachEvent::ChatRequested {
            message: message.to_owned(),
            api_key: key.to_owned(),
            api_compatibility: "DeepSeek".to_owned(),
        },
    )
    .1
}

#[test]
fn coach_chat_requests_are_checked() {
    let s = in_recruit(4);
    assert_eq!(chat(&s, "   ", "k"), vec![CoachAction::RejectChat(ChatRejection::Empty)]);
    assert_eq!(chat(&s, &"x".repeat(501), "k"), vec![CoachAction::RejectChat(ChatRejection::TooLong)]);
    assert_eq!(chat(&s, "hi", "  "), vec![CoachAction::RejectChat(ChatRejection::NoApiKey)]);
    assert_eq!(chat(&CoachState::new(), "hi", "k"), vec![CoachAction::RejectChat(ChatRejection::NoMatch)]);
    assert_eq!(chat(&s, "hi", "k"), vec![CoachAction::AcceptChat]);
}

#[test]
fn coach_chat_reply_of_a_stale_target_keeps_the_plan() {
    let s = in_recruit(4);
    let (s, actions) = coach_step(&s, CoachEvent::ChatStarted { plan_target: None });
    assert_eq!(actions, vec![CoachAction::StartChat { generation: 1, target_round: 4 }]);
    assert!(s.chat_busy);
    assert_eq!(chat(&s, "again", "k"), vec![CoachAction::RejectChat(ChatRejection::Busy)]);
    let (t, actions) = coach_step(
        &s,
        CoachEvent::ChatReplied { generation: 1, live_plan_target: Some(4), has_patch: true },
    );
    assert!(!t.chat_busy);
    assert_eq!(
        actions,
        vec![CoachAction::ApplyPlanPatch { target_round: 4 }, CoachAction::FinishChatReply { stale_patch: false }]
    );
    let (_, actions) = coach_step(
        &s,
        CoachEvent::ChatReplied { generation: 1, live_plan_target: Some(5), has_patch: true },
    );
    assert_eq!(actions, vec![CoachAction::FinishChatReply { stale_patch: true }]);
    let (_, actions) = coach_step(
        &s,
        CoachEvent::ChatReplied { generation: 0, live_plan_target: None, has_patch: true },
    );
    assert_eq!(actions, vec![CoachAction::DiscardChatReply]);
    let (t, actions) = coach_step(&t, CoachEvent::ChatPatchApplied { changed: true });
    assert_eq!(t.planner_generation, 1);
    assert_eq!(
        actions,
        vec![CoachAction::PushReplan(ReplanCode::UserChatPlanUpdate), CoachAction::RecomputeTactical]
    );
}

#[test]
fn coach_match_end_closes_the_session() {
    let s = in_recruit(4);
    let (t, actions) = coach_step(&s, runtime_event(HarnessEvent::MatchCompleted));
    assert!(!t.match_active);
    assert_eq!(t.phase, CoachPhase::Idle);
    assert_eq!(t.phase_epoch, s.phase_epoch + 1);
    assert_eq!(
        actions,
        vec![
            CoachAction::CancelAllRunning(CancelReason::MatchEnded),
            CoachAction::WaitForIdle { millis: 800 },
            CoachAction::FinalizeSession,
            CoachAction::CancelAllRunning(CancelReason::MatchClosed),
        ]
    );
}
