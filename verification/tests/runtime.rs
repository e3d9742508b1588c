use hearthcoach_harness::harness::archive::{CombatResult, RecruitActionKind};
use hearthcoach_harness::harness::card_catalog::CardCatalog;
use hearthcoach_harness::harness::runtime::{seconds_left, HarnessEvent, HarnessRuntime, PhaseKind};

fn power(payload: &str) -> String {
    format!("D 10:00:00.0000000 GameState.DebugPrintPower() - {payload}")
}

fn runtime() -> HarnessRuntime {
    HarnessRuntime::with_catalog(Some("Power.log".to_owned()), CardCatalog::empty())
}

fn declare_players(rt: &mut HarnessRuntime) {
    rt.feed_line(&power("GameEntity EntityID=1"));
    rt.feed_line(&power("Player EntityID=2 PlayerID=5 GameAccountId=[hi=144115 lo=2]"));
    rt.feed_line(&power("    tag=RESOURCES value=7"));
    rt.feed_line(&power("Player EntityID=3 PlayerID=9 GameAccountId=[hi=0 lo=0]"));
    rt.feed_line("D 10:00:00.0000000 GameState.DebugPrintGame() - PlayerID=5, PlayerName=Alice#1");
}

#[test]
fn runtime_starts_idle() {
    let rt = runtime();
    assert!(!rt.is_match_active());
    assert_eq!(rt.current_phase_kind(), PhaseKind::Unknown);
    assert_eq!(rt.current_round_number(), None);
    assert!(rt.archive().rounds.is_empty());
}

#[test]
fn create_game_starts_a_match() {
    let mut rt = runtime();
    let events = rt.feed_line(&power("CREATE_GAME"));
    assert!(matches!(events.as_slice(), [HarnessEvent::MatchStarted]));
    assert!(rt.is_match_active());
    assert!(!rt.is_complete_seen());
    assert_eq!(rt.current_phase_kind(), PhaseKind::Pregame);
}

#[test]
fn lines_outside_the_power_log_change_nothing() {
    let mut rt = runtime();
    rt.feed_line(&power("CREATE_GAME"));
    let events = rt.feed_line("some unrelated client chatter");
    assert!(events.is_empty());
    assert_eq!(rt.current_phase_kind(), PhaseKind::Pregame);
}

#[test]
fn local_player_and_gold_come_from_the_real_account() {
    let mut rt = runtime();
    rt.feed_line(&power("CREATE_GAME"));
    declare_players(&mut rt);
    assert_eq!(rt.local_player_id(), Some(5));
    assert_eq!(rt.local_player_name(), Some("Alice#1"));
    assert_eq!(rt.current_gold(), Some(7));
    rt.feed_line(&power("TAG_CHANGE Entity=Alice#1 tag=RESOURCES_USED value=3"));
    assert_eq!(rt.current_gold(), Some(4));
}

#[test]
fn turns_alternate_recruit_and_combat() {
    let mut rt = runtime();
    rt.feed_line(&power("CREATE_GAME"));
    declare_players(&mut rt);

    let events = rt.feed_line(&power("TAG_CHANGE Entity=GameEntity tag=TURN value=1"));
    assert!(events
        .iter()
        .any(|e| matches!(e, HarnessEvent::PhaseStarted { round_number: 1, phase: PhaseKind::Recruit })));
    assert_eq!(rt.current_raw_turn(), Some(1));
    assert_eq!(rt.current_round_number(), Some(1));
    assert_eq!(rt.current_phase_kind(), PhaseKind::Recruit);

    let events = rt.feed_line(&power("TAG_CHANGE Entity=GameEntity tag=TURN value=2"));
    assert!(events
        .iter()
        .any(|e| matches!(e, HarnessEvent::PhaseStarted { round_number: 1, phase: PhaseKind::Combat })));
    assert_eq!(rt.current_round_number(), Some(1));
    assert_eq!(rt.current_phase_kind(), PhaseKind::Combat);

    let events = rt.feed_line(&power("TAG_CHANGE Entity=GameEntity tag=TURN value=3"));
    let archived = events
        .iter()
        .position(|e| matches!(e, HarnessEvent::RoundArchived { round_number: 1 }))
        .expect("round 1 archived");
    let started = events
        .iter()
        .position(|e| matches!(e, HarnessEvent::PhaseStarted { round_number: 2, phase: PhaseKind::Recruit }))
        .expect("round 2 recruit started");
    assert!(archived < started);
    assert_eq!(rt.current_round_number(), Some(2));

    let round1 = rt.archive().round(1).expect("round 1");
    assert!(round1.recruit.is_some());
    let combat = round1.combat.as_ref().expect("combat of round 1");
    assert!(matches!(combat.result, CombatResult::Tie));
    assert_eq!(combat.damage_taken, None);
}

#[test]
fn state_complete_archives_the_open_round_and_completes() {
    let mut rt = runtime();
    rt.feed_line(&power("CREATE_GAME"));
    declare_players(&mut rt);
    rt.feed_line(&power("TAG_CHANGE Entity=GameEntity tag=TURN value=1"));
    rt.feed_line(&power("TAG_CHANGE Entity=GameEntity tag=TURN value=2"));
    rt.feed_line(&power("TAG_CHANGE Entity=GameEntity tag=TURN value=3"));
    let events = rt.feed_line(&power("TAG_CHANGE Entity=GameEntity tag=STATE value=COMPLETE"));
    let n = events.len();
    assert!(n >= 2);
    assert!(matches!(events[n - 2], HarnessEvent::RoundArchived { round_number: 2 }));
    assert!(matches!(events[n - 1], HarnessEvent::MatchCompleted));
    assert!(rt.is_complete_seen());
    assert_eq!(rt.current_phase_kind(), PhaseKind::Complete);

    let numbers: Vec<u32> = rt.archive().rounds.iter().map(|r| r.round_number).collect();
    assert_eq!(numbers, vec![1, 2]);
    let round2 = rt.archive().round(2).expect("round 2");
    assert!(round2.recruit.is_some());
    assert!(round2.combat.is_none());
    assert_eq!(rt.archive().latest_round().map(|r| r.round_number), Some(2));

    assert_eq!(rt.archive().ended_at.as_deref(), Some("10:00:00.0000000"));

    // A second completion marker does nothing more.
    let again = rt.feed_line(&power("TAG_CHANGE Entity=GameEntity tag=STATE value=COMPLETE"));
    assert!(!again.iter().any(|e| matches!(e, HarnessEvent::MatchCompleted)));
}

#[test]
fn a_new_game_resets_the_previous_match() {
    let mut rt = runtime();
    rt.feed_line(&power("CREATE_GAME"));
    declare_players(&mut rt);
    rt.feed_line(&power("TAG_CHANGE Entity=GameEntity tag=TURN value=1"));
    let events = rt.feed_line(&power("CREATE_GAME"));
    assert!(events.iter().any(|e| matches!(e, HarnessEvent::MatchStarted)));
    assert_eq!(rt.current_raw_turn(), None);
    assert_eq!(rt.current_phase_kind(), PhaseKind::Pregame);
    assert_eq!(rt.local_player_id(), None);
}

fn shop_minion(rt: &mut HarnessRuntime, id: u32, card: &str, position: u32) {
    rt.feed_line(&power(&format!("FULL_ENTITY - Creating ID={id} CardID={card}")));
    rt.feed_line(&power("    tag=CONTROLLER value=9"));
    rt.feed_line(&power("    tag=CARDTYPE value=MINION"));
    rt.feed_line(&power("    tag=ZONE value=PLAY"));
    rt.feed_line(&power(&format!("    tag=ZONE_POSITION value={position}")));
}

#[test]
fn shop_revisions_are_numbered_from_one() {
    let mut rt = runtime();
    rt.feed_line(&power("CREATE_GAME"));
    declare_players(&mut rt);
    rt.feed_line(&power("TAG_CHANGE Entity=GameEntity tag=TURN value=1"));
    shop_minion(&mut rt, 40, "BG_A", 1);
    let first = rt.flush_pending_shop_revision();
    assert!(first
        .iter()
        .any(|e| matches!(e, HarnessEvent::ShopUpdated { round_number: 1, revision: 1, .. })));
    shop_minion(&mut rt, 41, "BG_B", 2);
    let second = rt.flush_pending_shop_revision();
    assert!(second
        .iter()
        .any(|e| matches!(e, HarnessEvent::ShopUpdated { round_number: 1, revision: 2, .. })));
    let numbers: Vec<u32> = rt.shop_revisions(1).iter().map(|r| r.revision).collect();
    assert_eq!(numbers, vec![1, 2]);
    assert_eq!(rt.current_shop_card_ids(), vec!["BG_A".to_string(), "BG_B".to_string()]);
    rt.feed_line(&power("TAG_CHANGE Entity=GameEntity tag=TURN value=2"));
    rt.feed_line(&power("TAG_CHANGE Entity=GameEntity tag=TURN value=3"));
    let archived: Vec<u32> = rt.archive().shop_revisions(1).iter().map(|r| r.revision).collect();
    assert_eq!(archived, vec![1, 2]);
}

fn choices(payload: &str) -> String {
    format!("D 10:00:01.0000000 GameState.DebugPrintEntityChoices() - {payload}")
}

fn chosen(payload: &str) -> String {
    format!("D 10:00:02.0000000 GameState.DebugPrintEntitiesChosen() - {payload}")
}

#[test]
fn an_open_choice_lists_its_options_until_it_is_chosen() {
    let mut rt = runtime();
    rt.feed_line(&power("CREATE_GAME"));
    declare_players(&mut rt);
    rt.feed_line(&power("TAG_CHANGE Entity=GameEntity tag=TURN value=1"));
    let opened = rt.feed_line(&choices("id=7 Player=Alice#1 TaskList=3 ChoiceType=GENERAL CountMin=1 CountMax=1"));
    assert!(matches!(opened.as_slice(), [HarnessEvent::ChoiceOpened { id: 7 }]));
    rt.feed_line(&choices("  Source=GameEntity"));
    rt.feed_line(&choices("  Entities[0]=[entityName=Alpha id=70 zone=SETASIDE zonePos=0 cardId=BG_A player=5]"));
    rt.feed_line(&choices("  Entities[1]=[entityName=Beta id=71 zone=SETASIDE zonePos=0 cardId=BG_B player=5]"));
    assert_eq!(rt.current_choice_option_ids(), vec!["BG_A".to_string(), "BG_B".to_string()]);
    let open = rt.current_choice().expect("choice 7 is open");
    assert_eq!(open.id, 7);
    assert_eq!(open.choice_type, "GENERAL");
    assert_eq!(open.source_name, None);
    assert!(open.resolved_at.is_none());

    rt.feed_line(&chosen("id=7 Player=Alice#1 EntitiesCount=1"));
    let resolved = rt.feed_line(&chosen("  Entities[0]=[entityName=Beta id=71 zone=SETASIDE zonePos=0 cardId=BG_B player=5]"));
    assert!(resolved.iter().any(|e| matches!(e, HarnessEvent::ChoiceResolved { id: 7 })));
    assert!(rt.current_choice().is_none());
    assert!(rt.current_choice_option_ids().is_empty());
}

#[test]
fn runtime_new_without_cache_has_no_catalog() {
    let rt = HarnessRuntime::new(Some("Power.log".to_owned()), None);
    assert!(!rt.is_match_active());
    assert!(rt.archive().rounds.is_empty());
    assert_eq!(rt.archive().source_log.as_deref(), Some("Power.log"));
}

#[test]
fn finish_archives_the_open_combat() {
    let mut rt = runtime();
    rt.feed_line(&power("CREATE_GAME"));
    assert!(matches!(
        rt.feed_line(&power("TAG_CHANGE Entity=GameEntity tag=TURN value=1")).as_slice(),
        [HarnessEvent::PhaseStarted { round_number: 1, phase: PhaseKind::Recruit }]
    ));
    rt.feed_line(&power("TAG_CHANGE Entity=GameEntity tag=TURN value=2"));
    let events = rt.finish(Some("10:05".to_owned()));
    assert!(events.iter().any(|e| matches!(e, HarnessEvent::RoundArchived { round_number: 1 })));
    let archive = rt.archive();
    assert_eq!(archive.rounds.len(), 1);
    assert_eq!(archive.rounds[0].round_number, 1);
    assert!(archive.rounds[0].recruit.is_some());
    assert!(archive.rounds[0].combat.is_some());
    assert_eq!(archive.ended_at.as_deref(), Some("10:05"));
}

#[test]
fn idle_step_waits_for_150_ms_of_quiet() {
    let mut rt = runtime();
    rt.feed_line(&power("CREATE_GAME"));
    declare_players(&mut rt);
    rt.feed_line(&power("TAG_CHANGE Entity=GameEntity tag=TURN value=1"));
    shop_minion(&mut rt, 40, "BG_A", 1);
    assert!(rt.on_idle_after(149).is_empty());
    assert!(rt.shop_revisions(1).is_empty());
    let events = rt.on_idle_after(150);
    assert!(events
        .iter()
        .any(|e| matches!(e, HarnessEvent::ShopUpdated { round_number: 1, revision: 1, .. })));
    assert!(rt.on_idle_after(10_000).is_empty());
}

#[test]
fn countdown_subtracts_whole_elapsed_seconds() {
    assert_eq!(seconds_left(75, 0), 75);
    assert_eq!(seconds_left(75, 1999), 74);
    assert_eq!(seconds_left(75, 80_000), 0);
    assert_eq!(seconds_left(-3, 0), 0);
}

#[test]
fn choice_lines_report_opened_and_resolved_choices() {
    let mut rt = runtime();
    rt.feed_line(&power("CREATE_GAME"));
    declare_players(&mut rt);
    rt.feed_line(&power("TAG_CHANGE Entity=GameEntity tag=TURN value=1"));
    let opened = rt.feed_line(
        "D 10:00:01.0000000 GameState.DebugPrintEntityChoices() - id=7 Player=Alice#1 TaskList= ChoiceType=GENERAL CountMin=1 CountMax=1",
    );
    assert!(matches!(opened.as_slice(), [HarnessEvent::ChoiceOpened { id: 7 }]));
    let resolved = rt.feed_line("D 10:00:02.0000000 GameState.DebugPrintEntitiesChosen() - id=7 Player=Alice#1 EntitiesCount=0");
    assert!(matches!(resolved.as_slice(), [HarnessEvent::ChoiceResolved { id: 7 }]));
}

#[test]
fn a_realized_send_option_is_reported_and_archived_as_an_action() {
    let mut rt = runtime();
    rt.feed_line(&power("CREATE_GAME"));
    declare_players(&mut rt);
    rt.feed_line(&power("TAG_CHANGE Entity=GameEntity tag=TURN value=1"));
    rt.feed_line("D 10:00:03.0000000 GameState.SendOption() - selectedOption=1 selectedSubOption=-1 selectedTarget=0 selectedPosition=0");
    let events = rt.feed_line(&power(
        "BLOCK_START BlockType=PLAY Entity=[entityName=Refresh id=60 zone=PLAY zonePos=0 cardId=TB_BaconShop_8p_Reroll_Button player=5] EffectCardId=System.Collections.Generic.List`1[System.String] EffectIndex=0 Target=0 SubOption=-1",
    ));
    assert!(matches!(
        events.last(),
        Some(HarnessEvent::RecruitAction { round_number: 1, kind: RecruitActionKind::Refresh })
    ));
    rt.feed_line(&power("TAG_CHANGE Entity=GameEntity tag=TURN value=2"));
    rt.feed_line(&power("TAG_CHANGE Entity=GameEntity tag=TURN value=3"));
    let round1 = rt.archive().round(1).expect("round 1");
    let actions = &round1.recruit.as_ref().expect("recruit phase").actions;
    assert_eq!(actions.len(), 1);
    assert_eq!(actions[0].kind, RecruitActionKind::Refresh);
    assert_eq!(actions[0].timestamp.as_deref(), Some("10:00:03.0000000"));
}
