use hearthcoach_harness::harness::archive::GameArchive;
use hearthcoach_harness::harness::card_catalog::CardCatalog;
use hearthcoach_harness::harness::report::render_markdown;
use hearthcoach_harness::harness::runtime::HarnessRuntime;
use hearthcoach_harness::harness::state::snapshot::{HeroSnapshot, LobbyPlayerSnapshot};

fn hero(name: Option<&str>, place: Option<u8>) -> HeroSnapshot {
    HeroSnapshot {
        entity_id: 40,
        player_id: Some(5),
        card_id: Some("TB_BaconShop_HERO_01".to_owned()),
        name: name.map(|n| n.to_owned()),
        health: Some(30),
        damage: Some(0),
        armor: Some(5),
        remaining_health: Some(30),
        effective_health: Some(35),
        tavern_tier: Some(1),
        leaderboard_place: place,
    }
}

#[test]
fn empty_archive_report() {
    let archive = GameArchive::default();
    assert_eq!(
        render_markdown(&archive),
        "# HearthCoach Battlegrounds Match Log\n\n\
         - Schema: `0.4.2`\n\
         - Source: `unknown`\n\
         - Card Catalog: `none`\n\
         - Start: `unknown`\n\
         - End: `unknown`\n\
         - Local Player ID: `None`\n\
         - Local Player: `unknown`\n\
         - Final Place: `None`\n\
         - Available Tribes: `None`\n\
         - Available Tribes Source: `none`\n\
         - Block Stack Recoveries: `0`\n\n\
         ## Lobby\n\n"
    );
}

#[test]
fn report_header_and_lobby() {
    let mut archive = GameArchive::default();
    archive.source_log = Some("Logs/Power.log".to_owned());
    archive.local_player_id = Some(5);
    archive.local_player_name = Some("Alice#1".to_owned());
    archive.final_place = Some(2);
    archive.available_tribes = Some(vec!["BEAST".to_owned(), "MECH".to_owned()]);
    archive.stale_block_stack_recoveries = 3;
    archive.lobby_players = vec![
        LobbyPlayerSnapshot {
            player_id: 5,
            is_local: true,
            player_name: Some("Alice#1".to_owned()),
            hero: hero(Some("A. F. Kay"), Some(2)),
            play_state: None,
            alive: true,
        },
        LobbyPlayerSnapshot {
            player_id: 9,
            is_local: false,
            player_name: None,
            hero: hero(None, None),
            play_state: None,
            alive: false,
        },
    ];
    let report = render_markdown(&archive);
    assert!(report.contains("- Source: `Logs/Power.log`\n"));
    assert!(report.contains("- Local Player ID: `Some(5)`\n- Local Player: `Alice#1`\n- Final Place: `Some(2)`\n"));
    assert!(report.contains("- Available Tribes: `Some([\"BEAST\", \"MECH\"])`\n"));
    assert!(report.contains("- Block Stack Recoveries: `3`\n\n"));
    assert!(report.ends_with(
        "## Lobby\n\n\
         - P5 [YOU]: A. F. Kay (`TB_BaconShop_HERO_01`), place=Some(2)\n\
         - P9: unknown hero (`TB_BaconShop_HERO_01`), place=None\n"
    ));
}

#[test]
fn report_lists_rounds_with_their_phases() {
    let mut rt = HarnessRuntime::with_catalog(None, CardCatalog::empty());
    let line = |payload: &str| format!("D 10:00:00.0000000 GameState.DebugPrintPower() - {payload}");
    rt.feed_line(&line("CREATE_GAME"));
    rt.feed_line(&line("TAG_CHANGE Entity=GameEntity tag=TURN value=1"));
    rt.feed_line(&line("TAG_CHANGE Entity=GameEntity tag=TURN value=2"));
    rt.feed_line(&line("TAG_CHANGE Entity=GameEntity tag=TURN value=3"));
    let report = render_markdown(rt.archive());
    let round1 = report.find("\n## Round 1\n").expect("round 1 section");
    let recruit = report.find("\n### Recruit\n\n").expect("recruit section");
    let combat = report.find("\n### Combat\n\n").expect("combat section");
    assert!(round1 < recruit && recruit < combat);
    assert!(report.contains("- Result: `Tie`\n"));
    assert!(report.contains("\n#### Start Board\n\n- (empty)\n"));
    assert!(report.contains("- Player hero: unknown\n"));
    assert!(!report.contains("## Round 2"));
}
