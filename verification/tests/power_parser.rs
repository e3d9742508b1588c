use hearthcoach_harness::harness::power::event::{PowerEvent, TagTarget, TagValue};
use hearthcoach_harness::harness::power::parser::{LineParseResult, PowerParser};

fn event(r: LineParseResult) -> PowerEvent {
    match r {
        LineParseResult::Event(e) => e,
        other => panic!("expected an event, got {other:?}"),
    }
}

#[test]
fn parses_create_game() {
    let mut p = PowerParser::new();
    let r = p.parse_line("D 10:00:00.1234567 GameState.DebugPrintPower() - CREATE_GAME");
    assert!(matches!(event(r), PowerEvent::CreateGame));
}

#[test]
fn descriptor_with_nested_brackets_in_name() {
    let d = PowerParser::parse_descriptor(
        "[entityName=Foo [cardType=INVALID] Bar id=42 zone=PLAY zonePos=3 cardId=BG_123 player=7] Target=[x]",
    )
    .expect("descriptor");
    assert_eq!(d.identity.id, 42);
    assert_eq!(d.identity.name.as_deref(), Some("Foo [cardType=INVALID] Bar"));
    assert_eq!(d.identity.card_id.as_deref(), Some("BG_123"));
    assert_eq!(d.zone.as_deref(), Some("PLAY"));
    assert_eq!(d.zone_position, Some(3));
    assert_eq!(d.controller, Some(7));
}

#[test]
fn pending_tag_applies_to_declared_entity() {
    let mut p = PowerParser::new();
    let r = p.parse_line("D 1 GameState.DebugPrintPower() - FULL_ENTITY - Creating ID=55 CardID=BG_X");
    match event(r) {
        PowerEvent::EntityCreated { id, card_id } => {
            assert_eq!(id, 55);
            assert_eq!(card_id.as_deref(), Some("BG_X"));
        }
        other => panic!("{other:?}"),
    }
    let r = p.parse_line("D 1 GameState.DebugPrintPower() -     tag=ATK value=4");
    match event(r) {
        PowerEvent::TagChanged { target: TagTarget::Entity(i), tag, value } => {
            assert_eq!(i.id, 55);
            assert_eq!(tag, "ATK");
            assert!(matches!(value, TagValue::Int(4)));
        }
        other => panic!("{other:?}"),
    }
}

#[test]
fn tag_change_to_player_name_and_symbol() {
    let mut p = PowerParser::new();
    let r = p.parse_line("D 1 GameState.DebugPrintPower() - TAG_CHANGE Entity=Someone#1234 tag=RESOURCES value=7 ");
    match event(r) {
        PowerEvent::TagChanged { target: TagTarget::PlayerName(n), tag, value } => {
            assert_eq!(n, "Someone#1234");
            assert_eq!(tag, "RESOURCES");
            assert!(matches!(value, TagValue::Int(7)));
        }
        other => panic!("{other:?}"),
    }
    let r = p.parse_line("D 1 GameState.DebugPrintPower() - TAG_CHANGE Entity=GameEntity tag=STEP value=MAIN_ACTION");
    match event(r) {
        PowerEvent::TagChanged { target: TagTarget::GameEntity, value: TagValue::Symbol(s), .. } => {
            assert_eq!(s, "MAIN_ACTION")
        }
        other => panic!("{other:?}"),
    }
}

#[test]
fn block_start_keeps_entity_and_target_apart() {
    let mut p = PowerParser::new();
    let r = p.parse_line("D 1 GameState.DebugPrintPower() - BLOCK_START BlockType=PLAY Entity=[entityName=A id=1 zone=HAND zonePos=1 cardId=C1 player=2] EffectCardId=System.Collections.Generic.List`1[System.String] EffectIndex=0 Target=[entityName=B id=2 zone=PLAY zonePos=1 cardId=C2 player=3] SubOption=-1");
    match event(r) {
        PowerEvent::BlockStarted { block_type, source, target, .. } => {
            assert_eq!(block_type, "PLAY");
            assert_eq!(source.unwrap().id, 1);
            assert_eq!(target.unwrap().id, 2);
        }
        other => panic!("{other:?}"),
    }
}

#[test]
fn send_option_and_ignored_lines() {
    let mut p = PowerParser::new();
    let r = p.parse_line("D 1 GameState.SendOption() - selectedOption=3 selectedSubOption=-1 selectedTarget=0 selectedPosition=2");
    match event(r) {
        PowerEvent::UserOptionSent { selected_option, selected_target, selected_position } => {
            assert_eq!(selected_option, 3);
            assert_eq!(selected_target, None);
            assert_eq!(selected_position, Some(2));
        }
        other => panic!("{other:?}"),
    }
    assert!(matches!(p.parse_line("unrelated"), LineParseResult::IgnoredNonAuthoritative));
    assert!(matches!(
        p.parse_line("D 1 GameState.DebugPrintPower() - META_DATA - Meta=DAMAGE"),
        LineParseResult::IgnoredAuthoritative
    ));
}

#[test]
fn tag_value_parse_integers_and_symbols() {
    assert!(matches!(TagValue::parse(" -12 "), TagValue::Int(-12)));
    assert!(matches!(TagValue::parse("+5"), TagValue::Int(5)));
    match TagValue::parse("PLAY") {
        TagValue::Symbol(s) => assert_eq!(s, "PLAY"),
        _ => panic!(),
    }
    match TagValue::parse("99999999999999999999") {
        TagValue::Symbol(s) => assert_eq!(s, "99999999999999999999"),
        _ => panic!(),
    }
}
