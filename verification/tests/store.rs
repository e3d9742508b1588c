use hearthcoach_harness::harness::power::event::{EntityIdentity, PowerEvent, TagTarget, TagValue};
use hearthcoach_harness::harness::state::entity_store::EntityStore;

#[test]
fn recreated_entity_replaces_the_old_one() {
    let mut s = EntityStore::new();
    s.apply(&PowerEvent::EntityCreated { id: 12, card_id: Some("OLD".into()) });
    s.apply(&PowerEvent::TagChanged {
        target: TagTarget::Entity(EntityIdentity { id: 12, name: Some("N".into()), card_id: None }),
        tag: "ZONE".into(),
        value: TagValue::Symbol("PLAY".into()),
    });
    s.apply(&PowerEvent::EntityCreated { id: 12, card_id: Some("NEW".into()) });
    let e = s.entity(12).unwrap();
    assert_eq!(e.card_id.as_deref(), Some("NEW"));
    assert!(e.tag("ZONE").is_none());
    assert_eq!(s.entity_count(), 1);
}

#[test]
fn player_tags_follow_the_named_target() {
    let mut s = EntityStore::new();
    s.apply(&PowerEvent::PlayerDeclared { entity_id: 2, player_id: 1, has_real_account: true });
    s.apply(&PowerEvent::PlayerNameDeclared { player_id: 1, name: "Bob".into() });
    s.apply(&PowerEvent::TagChanged {
        target: TagTarget::Entity(EntityIdentity { id: 2, name: None, card_id: None }),
        tag: "RESOURCES".into(),
        value: TagValue::Int(3),
    });
    s.apply(&PowerEvent::TagChanged {
        target: TagTarget::PlayerName("Bob".into()),
        tag: "RESOURCES".into(),
        value: TagValue::Int(7),
    });
    assert!(matches!(s.player_tag(1, "RESOURCES"), Some(TagValue::Int(7))));
    assert!(matches!(s.player_tag(1, "PLAYER_ID"), Some(TagValue::Int(1))));
    assert_eq!(s.local_player_id(), Some(1));
    assert!(s.player_tag(2, "RESOURCES").is_none());
}
