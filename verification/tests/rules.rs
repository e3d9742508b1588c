use hearthcoach_harness::harness::archive::{ChoiceKind, CombatResult, RecruitActionKind, ShopRevisionCause};
use hearthcoach_harness::harness::runtime::rules::{
    classify_choice, combat_result, positive_drop, round_number, shop_cause_for_action,
};

#[test]
fn two_raw_turns_make_one_round() {
    assert_eq!(round_number(0), 0);
    assert_eq!(round_number(1), 1);
    assert_eq!(round_number(2), 1);
    assert_eq!(round_number(3), 2);
    assert_eq!(round_number(4), 2);
    assert_eq!(round_number(u32::MAX), 2_147_483_648);
    for r in 1..200u32 {
        assert_eq!(round_number(2 * r - 1), r);
        assert_eq!(round_number(2 * r), r);
    }
}

#[test]
fn positive_drop_is_never_negative() {
    assert_eq!(positive_drop(Some(30), Some(25)), Some(5));
    assert_eq!(positive_drop(Some(25), Some(30)), Some(0));
    assert_eq!(positive_drop(Some(7), Some(7)), Some(0));
    assert_eq!(positive_drop(None, Some(7)), None);
    assert_eq!(positive_drop(Some(7), None), None);
}

#[test]
fn combat_result_follows_the_outcome_tag_then_damage() {
    assert_eq!(combat_result(Some(true), Some(5), None), CombatResult::Win);
    assert_eq!(combat_result(Some(false), Some(3), None), CombatResult::Loss);
    assert_eq!(combat_result(Some(false), Some(0), None), CombatResult::Tie);
    assert_eq!(combat_result(Some(false), None, Some(4)), CombatResult::Tie);
    assert_eq!(combat_result(None, Some(2), None), CombatResult::Loss);
    assert_eq!(combat_result(None, None, Some(4)), CombatResult::Win);
    assert_eq!(combat_result(None, None, None), CombatResult::Tie);
    assert_eq!(combat_result(None, Some(1), Some(1)), CombatResult::Unknown);
}

#[test]
fn shop_causes_of_recruit_actions() {
    assert_eq!(shop_cause_for_action(&RecruitActionKind::Refresh), Some(ShopRevisionCause::Refresh));
    assert_eq!(shop_cause_for_action(&RecruitActionKind::BuyMinion), Some(ShopRevisionCause::Buy));
    assert_eq!(shop_cause_for_action(&RecruitActionKind::BuySpell), Some(ShopRevisionCause::Buy));
    assert_eq!(shop_cause_for_action(&RecruitActionKind::SellMinion), Some(ShopRevisionCause::Sell));
    assert_eq!(shop_cause_for_action(&RecruitActionKind::UseHeroPower), Some(ShopRevisionCause::SpellOrEffect));
    assert_eq!(shop_cause_for_action(&RecruitActionKind::TavernUpgrade), Some(ShopRevisionCause::OtherAction));
    assert_eq!(shop_cause_for_action(&RecruitActionKind::FreezeToggle), None);
    assert_eq!(shop_cause_for_action(&RecruitActionKind::Reorder), None);
}

#[test]
fn choices_are_classified_by_type_and_source() {
    let none = Vec::new();
    assert!(matches!(classify_choice("MULLIGAN", None, None, &none), ChoiceKind::Hero));
    assert!(matches!(classify_choice("GENERAL", Some("BG30_TRINKET_1st"), None, &none), ChoiceKind::Trinket));
    assert!(matches!(classify_choice("GENERAL", None, Some("Lesser Trinket"), &none), ChoiceKind::Trinket));
    assert!(matches!(classify_choice("GENERAL", None, Some("黑暗赠礼"), &none), ChoiceKind::DarkGift));
    assert!(matches!(classify_choice("GENERAL", Some("BG_X"), Some("Discover"), &none), ChoiceKind::Discover));
    assert!(matches!(classify_choice("OTHER", None, None, &none), ChoiceKind::Other));
}
