use hearthcoach_harness::demo::model::{
    clean_optional_text, clean_text_list, EconomyPolicy, EconomyPolicyPatch, TierPolicy, TierPolicyPatch,
    UpgradePosture,
};

#[test]
fn blank_text_is_no_correction() {
    assert_eq!(clean_optional_text(Some("  keep tempo  ")), Some("keep tempo".to_string()));
    assert_eq!(clean_optional_text(Some(" \t ")), None);
    assert_eq!(clean_optional_text(None), None);
}

#[test]
fn text_lists_are_trimmed_and_capped() {
    let values = vec![" a ".to_string(), "".to_string(), "b".to_string(), "  ".to_string(), "c".to_string()];
    assert_eq!(clean_text_list(&values, 2), vec!["a".to_string(), "b".to_string()]);
    assert_eq!(clean_text_list(&values, 10), vec!["a".to_string(), "b".to_string(), "c".to_string()]);
    assert!(clean_text_list(&Vec::new(), 4).is_empty());
}

#[test]
fn economy_correction_is_clamped_and_idempotent() {
    let mut policy = EconomyPolicy::default();
    let patch = EconomyPolicyPatch { max_rerolls: Some(12), gold_reserve: Some(-3), reason: Some(" save ".to_string()) };
    assert!(patch.apply_to(&mut policy));
    assert_eq!(policy.max_rerolls, 8);
    assert_eq!(policy.gold_reserve, 0);
    assert_eq!(policy.reason, "save");
    assert!(!patch.apply_to(&mut policy));
    assert_eq!(policy.max_rerolls, 8);
}

#[test]
fn tier_correction_clamps_target_and_reports_changes() {
    let mut policy = TierPolicy::default();
    let patch = TierPolicyPatch { posture: Some(UpgradePosture::Prefer), target_tier: Some(9), reason: None };
    assert!(patch.apply_to(&mut policy));
    assert_eq!(policy.posture, UpgradePosture::Prefer);
    assert_eq!(policy.target_tier, Some(6));
    assert!(!patch.apply_to(&mut policy));
    let low = TierPolicyPatch { posture: None, target_tier: Some(0), reason: Some("   ".to_string()) };
    assert!(low.apply_to(&mut policy));
    assert_eq!(policy.target_tier, Some(1));
    assert_eq!(policy.reason, "");
}
