use hearthcoach_harness::demo::agent::{
    detect_replan, expected_tavern_tier, fallback_plan_outline, AgentCard, AgentSnapshot, DecisionFingerprint,
    HealthPressure,
};
use hearthcoach_harness::demo::model::{ReplanLevel, UpgradePosture};

fn card(id: &str, tribes: &[&str], golden: bool) -> AgentCard {
    AgentCard {
        entity_id: 1,
        card_id: id.to_owned(),
        name: id.to_owned(),
        attack: Some(2),
        health: Some(3),
        tavern_tier: Some(1),
        is_golden: golden,
        tribes: tribes.iter().map(|t| t.to_string()).collect(),
        text: String::new(),
        mechanics: Vec::new(),
    }
}

fn snapshot(health: Option<i32>, tier: Option<u8>, board: Vec<AgentCard>, hand: Vec<AgentCard>) -> AgentSnapshot {
    AgentSnapshot {
        round_number: 5,
        phase: "Recruit".to_owned(),
        hero_effective_health: health,
        gold: Some(5),
        tavern_tier: tier,
        refresh_cost: Some(1),
        upgrade_cost: Some(5),
        next_opponent_player_id: None,
        available_tribes: Vec::new(),
        board,
        hand,
        shop: Vec::new(),
        trinkets: Vec::new(),
        opponent_board: Vec::new(),
    }
}

fn fingerprint(health: Option<i32>, tier: Option<u8>, trinkets: usize, golden: usize, tribe: Option<&str>, owned: &[&str]) -> DecisionFingerprint {
    DecisionFingerprint {
        effective_health: health,
        tavern_tier: tier,
        trinket_count: trinkets,
        golden_count: golden,
        dominant_tribe: tribe.map(|t| t.to_owned()),
        owned_card_ids: owned.iter().map(|s| s.to_string()).collect(),
    }
}

#[test]
fn tavern_curve_by_round() {
    let expected = [1, 1, 2, 2, 3, 3, 4, 4, 5, 5, 6, 6, 6];
    for (round, tier) in expected.iter().enumerate() {
        assert_eq!(expected_tavern_tier(round as u32), *tier);
    }
    assert_eq!(expected_tavern_tier(u32::MAX), 6);
}

#[test]
fn dominant_tribe_counts_board_tribes_and_breaks_ties_upward() {
    let s = snapshot(None, None, vec![card("A", &["DEMON"], false), card("B", &["DEMON"], false), card("C", &["NAGA"], false)], vec![]);
    assert_eq!(s.dominant_tribe(), Some("DEMON".to_owned()));
    let tie = snapshot(None, None, vec![card("A", &["BEAST"], false), card("B", &["BEAST", "MECH"], false), card("C", &["MECH"], false)], vec![]);
    assert_eq!(tie.dominant_tribe(), Some("MECH".to_owned()));
    let none = snapshot(None, None, vec![card("A", &[], false)], vec![card("H", &["BEAST"], false)]);
    assert_eq!(none.dominant_tribe(), None);
}

#[test]
fn owned_card_ids_are_sorted_and_distinct() {
    let s = snapshot(
        None,
        None,
        vec![card("BG_B", &[], false), card("", &[], false), card("BG_A", &[], false)],
        vec![card("BG_B", &[], false), card("BG_C", &[], false)],
    );
    assert_eq!(s.owned_card_ids(), vec!["BG_A".to_owned(), "BG_B".to_owned(), "BG_C".to_owned()]);
}

#[test]
fn fingerprint_summarizes_a_snapshot() {
    let s = snapshot(Some(20), Some(3), vec![card("BG_A", &["MURLOC"], true)], vec![card("BG_H", &[], true)]);
    let f = DecisionFingerprint::from_snapshot(&s);
    assert_eq!(f.effective_health, Some(20));
    assert_eq!(f.tavern_tier, Some(3));
    assert_eq!(f.trinket_count, 0);
    assert_eq!(f.golden_count, 2);
    assert_eq!(f.dominant_tribe.as_deref(), Some("MURLOC"));
    assert_eq!(f.owned_card_ids, vec!["BG_A".to_owned(), "BG_H".to_owned()]);
}

#[test]
fn unchanged_fingerprints_raise_no_replan() {
    let f = fingerprint(Some(30), Some(2), 0, 0, Some("BEAST"), &["BG_A"]);
    assert!(detect_replan(&f, &f.clone(), &vec!["BG_A".to_owned()], 15, 8).is_empty());
}

#[test]
fn replan_events_in_rule_order() {
    let before = fingerprint(Some(20), Some(2), 0, 0, Some("BEAST"), &["BG_A"]);
    let now = fingerprint(Some(7), Some(3), 1, 1, Some("MECH"), &["BG_A", "BG_CORE"]);
    let events = detect_replan(&before, &now, &vec!["BG_CORE".to_owned(), "BG_A".to_owned()], 15, 8);
    let codes: Vec<&str> = events.iter().map(|e| e.code.as_str()).collect();
    assert_eq!(
        codes,
        vec![
            "tavern_tier_changed",
            "trinket_acquired",
            "triple_completed",
            "board_direction_shift",
            "critical_health",
            "emergency_health",
            "core_card_acquired",
        ]
    );
    assert_eq!(events[0].detail, "酒馆等级 Some(2) → Some(3)");
    assert_eq!(events[1].detail, "饰品数量 0 → 1");
    assert_eq!(events[2].detail, "金色随从数量 0 → 1，重算本回合行动路线");
    assert_eq!(events[3].detail, "阵容主种族 Some(\"BEAST\") → Some(\"MECH\")");
    assert_eq!(events[4].detail, "有效生命降至 7，进入保命阈值");
    assert_eq!(events[5].detail, "有效生命降至 7，长期贪成长策略应停止");
    assert_eq!(events[6].detail, "获得阵容核心 BG_CORE");
    assert_eq!(events[2].level, ReplanLevel::Tactical);
    assert_eq!(events[5].level, ReplanLevel::LongTerm);
    assert_eq!(events[6].level, ReplanLevel::Strategic);
}

#[test]
fn first_tier_reading_is_no_tier_change() {
    let before = fingerprint(Some(30), None, 0, 0, None, &[]);
    let now = fingerprint(Some(30), Some(1), 0, 0, Some("BEAST"), &[]);
    assert!(detect_replan(&before, &now, &Vec::new(), 15, 8).is_empty());
}

#[test]
fn fallback_plan_follows_health_pressure() {
    let low = fallback_plan_outline(&snapshot(Some(6), Some(2), vec![], vec![]), 6);
    assert_eq!(low.pressure, HealthPressure::Emergency);
    assert_eq!(low.primary_goal, "优先补即时战力，停止贪成长");
    assert_eq!(low.economy.max_rerolls, 5);
    assert_eq!(low.tier_policy.posture, UpgradePosture::Delay);
    assert_eq!(low.tier_policy.reason, "当前生命压力下延后升本");
    assert_eq!(low.tier_policy.target_tier, Some(4));

    let mid = fallback_plan_outline(&snapshot(Some(15), Some(2), vec![], vec![]), 6);
    assert_eq!(mid.pressure, HealthPressure::Critical);
    assert_eq!(mid.economy.max_rerolls, 4);

    let behind = fallback_plan_outline(&snapshot(None, Some(2), vec![card("A", &["BEAST"], false)], vec![]), 6);
    assert_eq!(behind.pressure, HealthPressure::Stable);
    assert_eq!(behind.economy.max_rerolls, 3);
    assert_eq!(behind.tier_policy.posture, UpgradePosture::Prefer);
    assert_eq!(behind.direction, vec!["BEAST".to_owned()]);
    assert_eq!(behind.economy.gold_reserve, 0);
    assert_eq!(behind.replan_conditions.len(), 4);

    let on_curve = fallback_plan_outline(&snapshot(Some(30), Some(4), vec![], vec![]), 6);
    assert_eq!(on_curve.tier_policy.posture, UpgradePosture::Neutral);
    assert!(on_curve.direction.is_empty());
}

#[test]
fn fingerprint_agrees_with_the_snapshot_queries() {
    let s = snapshot(None, Some(2), vec![card("BG_B", &["BEAST", "MECH"], false), card("BG_C", &["MECH"], false), card("BG_A", &["BEAST"], false)], vec![card("BG_A", &[], false)]);
    let f = DecisionFingerprint::from_snapshot(&s);
    assert_eq!(f.dominant_tribe, s.dominant_tribe());
    assert_eq!(f.owned_card_ids, s.owned_card_ids());
}
