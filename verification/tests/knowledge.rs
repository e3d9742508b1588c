use hearthcoach_harness::demo::agent::{purchase_cost, AgentCard};
use hearthcoach_harness::demo::hdt_knowledge::HdtKnowledgeBase;
use hearthcoach_harness::harness::card_catalog::{normalize_tribe, CardCatalog, CardMeta};

fn meta(id: &str, name: &str, tier: u8, race: Option<&str>) -> CardMeta {
    CardMeta {
        card_id: id.to_owned(),
        dbf_id: None,
        name_zh_cn: Some(name.to_owned()),
        name_en_us: None,
        text_zh_cn: Some("  Deal\n2\tdamage ".to_owned()),
        text_en_us: None,
        mechanics: Vec::new(),
        activate_keyword: false,
        in_bacon_pool: true,
        card_type: Some("MINION".to_owned()),
        race: race.map(|r| r.to_owned()),
        secondary_race: None,
        tavern_tier: Some(tier),
        cost: Some(3),
        attack: Some(1),
        health: Some(1),
        premium: false,
        normal_card_id: None,
    }
}

fn spell(id: &str, cost: Option<i32>) -> CardMeta {
    let mut m = meta(id, id, 1, None);
    m.in_bacon_pool = false;
    m.card_type = Some("BATTLEGROUND_SPELL".to_owned());
    m.cost = cost;
    m
}

fn golden(id: &str, normal: &str) -> CardMeta {
    let mut m = meta(id, "Golden", 1, Some("BEAST"));
    m.premium = true;
    m.normal_card_id = Some(normal.to_owned());
    m
}

fn knowledge() -> HdtKnowledgeBase {
    HdtKnowledgeBase::from_catalog(CardCatalog::from_cards(vec![
        meta("BG_B2", "Bravo", 2, Some("BEAST")),
        meta("BG_M1", "Mecha", 1, Some("MECHANICAL")),
        meta("BG_N1", "Alpha", 1, None),
        meta("BG_D1", "Alpha", 1, Some("DEMON")),
        golden("BG_B2_G", "BG_B2"),
        spell("BG_SPELL", Some(2)),
    ]))
}

fn agent_card(id: &str) -> AgentCard {
    AgentCard {
        entity_id: 9,
        card_id: id.to_owned(),
        name: id.to_owned(),
        attack: None,
        health: None,
        tavern_tier: None,
        is_golden: false,
        tribes: Vec::new(),
        text: String::new(),
        mechanics: Vec::new(),
    }
}

#[test]
fn tribe_names_are_normalized() {
    assert_eq!(normalize_tribe(" mechanical "), Some("MECH".to_owned()));
    assert_eq!(normalize_tribe("17"), Some("MECH".to_owned()));
    assert_eq!(normalize_tribe("Quilboar"), Some("QUILLBOAR".to_owned()));
    assert_eq!(normalize_tribe("ALL"), None);
    assert_eq!(normalize_tribe(""), None);
}

#[test]
fn stats_count_normal_pool_minions() {
    let k = knowledge();
    assert_eq!(k.stats().total_cards, 6);
    assert_eq!(k.stats().bacon_pool_minions, 4);
    assert_eq!(k.stats().source, "in-memory");
}

#[test]
fn pool_is_sorted_by_tier_name_and_id() {
    let k = knowledge();
    let pool = k.current_pool(&Vec::new());
    let ids: Vec<&str> = pool.iter().map(|c| c.card_id.as_str()).collect();
    assert_eq!(ids, vec!["BG_D1", "BG_N1", "BG_M1", "BG_B2"]);
    assert_eq!(pool[0].text, "Deal 2 damage");
    assert_eq!(k.current_pool_count(&Vec::new()), 4);
}

#[test]
fn pool_keeps_neutrals_and_the_lobby_tribes() {
    let k = knowledge();
    let tribes = vec![" beast ".to_owned()];
    let ids: Vec<String> = k.current_pool(&tribes).into_iter().map(|c| c.card_id).collect();
    assert_eq!(ids, vec!["BG_N1".to_owned(), "BG_B2".to_owned()]);
    assert_eq!(k.current_pool_count(&tribes), 2);
}

#[test]
fn pool_card_ids_validate_to_their_normal_card() {
    let k = knowledge();
    let beasts = vec!["BEAST".to_owned()];
    assert_eq!(k.validate_pool_card_id("BG_B2_G", &beasts), Some("BG_B2".to_owned()));
    assert_eq!(k.validate_pool_card_id("BG_B2", &beasts), Some("BG_B2".to_owned()));
    assert_eq!(k.validate_pool_card_id("BG_D1", &beasts), None);
    assert_eq!(k.validate_pool_card_id("BG_SPELL", &beasts), None);
    assert_eq!(k.validate_pool_card_id("BG_UNKNOWN", &beasts), None);
}

#[test]
fn prompt_context_lists_the_pool() {
    let k = knowledge();
    let text = k.prompt_context(&vec!["BEAST".to_owned()]);
    assert_eq!(text, "BG_N1 | Alpha | T1 | NEUTRAL | Deal 2 damage\nBG_B2 | Bravo | T2 | BEAST | Deal 2 damage");
}

#[test]
fn purchase_costs_spells_by_catalog_cost() {
    let catalog = CardCatalog::from_cards(vec![spell("BG_SPELL", Some(2)), spell("BG_FREE", Some(-1)), spell("BG_NOCOST", None), meta("BG_M", "M", 1, None)]);
    assert_eq!(purchase_cost(&agent_card("BG_SPELL"), &catalog), 2);
    assert_eq!(purchase_cost(&agent_card("BG_FREE"), &catalog), 0);
    assert_eq!(purchase_cost(&agent_card("BG_NOCOST"), &catalog), 1);
    assert_eq!(purchase_cost(&agent_card("BG_M"), &catalog), 3);
    assert_eq!(purchase_cost(&agent_card("BG_UNKNOWN"), &catalog), 3);
}

#[test]
fn normalizing_a_tribe_twice_changes_nothing() {
    for raw in [" mechanical ", "17", "Quilboar", "elemental", "kobold", "Beast"] {
        let once = normalize_tribe(raw).expect("a tribe");
        assert_eq!(normalize_tribe(&once), Some(once.clone()));
    }
}

#[test]
fn pool_count_matches_pool_and_validated_ids_are_in_it() {
    let k = knowledge();
    for tribes in [Vec::new(), vec!["BEAST".to_owned()], vec!["DEMON".to_owned(), "MECHANICAL".to_owned()]] {
        let pool = k.current_pool(&tribes);
        assert_eq!(k.current_pool_count(&tribes), pool.len());
        for id in ["BG_B2_G", "BG_B2", "BG_M1", "BG_N1", "BG_D1", "BG_SPELL"] {
            if let Some(c) = k.validate_pool_card_id(id, &tribes) {
                assert!(pool.iter().any(|p| p.card_id == c));
            }
        }
        let lines: Vec<String> = pool.iter().map(|p| p.card_id.clone()).collect();
        let text = k.prompt_context(&tribes);
        let firsts: Vec<String> = text.split('\n').map(|l| l.split(" | ").next().unwrap_or("").to_owned()).collect();
        assert_eq!(firsts, lines);
    }
}

#[test]
fn unlisted_golden_id_validates_to_its_pool_card() {
    let k = knowledge();
    assert_eq!(k.validate_pool_card_id("BG_M1_G", &Vec::new()), Some("BG_M1".to_owned()));
    assert_eq!(k.validate_pool_card_id("BG_N1_G", &vec!["BEAST".to_owned()]), Some("BG_N1".to_owned()));
}
