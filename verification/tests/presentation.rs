use hearthcoach_harness::demo::agent::{AgentCard, AgentSnapshot};
use hearthcoach_harness::demo::control_center::{compact_preview, parse_u32_setting, parse_u64_setting};
use hearthcoach_harness::demo::deepseek::chat_card_facts;
use hearthcoach_harness::demo::hdt_knowledge::HdtKnowledgeBase;
use hearthcoach_harness::demo::model::{
    AiUsage, ChatMessage, CompositionOption, ReplanEvent, ReplanLevel, StageWatchlist, UpgradePosture, WatchCard,
    WatchlistResponse,
};
use hearthcoach_harness::demo::overlay::{
    card_art_preference, chat_transcript, choice_kind_cn, phase_cn, priority_rank, stage_cn, strip_png_iccp_chunk,
    tribe_cn, truncate_chars, upgrade_posture_cn, wrap_chars,
};
use hearthcoach_harness::demo::server::{add_usage, append_replan_events, trim_chat_history};
use hearthcoach_harness::harness::archive::ChoiceKind;
use hearthcoach_harness::harness::card_catalog::{CardCatalog, CardMeta};

#[test]
fn labels_in_chinese() {
    assert_eq!(upgrade_posture_cn(UpgradePosture::Prefer), "优先");
    assert_eq!(upgrade_posture_cn(UpgradePosture::Delay), "延后");
    assert_eq!(choice_kind_cn(&ChoiceKind::Trinket), "饰品选择");
    assert_eq!(choice_kind_cn(&ChoiceKind::Discover), "发现/选择");
    assert_eq!(stage_cn("mid"), "中期");
    assert_eq!(stage_cn("MID"), "未知阶段");
    assert_eq!(phase_cn("recruit"), "购买阶段");
    assert_eq!(phase_cn("COMBAT"), "战斗阶段");
    assert_eq!(phase_cn("Complete"), "已结束");
    assert_eq!(phase_cn("Pregame"), "准备阶段");
    assert_eq!(tribe_cn(" mechanical "), "机械");
    assert_eq!(tribe_cn("Quilboar"), "野猪人");
    assert_eq!(tribe_cn(" naga"), "纳迦");
    assert_eq!(tribe_cn("pirate "), "海盗");
    assert_eq!(tribe_cn("Elementals"), "元素");
    assert_eq!(tribe_cn("unknown kind"), "UNKNOWN KIND");
}

#[test]
fn priority_ranks() {
    assert_eq!(priority_rank(" s"), 0);
    assert_eq!(priority_rank("A"), 1);
    assert_eq!(priority_rank("B"), 2);
    assert_eq!(priority_rank(""), 2);
}

#[test]
fn wrapping_breaks_at_width_and_newlines() {
    assert_eq!(wrap_chars("abcdefg", 3), vec!["abc", "def", "g"]);
    assert_eq!(wrap_chars("ab\ncd", 5), vec!["ab", "cd"]);
    assert_eq!(wrap_chars("ab\n\ncd", 5), vec!["ab", "cd"]);
    assert_eq!(wrap_chars("", 5), vec![""]);
    assert_eq!(wrap_chars("\n", 5), vec![""]);
    assert_eq!(wrap_chars("abc", 0), vec!["a", "b", "c"]);
    assert_eq!(wrap_chars("一二三四", 2), vec!["一二", "三四"]);
}

#[test]
fn truncation_adds_an_ellipsis() {
    assert_eq!(truncate_chars("hello", 5), "hello");
    assert_eq!(truncate_chars("hello", 4), "hel…");
    assert_eq!(truncate_chars("hello", 1), "…");
    assert_eq!(truncate_chars("hello", 0), "…");
    assert_eq!(truncate_chars("你好世界", 3), "你好…");
}

#[test]
fn compact_previews_collapse_whitespace() {
    assert_eq!(compact_preview("  a\r\n b\tc  ", 10), "a b c");
    assert_eq!(compact_preview("one two three", 7), "one tw…");
}

#[test]
fn numeric_settings() {
    assert_eq!(parse_u32_setting(" 42 ", "端口"), Ok(42));
    assert_eq!(parse_u32_setting("+7", "端口"), Ok(7));
    assert_eq!(parse_u32_setting("-1", "端口"), Err("端口 不是有效整数".to_owned()));
    assert_eq!(parse_u32_setting("4294967296", "端口"), Err("端口 不是有效整数".to_owned()));
    assert_eq!(parse_u64_setting("4294967296", "超时"), Ok(4294967296));
    assert_eq!(parse_u64_setting("", "超时"), Err("超时 不是有效整数".to_owned()));
}

#[test]
fn transcript_joins_messages() {
    let messages = vec![
        ChatMessage { role: "user".to_owned(), content: "现在\n怎么走".to_owned(), plan_changed: false },
        ChatMessage { role: "assistant".to_owned(), content: "先升本".to_owned(), plan_changed: true },
        ChatMessage { role: "assistant".to_owned(), content: "好".to_owned(), plan_changed: false },
    ];
    assert_eq!(
        chat_transcript(&messages),
        "你：\r\n现在\r\n怎么走\r\n\r\nAI [已修改目标]：\r\n先升本\r\n\r\nAI：\r\n好"
    );
    assert_eq!(chat_transcript(&[]), "");
}

#[test]
fn art_files_prefer_jpg_portraits() {
    assert_eq!(card_art_preference("JPG", "C:/HDT/CardPortraits/BG_X.JPG"), (0, 0, "c:/hdt/cardportraits/bg_x.jpg".to_owned()));
    assert_eq!(card_art_preference("png", "/art/cardtiles/a.png"), (2, 1, "/art/cardtiles/a.png".to_owned()));
    assert_eq!(card_art_preference("", "/art/other/a"), (3, 3, "/art/other/a".to_owned()));
}

fn chunk(kind: &[u8; 4], data: &[u8]) -> Vec<u8> {
    let mut out = (data.len() as u32).to_be_bytes().to_vec();
    out.extend_from_slice(kind);
    out.extend_from_slice(data);
    out.extend_from_slice(&[0, 0, 0, 0]);
    out
}

const SIGNATURE: [u8; 8] = [0x89, b'P', b'N', b'G', 0x0d, 0x0a, 0x1a, 0x0a];

#[test]
fn png_colour_profiles_are_dropped() {
    let mut png = SIGNATURE.to_vec();
    png.extend(chunk(b"IHDR", &[1, 2, 3]));
    png.extend(chunk(b"iCCP", &[9, 9]));
    png.extend(chunk(b"IDAT", &[4]));
    png.extend(chunk(b"IEND", &[]));
    png.extend_from_slice(b"trailer");
    let mut expected = SIGNATURE.to_vec();
    expected.extend(chunk(b"IHDR", &[1, 2, 3]));
    expected.extend(chunk(b"IDAT", &[4]));
    expected.extend(chunk(b"IEND", &[]));
    expected.extend_from_slice(b"trailer");
    assert_eq!(strip_png_iccp_chunk(&png), Some(expected));
}

#[test]
fn png_without_profile_or_broken_is_left_alone() {
    let mut plain = SIGNATURE.to_vec();
    plain.extend(chunk(b"IHDR", &[1]));
    plain.extend(chunk(b"IEND", &[]));
    assert_eq!(strip_png_iccp_chunk(&plain), None);
    assert_eq!(strip_png_iccp_chunk(b"GIF89a"), None);
    let mut cut = SIGNATURE.to_vec();
    cut.extend(chunk(b"iCCP", &[1, 2, 3, 4]));
    cut.truncate(cut.len() - 3);
    assert_eq!(strip_png_iccp_chunk(&cut), None);
}

fn event(code: &str, detail: &str) -> ReplanEvent {
    ReplanEvent { level: ReplanLevel::Strategic, code: code.to_owned(), detail: detail.to_owned() }
}

#[test]
fn replan_history_skips_recent_repeats_and_keeps_twelve() {
    let mut history = vec![event("a", "1")];
    append_replan_events(&mut history, &[event("a", "1"), event("a", "2"), event("b", "1")]);
    let codes: Vec<(String, String)> = history.iter().map(|e| (e.code.clone(), e.detail.clone())).collect();
    assert_eq!(
        codes,
        vec![("a".into(), "1".into()), ("a".into(), "2".into()), ("b".into(), "1".into())]
    );
    let many: Vec<ReplanEvent> = (0..20).map(|i| event("n", &i.to_string())).collect();
    append_replan_events(&mut history, &many);
    assert_eq!(history.len(), 12);
    assert_eq!(history[0].detail, "8");
    assert_eq!(history[11].detail, "19");
}

#[test]
fn chat_history_keeps_twenty() {
    let mut messages: Vec<ChatMessage> = (0..25)
        .map(|i| ChatMessage { role: "user".to_owned(), content: i.to_string(), plan_changed: false })
        .collect();
    trim_chat_history(&mut messages);
    assert_eq!(messages.len(), 20);
    assert_eq!(messages[0].content, "5");
}

#[test]
fn usage_adds_and_saturates() {
    let mut total = AiUsage {
        prompt_tokens: 10,
        completion_tokens: u64::MAX - 1,
        total_tokens: 0,
        prompt_cache_hit_tokens: 1,
        prompt_cache_miss_tokens: 2,
    };
    let delta = AiUsage { prompt_tokens: 5, completion_tokens: 5, total_tokens: 7, prompt_cache_hit_tokens: 1, prompt_cache_miss_tokens: 0 };
    add_usage(&mut total, &delta);
    assert_eq!(total.prompt_tokens, 15);
    assert_eq!(total.completion_tokens, u64::MAX);
    assert_eq!(total.total_tokens, 7);
    assert_eq!(total.prompt_cache_hit_tokens, 2);
    assert_eq!(total.prompt_cache_miss_tokens, 2);
}

fn minion(id: &str, name: &str, race: Option<&str>, normal: Option<&str>) -> CardMeta {
    CardMeta {
        card_id: id.to_owned(),
        dbf_id: None,
        name_zh_cn: Some(name.to_owned()),
        name_en_us: None,
        text_zh_cn: Some("Battlecry:\n gain  +1".to_owned()),
        text_en_us: None,
        mechanics: Vec::new(),
        activate_keyword: false,
        in_bacon_pool: true,
        card_type: Some("MINION".to_owned()),
        race: race.map(|r| r.to_owned()),
        secondary_race: None,
        tavern_tier: Some(2),
        cost: Some(3),
        attack: Some(2),
        health: Some(2),
        premium: normal.is_some(),
        normal_card_id: normal.map(|n| n.to_owned()),
    }
}

fn agent_card(id: &str) -> AgentCard {
    AgentCard {
        entity_id: 1,
        card_id: id.to_owned(),
        name: String::new(),
        attack: None,
        health: None,
        tavern_tier: None,
        is_golden: false,
        tribes: Vec::new(),
        text: String::new(),
        mechanics: Vec::new(),
    }
}

#[test]
fn chat_facts_cover_the_known_cards() {
    let knowledge = HdtKnowledgeBase::from_catalog(CardCatalog::from_cards(vec![
        minion("BG_A", "Alpha", Some("BEAST"), None),
        minion("BG_A_G", "Alpha", Some("BEAST"), Some("BG_A")),
        minion("BG_C", "Core", None, None),
    ]));
    let snapshot = AgentSnapshot {
        round_number: 3,
        phase: "Recruit".to_owned(),
        hero_effective_health: Some(30),
        gold: Some(3),
        tavern_tier: Some(2),
        refresh_cost: Some(1),
        upgrade_cost: Some(5),
        next_opponent_player_id: None,
        available_tribes: Vec::new(),
        board: vec![agent_card("BG_A_G"), agent_card("  ")],
        hand: vec![agent_card("BG_UNKNOWN")],
        shop: vec![agent_card("BG_A")],
        trinkets: Vec::new(),
        opponent_board: Vec::new(),
    };
    let selected = CompositionOption {
        id: "c1".to_owned(),
        name: "c".to_owned(),
        summary: String::new(),
        why: String::new(),
        difficulty: String::new(),
        key_tribes: Vec::new(),
        core_card_ids: vec!["BG_C".to_owned()],
    };
    let watch = WatchlistResponse {
        composition_id: "c1".to_owned(),
        stages: vec![StageWatchlist {
            stage: "early".to_owned(),
            cards: vec![WatchCard {
                card_id: "BG_C".to_owned(),
                name: "Core".to_owned(),
                tavern_tier: Some(2),
                priority: "S".to_owned(),
                role: String::new(),
                reason: String::new(),
            }],
        }],
    };
    let (text, trusted) = chat_card_facts(&knowledge, &snapshot, Some(&selected), Some(&watch));
    assert_eq!(
        text,
        "BG_A | Alpha | type=MINION | tier=Some(2) | tribes=BEAST | text=Battlecry: gain +1\n\
         BG_C | Core | type=MINION | tier=Some(2) | tribes= | text=Battlecry: gain +1"
    );
    assert_eq!(trusted, vec!["BG_A".to_owned(), "BG_A_G".to_owned(), "BG_C".to_owned()]);
}

use hearthcoach_harness::demo::overlay::{clamp_panel_rect, panel_resize_handle, priority_color, rgb, UiRect};

fn rect(left: i32, top: i32, right: i32, bottom: i32) -> UiRect {
    UiRect { left, top, right, bottom }
}

#[test]
fn a_panel_is_pulled_back_inside_the_game_window() {
    let game = rect(100, 50, 1100, 850);
    assert_eq!(clamp_panel_rect(rect(1000, 800, 1300, 1000), game), rect(800, 650, 1100, 850));
    assert_eq!(clamp_panel_rect(rect(0, 0, 300, 200), game), rect(100, 50, 400, 250));
    assert_eq!(clamp_panel_rect(rect(500, 400, 800, 600), game), rect(500, 400, 800, 600));
    // Larger than the window: pinned to its top-left corner, size kept.
    assert_eq!(clamp_panel_rect(rect(300, 300, 1600, 1300), game), rect(100, 50, 1400, 1050));
    // An empty rectangle keeps a one-pixel size.
    assert_eq!(clamp_panel_rect(rect(500, 500, 500, 400), game), rect(500, 500, 501, 501));
}

#[test]
fn resize_grip_and_point_tests() {
    let grip = panel_resize_handle(300, 10);
    assert_eq!(grip, rect(276, 0, 300, 10));
    assert!(grip.contains(276, 0));
    assert!(!grip.contains(300, 5));
}

#[test]
fn priority_colours_follow_the_rank() {
    assert_eq!(rgb(255, 74, 74), 0x004A_4AFF);
    assert_eq!(priority_color(" s "), 0x004A_4AFF);
    assert_eq!(priority_color("A"), rgb(255, 190, 46));
    assert_eq!(priority_color("B"), rgb(80, 207, 255));
}
