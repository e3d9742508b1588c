use hearthcoach_harness::demo::deepseek::{
    fit_prompt_to_context, json_object_span, json_text, normalize_priority, stage_for_round,
    validate_chat_grounding, CoachReply,
};

fn reply(text: &str, observed_round: u32, cited: &[&str]) -> CoachReply {
    CoachReply {
        reply: text.to_owned(),
        observed_round,
        cited_card_ids: cited.iter().map(|s| s.to_string()).collect(),
    }
}

fn ids(list: &[&str]) -> Vec<String> {
    list.iter().map(|s| s.to_string()).collect()
}

#[test]
fn rejects_stale_round_echo() {
    let response = reply("当前应该先稳住场面", 1, &[]);
    assert!(validate_chat_grounding(&response, "现在要升本吗", 4, None, &Vec::new(), &Vec::new()).is_err());
}

#[test]
fn rejects_untrusted_card_id() {
    let response = reply("这张牌是核心", 4, &["BG_FAKE"]);
    assert!(validate_chat_grounding(&response, "核心牌是什么", 4, None, &Vec::new(), &Vec::new()).is_err());
}

#[test]
fn accepts_current_round_and_trusted_card() {
    let response = reply("当前回合可以围绕这张核心牌继续构筑", 4, &["BG_REAL"]);
    let trusted = ids(&["BG_REAL"]);
    assert!(validate_chat_grounding(&response, "现在怎么走", 4, None, &trusted, &Vec::new()).is_ok());
}

#[test]
fn grounding_errors_carry_their_messages() {
    let stale = reply("x", 1, &[]);
    assert_eq!(
        validate_chat_grounding(&stale, "q", 4, None, &Vec::new(), &Vec::new()),
        Err("chat observed_round=1 but authoritative round is 4".to_owned())
    );
    let fake = reply("x", 4, &["BG_OK", "BG_FAKE"]);
    assert_eq!(
        validate_chat_grounding(&fake, "q", 4, None, &ids(&["BG_OK"]), &Vec::new()),
        Err("chat cited untrusted card id BG_FAKE".to_owned())
    );
    let uncited = reply("x", 4, &[]);
    assert_eq!(
        validate_chat_grounding(&uncited, "这张卡牌怎么样", 4, None, &ids(&["BG_OK"]), &Vec::new()),
        Err("card-specific answer omitted cited_card_ids".to_owned())
    );
    let off_core = reply("x", 4, &["BG_OK"]);
    assert_eq!(
        validate_chat_grounding(&off_core, "核心卡呢", 4, None, &ids(&["BG_OK", "BG_CORE"]), &ids(&["BG_CORE"])),
        Err("core-card answer must cite only selected composition core_card_ids".to_owned())
    );
    let wrong_round = reply("第6回合记得升本", 4, &[]);
    assert_eq!(
        validate_chat_grounding(&wrong_round, "接下来呢", 4, None, &Vec::new(), &Vec::new()),
        Err("chat reply contradicts current round 4 by mentioning 第6回合 as current context".to_owned())
    );
}

#[test]
fn named_rounds_are_allowed_when_current_planned_or_asked() {
    let current = reply("第 4 回合先稳血", 4, &[]);
    assert!(validate_chat_grounding(&current, "怎么走", 4, None, &Vec::new(), &Vec::new()).is_ok());
    let planned = reply("第5回合准备升本", 4, &[]);
    assert!(validate_chat_grounding(&planned, "怎么走", 4, Some(5), &Vec::new(), &Vec::new()).is_ok());
    let asked = reply("第9回合可以考虑", 4, &[]);
    assert!(validate_chat_grounding(&asked, "第9回合该做什么", 4, None, &Vec::new(), &Vec::new()).is_ok());
    let beyond = reply("第31回合", 4, &[]);
    assert!(validate_chat_grounding(&beyond, "怎么走", 4, None, &Vec::new(), &Vec::new()).is_ok());
}

#[test]
fn core_card_answers_citing_only_core_cards_pass() {
    let answer = reply("核心是它", 4, &["BG_CORE"]);
    assert!(validate_chat_grounding(&answer, "核心牌是哪张", 4, None, &ids(&["BG_CORE"]), &ids(&["BG_CORE"]))
        .is_ok());
}

#[test]
fn priorities_are_normalized() {
    assert_eq!(normalize_priority(" s "), "S");
    assert_eq!(normalize_priority("a"), "A");
    assert_eq!(normalize_priority("S+"), "B");
    assert_eq!(normalize_priority(""), "B");
}

#[test]
fn stages_by_round() {
    assert_eq!(stage_for_round(0), "early");
    assert_eq!(stage_for_round(4), "early");
    assert_eq!(stage_for_round(5), "mid");
    assert_eq!(stage_for_round(8), "mid");
    assert_eq!(stage_for_round(9), "late");
}

#[test]
fn prompts_that_fit_are_kept() {
    let (s, u) = fit_prompt_to_context("system", "user", 64_000, 4096);
    assert_eq!(s, "system");
    assert_eq!(u, "user");
}

#[test]
fn oversized_prompts_keep_head_and_tail() {
    // 512 input tokens at least: a budget of 1024 characters.
    let system = "s".repeat(1000);
    let user = format!("{}{}", "h".repeat(600), "t".repeat(600));
    let (s, u) = fit_prompt_to_context(&system, &user, 100, 4096);
    assert_eq!(s.chars().count(), 341);
    // The user prompt gets 1024 - 341 = 683 characters: 409 from the head, 274 from the tail.
    let marker = "\n\n...[context truncated by configured context_window]...\n\n";
    assert_eq!(u, format!("{}{}{}", "h".repeat(409), marker, "t".repeat(274)));
}

#[test]
fn json_text_strips_code_fences() {
    assert_eq!(json_text("  {\"a\":1}  "), "{\"a\":1}");
    assert_eq!(json_text("```json\r\n{\"a\":1}\r\n```"), "{\"a\":1}");
    assert_eq!(json_text("```\n{\n\"a\":1\n}\n```\n"), "{\n\"a\":1\n}");
    assert_eq!(json_text("```json\n{\"a\":1}"), "{\"a\":1}");
    assert_eq!(json_text("```{\"a\":1}```"), "");
}

#[test]
fn json_object_span_takes_first_open_to_last_close() {
    assert_eq!(json_object_span("Here: {\"a\":{\"b\":2}} done"), Some("{\"a\":{\"b\":2}}".to_owned()));
    assert_eq!(json_object_span("no object"), None);
    assert_eq!(json_object_span("} backwards {"), None);
}
