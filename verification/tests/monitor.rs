use hearthcoach_harness::harness::monitor::{
    active_match_start, newest_log, parse_tribes, LogCandidate, watch_after_read, watch_before_read, CompletionStep, WatchObservation,
    WatchStart, WatchTimings,
};

/// The lines of a text with the byte offset each starts at.
fn lines_with_offsets(text: &str) -> Vec<(u64, String)> {
    let mut out = Vec::new();
    let mut offset = 0u64;
    for line in text.split_inclusive('\n') {
        out.push((offset, line.to_owned()));
        offset += line.len() as u64;
    }
    out
}

#[test]
fn finds_latest_unfinished_create_game() {
    let text = "D 10:00:00 GameState.DebugPrintPower() - CREATE_GAME\n\
                D 10:00:01 GameState.DebugPrintPower() - TAG_CHANGE Entity=GameEntity tag=STATE value=COMPLETE\n\
                D 10:01:00 GameState.DebugPrintPower() - CREATE_GAME\n\
                D 10:01:01 GameState.DebugPrintPower() - TAG_CHANGE Entity=GameEntity tag=TURN value=1\n";
    let offset = active_match_start(&lines_with_offsets(text)).unwrap();
    let expected = text.find("D 10:01:00").unwrap() as u64;
    assert_eq!(offset, expected);
}

#[test]
fn finished_or_missing_matches_give_no_start() {
    let finished = "D 10:00:00 GameState.DebugPrintPower() - CREATE_GAME\n\
                    D 10:00:01 GameState.DebugPrintPower() - TAG_CHANGE Entity=GameEntity tag=STATE value=COMPLETE\n";
    assert_eq!(active_match_start(&lines_with_offsets(finished)), None);
    assert_eq!(active_match_start(&lines_with_offsets("no power lines\n")), None);
    assert_eq!(active_match_start(&Vec::new()), None);
    let other_marker = "D 10:00:00 GameState.DebugPrintGame() - CREATE_GAME\n";
    assert_eq!(active_match_start(&lines_with_offsets(other_marker)), None);
}

#[test]
fn tribe_lists_are_normalized_sorted_and_distinct() {
    assert_eq!(
        parse_tribes("mech, Dragon,17,,all,naga"),
        vec!["DRAGON".to_owned(), "MECH".to_owned(), "NAGA".to_owned()]
    );
    assert!(parse_tribes("").is_empty());
    assert_eq!(parse_tribes("quilboar"), vec!["QUILLBOAR".to_owned()]);
}

fn quiet() -> WatchObservation {
    WatchObservation {
        newer_log_detected: false,
        manual_refresh_requested: false,
        following_log: true,
        match_active: true,
        complete_seen: false,
        tribes_known: false,
        read_any: false,
        ms_since_start: 0,
        ms_since_tribe_poll: None,
        ms_since_complete_idle: None,
    }
}

const TIMINGS: WatchTimings = WatchTimings { source_refresh_ms: 3000, tribe_poll_ms: 1000, completion_grace_ms: 2000 };

#[test]
fn a_newer_log_interrupts_before_a_manual_refresh() {
    let mut obs = quiet();
    obs.newer_log_detected = true;
    obs.manual_refresh_requested = true;
    assert_eq!(
        watch_before_read(&obs, &TIMINGS),
        WatchStart::Interrupt("检测到更新的 Power.log，切换到最新日志".to_string())
    );
    obs.newer_log_detected = false;
    assert_eq!(watch_before_read(&obs, &TIMINGS), WatchStart::Interrupt("用户请求刷新 Power.log".to_string()));
}

#[test]
fn without_a_log_the_watcher_waits_then_yields() {
    let mut obs = quiet();
    obs.following_log = false;
    obs.match_active = false;
    obs.ms_since_start = 2999;
    assert_eq!(watch_before_read(&obs, &TIMINGS), WatchStart::Sleep);
    obs.ms_since_start = 3000;
    assert_eq!(watch_before_read(&obs, &TIMINGS), WatchStart::RefreshSource);
    obs.following_log = true;
    assert_eq!(watch_before_read(&obs, &TIMINGS), WatchStart::Read);
}

#[test]
fn tribes_are_polled_once_per_period_during_a_match() {
    let mut obs = quiet();
    assert!(watch_after_read(&obs, &TIMINGS).poll_tribes);
    obs.ms_since_tribe_poll = Some(999);
    assert!(!watch_after_read(&obs, &TIMINGS).poll_tribes);
    obs.ms_since_tribe_poll = Some(1000);
    assert!(watch_after_read(&obs, &TIMINGS).poll_tribes);
    obs.tribes_known = true;
    assert!(!watch_after_read(&obs, &TIMINGS).poll_tribes);
}

#[test]
fn a_completed_match_finishes_after_the_quiet_grace() {
    let mut obs = quiet();
    obs.complete_seen = true;
    obs.read_any = true;
    assert_eq!(watch_after_read(&obs, &TIMINGS).completion, CompletionStep::RestartQuietTimer);
    obs.read_any = false;
    assert_eq!(watch_after_read(&obs, &TIMINGS).completion, CompletionStep::KeepWaiting);
    obs.ms_since_complete_idle = Some(2000);
    let after = watch_after_read(&obs, &TIMINGS);
    assert_eq!(after.completion, CompletionStep::Finish);
    assert!(!after.refresh_source);
}

#[test]
fn newest_log_prefers_latest_then_path_order() {
    let c = |t: u128, p: &[&str]| LogCandidate { modified_nanos: t, path: p.iter().map(|s| s.to_string()).collect() };
    assert_eq!(newest_log(&Vec::new()), None);
    let logs = vec![
        c(5, &["/", "Logs", "a", "Power.log"]),
        c(9, &["/", "Logs", "b", "Power.log"]),
        c(9, &["/", "Logs", "a", "Power.log"]),
        c(7, &["/", "Logs", "c", "Power.log"]),
    ];
    assert_eq!(newest_log(&logs), Some(1));
    let tie = vec![c(3, &["/", "x"]), c(3, &["/", "x"])];
    assert_eq!(newest_log(&tie), Some(1));
}
