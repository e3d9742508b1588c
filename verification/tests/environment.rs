use hearthcoach_harness::demo::environment::{
    ensure_power_log_config_text, environment_status_from, is_power_log_recent, log_config_repair,
    plan_environment_repair, power_log_config_ready, EnvironmentStatus, LogConfigRead,
};

#[test]
fn repairs_missing_power_section_without_dropping_other_sections() {
    let input = "[LoadingScreen]\nLogLevel=1\nFilePrinting=True\n";
    let fixed = ensure_power_log_config_text(input);
    assert!(fixed.contains("[LoadingScreen]"));
    assert!(fixed.contains("[Power]"));
    assert!(power_log_config_ready(&fixed));
}

#[test]
fn repairs_bad_power_section_and_preserves_following_section() {
    let input = "[Power]\nLogLevel=0\nFilePrinting=False\nVerbose=False\n[Zone]\nLogLevel=1\n";
    let fixed = ensure_power_log_config_text(input);
    assert!(power_log_config_ready(&fixed));
    assert!(fixed.contains("[Zone]"));
    assert!(!fixed.contains("FilePrinting=False"));
}

#[test]
fn repaired_text_is_exact_with_crlf_endings() {
    let fixed = ensure_power_log_config_text("[LoadingScreen]\r\nLogLevel=1\r\n");
    assert_eq!(
        fixed,
        "[LoadingScreen]\r\nLogLevel=1\r\n\r\n[Power]\r\nLogLevel=1\r\nFilePrinting=True\r\nConsolePrinting=False\r\nScreenPrinting=False\r\nVerbose=True\r\n"
    );
}

#[test]
fn empty_config_gets_only_the_power_section() {
    let fixed = ensure_power_log_config_text("");
    assert_eq!(
        fixed,
        "[Power]\r\nLogLevel=1\r\nFilePrinting=True\r\nConsolePrinting=False\r\nScreenPrinting=False\r\nVerbose=True\r\n"
    );
}

#[test]
fn readiness_needs_all_three_switches_in_power() {
    assert!(power_log_config_ready("[Power]\nLogLevel=2\nFilePrinting=true\nVerbose=1\n"));
    assert!(!power_log_config_ready("[Power]\nLogLevel=0\nFilePrinting=True\nVerbose=True\n"));
    assert!(!power_log_config_ready("[Zone]\nLogLevel=1\nFilePrinting=True\nVerbose=True\n"));
    assert!(!power_log_config_ready("[Power]\nLogLevel=1\nFilePrinting=True\n"));
    assert!(power_log_config_ready("\u{feff}[power]\r\n LogLevel = 1 \r\nFilePrinting=TRUE\rVerbose=True"));
}

const READY: &str = "[Power]\r\nLogLevel=1\r\nFilePrinting=True\r\nConsolePrinting=False\r\nScreenPrinting=False\r\nVerbose=True\r\n";

#[test]
fn repair_is_skipped_for_a_ready_config() {
    assert_eq!(log_config_repair(READY), None);
    let written = log_config_repair("").expect("an empty file needs the Power section");
    assert_eq!(written, READY);
    assert!(power_log_config_ready(&written));
    assert_eq!(log_config_repair(&written), None);
}

#[test]
fn power_log_is_recent_within_fifteen_seconds() {
    assert!(is_power_log_recent(Some(15_000)));
    assert!(!is_power_log_recent(Some(15_001)));
    assert!(!is_power_log_recent(None));
}

#[test]
fn repair_plan_notes_missing_install_and_local_app_data() {
    let plan = plan_environment_repair("D:\\Games\\HS", None, None, false);
    assert!(!plan.result.config_changed);
    assert!(!plan.result.log_config_changed);
    assert_eq!(plan.hearthstone_dir, None);
    assert_eq!(plan.log_config_text, None);
    assert_eq!(
        plan.result.status.notes,
        vec![
            "配置中的炉石目录不可用：D:\\Games\\HS".to_string(),
            "尚未找到 Hearthstone.exe；启动炉石后点击“自动检测并修复”即可再次检测。".to_string(),
            "无法解析 LOCALAPPDATA，因此不能自动管理 log.config。".to_string(),
        ]
    );
    assert!(!plan.result.status.hearthstone_exe_found);
}

#[test]
fn repair_plan_saves_detected_dir_and_writes_log_config() {
    let read = LogConfigRead { path: "C:\\log.config".to_string(), exists: false, text: String::new() };
    let plan = plan_environment_repair(
        "",
        Some(("C:\\Hearthstone".to_string(), "standard install path".to_string())),
        Some(read),
        true,
    );
    assert!(plan.result.config_changed);
    assert_eq!(plan.hearthstone_dir.as_deref(), Some("C:\\Hearthstone"));
    assert_eq!(plan.log_config_text.as_deref(), Some(READY));
    assert!(plan.result.log_config_changed);
    assert!(plan.result.restart_required);
    let status = &plan.result.status;
    assert_eq!(status.detected_by.as_deref(), Some("standard install path"));
    assert!(status.log_config_exists);
    assert!(status.power_logging_ready);
    assert!(status.restart_required);
    assert_eq!(
        status.notes,
        vec!["Power 日志配置刚刚被修复；炉石当前正在运行，请重启炉石后再开始对局。".to_string()]
    );
}

#[test]
fn repair_plan_leaves_a_ready_config_alone() {
    let read = LogConfigRead { path: "C:\\log.config".to_string(), exists: true, text: READY.to_string() };
    let plan = plan_environment_repair(
        "C:\\Hearthstone",
        Some(("C:\\Hearthstone".to_string(), "saved config".to_string())),
        Some(read),
        true,
    );
    assert!(!plan.result.config_changed);
    assert_eq!(plan.hearthstone_dir, None);
    assert_eq!(plan.log_config_text, None);
    assert!(!plan.result.restart_required);
    assert!(plan.result.status.power_logging_ready);
    assert!(plan.result.status.notes.is_empty());
}

#[test]
fn status_prefers_the_saved_directory() {
    let status = environment_status_from(
        "C:\\HS",
        Some("C:\\HS".to_string()),
        Some(("D:\\Other".to_string(), "standard install path".to_string())),
        None,
    );
    assert_eq!(status.hearthstone_dir.as_deref(), Some("C:\\HS"));
    assert_eq!(status.detected_by.as_deref(), Some("saved config"));
    assert!(status.hearthstone_exe_found);
    let missing = environment_status_from("E:\\Gone", None, None, None);
    assert_eq!(missing.hearthstone_dir.as_deref(), Some("E:\\Gone"));
    assert!(!missing.hearthstone_exe_found);
    let blank = EnvironmentStatus::default();
    assert!(blank.notes.is_empty() && blank.hearthstone_dir.is_none());
}

#[test]
fn repairing_twice_changes_nothing_and_keeps_other_lines_in_order() {
    let input = "\u{feff}[Zone]\r\nA=1\n[power]\nLogLevel=0\nX=2\n\n[Other]\nB=3\r[Power]\nVerbose=False\n\n";
    let once = ensure_power_log_config_text(input);
    let twice = ensure_power_log_config_text(&once);
    assert_eq!(once, twice);
    assert!(power_log_config_ready(&once));
    let kept: Vec<&str> = once.lines().filter(|l| ["[Zone]", "A=1", "[Other]", "B=3"].contains(l)).collect();
    assert_eq!(kept, vec!["[Zone]", "A=1", "[Other]", "B=3"]);
    assert!(!once.contains("X=2"));
}
