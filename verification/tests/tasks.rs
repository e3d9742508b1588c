use hearthcoach_harness::demo::compliance::{session_id_at, TaskManager, TaskStatus};

fn start(manager: &mut TaskManager, label: &str) -> hearthcoach_harness::demo::compliance::TaskHandle {
    manager.start("strategic_plan".to_string(), label.to_string(), Some(3))
}

#[test]
fn started_task_is_running_with_preparing_stage() {
    let mut manager = TaskManager::new(10);
    let handle = start(&mut manager, "plan");
    assert_eq!(handle.id(), 1);
    let records = manager.records();
    assert_eq!(records.len(), 1);
    assert_eq!(records[0].status, TaskStatus::Running);
    assert_eq!(records[0].stage, "准备");
    assert_eq!(records[0].progress_percent, 0);
    assert_eq!(records[0].round_number, Some(3));
    assert!(!handle.is_cancelled(&manager));
}

#[test]
fn progress_is_capped_at_one_hundred() {
    let mut manager = TaskManager::new(10);
    let handle = start(&mut manager, "plan");
    handle.progress(&mut manager, "请求中", 250, "waiting");
    let records = manager.records();
    assert_eq!(records[0].progress_percent, 100);
    assert_eq!(records[0].stage, "请求中");
    assert_eq!(records[0].detail, "waiting");
}

#[test]
fn cancel_all_running_marks_running_tasks_and_keeps_finished_ones() {
    let mut manager = TaskManager::new(10);
    let done = start(&mut manager, "done");
    let live = start(&mut manager, "live");
    done.complete(&mut manager, "ok");
    manager.cancel_all_running("match ended");
    let records = manager.records();
    assert_eq!(records.len(), 2);
    assert_eq!(records[0].status, TaskStatus::Completed);
    assert_eq!(records[0].stage, "完成");
    assert_eq!(records[0].detail, "ok");
    assert_eq!(records[1].status, TaskStatus::CancelRequested);
    assert_eq!(records[1].stage, "正在取消");
    assert_eq!(records[1].progress_percent, 100);
    assert_eq!(records[1].detail, "match ended");
    assert!(live.is_cancelled(&manager));
    assert_eq!(manager.running().len(), 1);
}

#[test]
fn cancel_of_a_finished_or_unknown_task_is_refused() {
    let mut manager = TaskManager::new(10);
    let handle = start(&mut manager, "plan");
    handle.failed(&mut manager, "boom");
    assert!(!manager.cancel(handle.id()));
    assert!(!manager.cancel(99));
    assert_eq!(manager.records()[0].status, TaskStatus::Failed);
}

#[test]
fn cancelled_task_closes_with_cancelled_stage() {
    let mut manager = TaskManager::new(10);
    let handle = start(&mut manager, "plan");
    assert_eq!(handle.cancel_flag(&manager), Some(false));
    assert!(manager.cancel(handle.id()));
    assert_eq!(handle.cancel_flag(&manager), Some(true));
    handle.cancelled(&mut manager, "stopped");
    assert_eq!(handle.cancel_flag(&manager), None);
    let records = manager.records();
    assert_eq!(records[0].status, TaskStatus::Cancelled);
    assert_eq!(records[0].stage, "已取消");
    assert_eq!(records[0].progress_percent, 100);
    assert!(records[0].finished_at_ms.is_some());
    assert!(manager.running().is_empty());
}

#[test]
fn trimming_history_keeps_tasks_in_flight() {
    let mut manager = TaskManager::new(0);
    let first = start(&mut manager, "first");
    for _ in 0..60 {
        let handle = start(&mut manager, "short");
        handle.complete(&mut manager, "ok");
    }
    let records = manager.records();
    assert_eq!(records.len(), 50);
    assert_eq!(records[0].id, first.id());
    assert_eq!(records[0].status, TaskStatus::Running);
    assert_eq!(manager.running().len(), 1);
}

#[test]
fn session_id_carries_the_clock_reading() {
    assert_eq!(session_id_at(1700000000123), "session_1700000000123");
    assert_eq!(session_id_at(0), "session_0");
}

#[test]
fn clock_readings_fit_in_u64() {
    assert_eq!(hearthcoach_harness::demo::compliance::millis_to_u64(None), 0);
    assert_eq!(hearthcoach_harness::demo::compliance::millis_to_u64(Some(1234)), 1234);
    assert_eq!(hearthcoach_harness::demo::compliance::millis_to_u64(Some(u64::MAX as u128 + 7)), u64::MAX);
}

#[test]
fn handle_stays_cancelled_after_its_task_finished() {
    let mut manager = TaskManager::new(10);
    let handle = start(&mut manager, "plan");
    let other = start(&mut manager, "chat");
    assert!(manager.cancel(handle.id()));
    handle.cancelled(&mut manager, "stopped");
    other.complete(&mut manager, "done");
    assert!(handle.is_cancelled(&manager));
    assert!(!other.is_cancelled(&manager));
    assert_eq!(handle.cancel_flag(&manager), None);
    assert!(other.id() > handle.id());
}

#[test]
fn completed_task_ignores_cancel_and_progress() {
    let mut manager = TaskManager::new(10);
    let handle = start(&mut manager, "plan");
    handle.complete(&mut manager, "done");
    let before = manager.records();
    assert!(!manager.cancel(handle.id()));
    handle.progress(&mut manager, "again", 5, "late");
    let after = manager.records();
    assert_eq!(after.len(), before.len());
    assert_eq!(after[0].status, TaskStatus::Completed);
    assert_eq!(after[0].stage, "完成");
    assert_eq!(after[0].progress_percent, 100);
    assert_eq!(after[0].detail, "done");
}

#[test]
fn start_opens_exactly_one_record_per_task() {
    let mut manager = TaskManager::new(10);
    let a = start(&mut manager, "a");
    let b = start(&mut manager, "b");
    assert!(b.id() > a.id());
    let records = manager.records();
    assert_eq!(records.iter().filter(|r| r.id == b.id()).count(), 1);
    assert_eq!(records[1].label, "b");
    assert_eq!(records[1].status, TaskStatus::Running);
}
