use nexbox::memory_clean::{
    auto_clean_action, auto_clean_due, clean_items_or_default, memory_clean_plan, AceAutoDetectStats,
    AutoCleanAction, CleanStep, GameStartWatch, WorkerGeneration,
};
use nexbox::optimization::{
    dll_renamed, laptop_power_lock_status, parse_reg_query_start, unlock_outcome,
    windows_update_state,
};

#[test]
fn cleaning_steps_follow_the_items() {
    let items: Vec<String> = ["working_set", "standby", "registry", "file_cache", "modified", "combined", "bogus"]
        .iter()
        .map(|s| s.to_string())
        .collect();
    let plan = memory_clean_plan(&items);
    assert!(plan == vec![
        CleanStep::FlushRegistry,
        CleanStep::CombinePages,
        CleanStep::Purge(4),
        CleanStep::Purge(3),
        CleanStep::ReclaimFileCache,
        CleanStep::TrimWorkingSets,
    ]);
    assert!(memory_clean_plan(&vec![]).is_empty());
    assert_eq!(clean_items_or_default(None), vec!["standby", "file_cache", "low_pri_standby"]);
    assert_eq!(clean_items_or_default(Some(&vec!["x".to_string()])), vec!["x"]);
}

#[test]
fn timed_cleaning() {
    assert!(auto_clean_action("items") == AutoCleanAction::Items);
    assert!(auto_clean_action("ALL") == AutoCleanAction::Nothing);
    assert!(auto_clean_due(60, 60, 0, 8000));
    assert!(auto_clean_due(1, 60, 9000, 8000));
    assert!(!auto_clean_due(1, 60, 100, 8000));
}

#[test]
fn restarted_worker_is_stale() {
    let mut g = WorkerGeneration { current: u64::MAX };
    let first = g.start();
    assert_eq!(first, 0);
    assert!(g.still_current(first));
    let second = g.start();
    assert!(!g.still_current(first));
    g.stop();
    assert!(!g.still_current(second));
}

#[test]
fn game_start_cleans_once() {
    let mut w = GameStartWatch { was_running: false };
    assert!(!w.observe(true, false));
    assert!(w.observe(true, true));
    assert!(!w.observe(true, true));
    assert!(!w.observe(false, true));
    assert!(w.observe(true, true));
    let mut stats = AceAutoDetectStats { is_running: false, last_check: None, total_optimized: u32::MAX - 1, currently_optimized: vec![] };
    stats.record_pass(vec!["a".to_string(), "b".to_string()], "now".to_string());
    assert_eq!(stats.total_optimized, u32::MAX);
    assert!(stats.is_running);
    assert_eq!(stats.last_check.as_deref(), Some("now"));
}

#[test]
fn service_and_lock_states() {
    let out = "\r\nHKEY_LOCAL_MACHINE\\SYSTEM\\CurrentControlSet\\Services\\wuauserv\r\n    Start    REG_DWORD    0x4\r\n";
    assert_eq!(parse_reg_query_start(out), Some(4));
    assert_eq!(parse_reg_query_start("nothing"), None);
    let st = windows_update_state(Some(4), Some(4), Some(4), Some(1), false, dll_renamed(true, false));
    assert!(st.services_disabled && st.policy_set && st.all_disabled && !st.scheduler_disabled);
    let partly = windows_update_state(Some(4), Some(3), Some(4), None, true, true);
    assert!(!partly.services_disabled && !partly.all_disabled);
    assert!(laptop_power_lock_status(Some(0)).unlocked);
    assert!(!laptop_power_lock_status(None).unlocked);
    assert!(unlock_outcome(Some(0)).is_ok());
    assert_eq!(
        unlock_outcome(Some(1)).err(),
        Some("解锁未生效（当前注册表值: Some(1)）。请以管理员身份运行 NexBox 后重试".to_string())
    );
    assert_eq!(
        unlock_outcome(None).err(),
        Some("解锁未生效（当前注册表值: None）。请以管理员身份运行 NexBox 后重试".to_string())
    );
}
