use nexbox::hardware_report::recent_order;
use nexbox::hardware_report::{distinct_stamps, merge_plan};
use nexbox::boot::{
    exit_hidden_windows, install_on_exit, is_autostart_args, is_packaged_exe, log_needs_reset,
    packaged_aumid, startup_window, MainVisibility, VisibilityAction,
};
use nexbox::hardware_report::{
    clear_message, data_file_path, get_hardware_recording_status, html_escape, start_recording,
    stop_recording, Recorder, DISK_FLUSH_INTERVAL, MAX_SAMPLES,
};

#[test]
fn recorder_keeps_the_latest_hour() {
    let mut state: Option<Recorder<u32>> = None;
    start_recording(&mut state, "t0".to_string());
    let mut written: Vec<u32> = Vec::new();
    for i in 0..(MAX_SAMPLES as u32 + 5) {
        if let Some(batch) = state.as_mut().unwrap().push_snapshot(i, i) {
            assert_eq!(batch.len(), DISK_FLUSH_INTERVAL);
            written.extend(batch);
        }
    }
    let rec = state.as_ref().unwrap();
    assert_eq!(rec.samples.len(), MAX_SAMPLES);
    assert_eq!(rec.samples[0], 5);
    assert_eq!(*rec.samples.last().unwrap(), MAX_SAMPLES as u32 + 4);
    let status = get_hardware_recording_status(&state, 12);
    assert!(status.is_recording);
    assert_eq!(status.sample_count, MAX_SAMPLES as u32);
    assert_eq!(status.start_time, "t0");
    let pending = stop_recording(&mut state);
    assert!(state.is_none());
    written.extend(pending);
    assert_eq!(written.len(), MAX_SAMPLES + 5);
    assert!(!get_hardware_recording_status(&state, 99).is_recording);
}

#[test]
fn starting_twice_keeps_the_first_recorder() {
    let mut state: Option<Recorder<u8>> = None;
    start_recording(&mut state, "a".to_string());
    state.as_mut().unwrap().push_snapshot(1, 1);
    start_recording(&mut state, "b".to_string());
    assert_eq!(state.as_ref().unwrap().start_timestamp, "a");
    assert_eq!(state.as_ref().unwrap().samples, vec![1]);
    state.as_mut().unwrap().clear("c".to_string());
    assert!(state.as_ref().unwrap().samples.is_empty());
    assert_eq!(clear_message(true), "硬件数据已清除，新数据将继续记录");
}

#[test]
fn report_escaping_and_paths() {
    assert_eq!(html_escape("<a href=\"x\">&</a>"), "&lt;a href=&quot;x&quot;&gt;&amp;&lt;/a&gt;");
    let p = data_file_path(Some("base"));
    assert!(p.starts_with("base"));
    assert!(p.ends_with("hardware_data.jsonl"));
    assert!(p.contains("NexBox"));
}

#[test]
fn package_identity() {
    assert!(is_packaged_exe("C:\\Program Files\\WindowsApps\\X\\nexbox.exe"));
    assert!(!is_packaged_exe("C:\\Program Files\\NexBox\\nexbox.exe"));
    assert_eq!(
        packaged_aumid("MuLiuSaMa.NexBox_1.2.3.0_x64__rkw8a3fpq7zcw").as_deref(),
        Some("MuLiuSaMa.NexBox_rkw8a3fpq7zcw!NexBox")
    );
    assert_eq!(packaged_aumid("single"), None);
    assert_eq!(packaged_aumid("__a__"), None);
}

#[test]
fn start_and_exit_decisions() {
    assert!(log_needs_reset(5 * 1024 * 1024 + 1));
    assert!(!log_needs_reset(5 * 1024 * 1024));
    assert!(is_autostart_args(&vec!["nexbox.exe".to_string(), "--autostart".to_string()]));
    assert!(!is_autostart_args(&vec!["nexbox.exe".to_string()]));
    let w = startup_window(true);
    assert!(w.off_screen && w.skip_taskbar && !w.report_visible);
    let mut v = MainVisibility { visible: true };
    assert!(matches!(v.set(true), VisibilityAction::Nothing));
    assert!(matches!(v.set(false), VisibilityAction::HiddenCheckLater));
    assert!(v.enter_eco_now());
    assert!(matches!(v.set(true), VisibilityAction::ShownLeaveEco));
    assert!(!v.enter_eco_now());
    assert_eq!(exit_hidden_windows().len(), 5);
    assert!(install_on_exit(true, Some(true)));
    assert!(!install_on_exit(false, Some(true)));
    assert!(!install_on_exit(true, None));
}

#[test]
fn report_reads_the_last_thirty_days_by_elapsed_time() {
    let stamps = vec![
        "2024-06-10T00:00:05+00:00".to_string(),
        "2024-04-01T00:00:00+00:00".to_string(),
        "not a time".to_string(),
        "2024-06-10T00:00:01+00:00".to_string(),
    ];
    let elapsed = vec![5, 0, 9, 1];
    // now: 2024-06-15T00:00:00Z
    let now = (1718409600i64, 0u32);
    assert_eq!(recent_order(&stamps, &elapsed, now), vec![3, 0, 2]);
    // exactly thirty days old is still kept
    let edge = vec!["2024-05-16T00:00:00Z".to_string()];
    assert_eq!(recent_order(&edge, &vec![0], now), vec![0]);
    assert_eq!(recent_order(&edge, &vec![0], (1718409600, 1)), Vec::<usize>::new());
}

#[test]
fn merged_samples_are_one_per_stamp_in_stamp_order() {
    let stamps = vec![
        "2024-06-10T00:00:10+00:00".to_string(),
        "2024-06-10T00:00:01+00:00".to_string(),
        "2024-06-10T00:00:10+00:00".to_string(),
        "2024-06-10T00:00:03.9+00:00".to_string(),
    ];
    assert_eq!(distinct_stamps(&stamps), vec![1, 3, 0]);
    assert_eq!(merge_plan(&stamps), vec![(1, Some(0)), (3, Some(2)), (0, Some(9))]);
    let bad_first = vec!["bad".to_string(), "2024-06-10T00:00:01+00:00".to_string()];
    assert_eq!(merge_plan(&bad_first), vec![(1, Some(0)), (0, None)]);
    let first_unreadable = vec!["2024-06-10T00:00:01+00:00".to_string(), "0bad".to_string()];
    assert_eq!(merge_plan(&first_unreadable), vec![(1, None), (0, None)]);
    assert!(merge_plan(&vec![]).is_empty());
}
