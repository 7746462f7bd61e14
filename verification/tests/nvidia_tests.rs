use nexbox::nvidia_recording::{copy_cancelled, copy_candidate, copy_target_name, record_copy};
use nexbox::nvidia_recording::{
    add_custom_folder, assemble_scan, bgra_to_rgba, candidate_folders, clear_readonly,
    delete_allowed, failure_message, is_hidden_path, is_video_ext, normalize_path,
    numbered_copy_name, remove_custom_folder, require_existing, thumbnail_cache_path,
    thumbnail_file_name, thumbnail_workers, FolderScan, RecordingVideo,
};

fn video(path: &str, modified_ms: u64, size: u64) -> RecordingVideo {
    RecordingVideo {
        path: path.to_string(),
        name: path.rsplit('\\').next().unwrap().to_string(),
        size,
        modified_ms,
        created_ms: 0,
        ext: "mp4".to_string(),
    }
}

#[test]
fn video_extensions_and_hidden_entries() {
    assert_eq!(is_video_ext(Some("MP4")).as_deref(), Some("mp4"));
    assert_eq!(is_video_ext(Some("txt")), None);
    assert_eq!(is_video_ext(None), None);
    assert!(is_hidden_path(Some("$RECYCLE.BIN")));
    assert!(is_hidden_path(Some(".cache")));
    assert!(!is_hidden_path(Some("Videos")));
}

#[test]
fn separators_normalize_alike() {
    assert_eq!(normalize_path("C:/Videos/NVIDIA/"), "c:\\videos\\nvidia");
    assert_eq!(normalize_path("C:/Videos/NVIDIA/"), normalize_path("c:\\videos\\nvidia"));
}

#[test]
fn candidates_are_deduplicated_deepest_first() {
    let defaults = vec!["C:\\Videos".to_string()];
    let customs = vec!["D:\\Rec\\Games\\Clips".to_string(), "c:/videos/".to_string()];
    let c = candidate_folders(&defaults, &customs);
    assert_eq!(c, vec!["D:\\Rec\\Games\\Clips".to_string(), "C:\\Videos".to_string()]);
}

#[test]
fn scan_lists_qualifying_folders_and_newest_first() {
    let defaults = vec!["C:\\Videos".to_string()];
    let customs = vec!["D:\\Empty".to_string()];
    let scans = vec![
        FolderScan { path: "C:\\Videos".to_string(), name: "Videos".to_string(), videos: vec![video("C:\\Videos\\a.mp4", 10, 5), video("C:\\Videos\\b.mp4", 30, 7)] },
        FolderScan { path: "D:\\Empty".to_string(), name: "Empty".to_string(), videos: vec![] },
        FolderScan { path: "E:\\Nothing".to_string(), name: "Nothing".to_string(), videos: vec![] },
    ];
    let r = assemble_scan(&defaults, &customs, &scans);
    assert_eq!(r.folders.len(), 2);
    assert_eq!(r.folders[0].path, "C:\\Videos");
    assert_eq!(r.folders[0].video_count, 2);
    assert_eq!(r.folders[0].total_size, 12);
    assert!(r.folders[1].custom);
    assert_eq!(r.videos.len(), 2);
    assert_eq!(r.videos[0].modified_ms, 30);
    assert_eq!(r.videos[1].modified_ms, 10);
}

#[test]
fn folders_with_more_recordings_come_first() {
    let defaults = vec!["C:\\Videos".to_string()];
    let customs = vec!["D:\\Clips".to_string()];
    let scans = vec![
        FolderScan { path: "C:\\Videos".to_string(), name: "Videos".to_string(), videos: vec![video("C:\\Videos\\a.mp4", 10, 5)] },
        FolderScan {
            path: "D:\\Clips".to_string(),
            name: "Clips".to_string(),
            videos: vec![video("D:\\Clips\\x.mp4", 1, 1), video("D:\\Clips\\y.mp4", 2, 1)],
        },
    ];
    let r = assemble_scan(&defaults, &customs, &scans);
    assert_eq!(r.folders.len(), 2);
    assert_eq!(r.folders[0].path, "D:\\Clips");
    assert_eq!(r.folders[0].video_count, 2);
    assert_eq!(r.folders[1].path, "C:\\Videos");
}

#[test]
fn custom_folder_list_changes() {
    let folders = vec!["D:\\Rec".to_string()];
    let (same, changed) = add_custom_folder(folders.clone(), Some("d:/rec/".to_string()), true).unwrap();
    assert!(!changed);
    assert_eq!(same, folders);
    let (more, changed2) = add_custom_folder(folders.clone(), Some("E:\\New".to_string()), true).unwrap();
    assert!(changed2);
    assert_eq!(more.len(), 2);
    assert_eq!(
        add_custom_folder(folders.clone(), Some("E:\\Gone".to_string()), false).err(),
        Some("所选目录不存在或不可访问".to_string())
    );
    assert_eq!(add_custom_folder(folders.clone(), None, false).unwrap(), (folders.clone(), false));
    assert!(remove_custom_folder(&more, "e:/new").iter().all(|f| f != "E:\\New"));
}

#[test]
fn copy_delete_and_attributes() {
    assert_eq!(numbered_copy_name("clip", Some("mp4"), 2), "clip (2).mp4");
    assert_eq!(numbered_copy_name("clip", None, 1), "clip (1)");
    assert!(delete_allowed(Some("mkv")).is_ok());
    assert_eq!(delete_allowed(Some("exe")).err(), Some("非视频文件，已拒绝删除".to_string()));
    assert_eq!(require_existing(false).err(), Some("文件不存在或不可访问".to_string()));
    assert_eq!(clear_readonly(0x21), Ok(Some(0x20)));
    assert_eq!(clear_readonly(0x20), Ok(None));
    assert_eq!(clear_readonly(u32::MAX).err(), Some("无法获取文件属性".to_string()));
    assert!(failure_message("删除失败", "denied").contains("denied"));
}

#[test]
fn thumbnails() {
    assert_eq!(bgra_to_rgba(&vec![1, 2, 3, 4, 9]), vec![3, 2, 1, 255, 0]);
    assert_eq!(thumbnail_file_name(0xAB), "00000000000000ab.png");
    assert_eq!(thumbnail_workers(None, 100), 4);
    assert_eq!(thumbnail_workers(Some(32), 3), 3);
    assert_eq!(thumbnail_workers(Some(32), 0), 1);
    let a = thumbnail_cache_path("cache", "C:/V/a.mp4");
    let b = thumbnail_cache_path("cache", "c:\\v\\A.MP4");
    assert_eq!(a, b);
    assert!(a.ends_with(".png"));
    assert_ne!(a, thumbnail_cache_path("cache", "C:/V/b.mp4"));
}

#[test]
fn copies_take_the_first_free_name() {
    let c = copy_cancelled();
    assert!(c.cancelled && c.copied.is_empty() && c.errors.is_empty());
    assert_eq!(copy_candidate("clip.mp4", "clip", Some("mp4"), 0), "clip.mp4");
    assert_eq!(copy_candidate("clip.mp4", "clip", Some("mp4"), 3), "clip (3).mp4");
    assert_eq!(copy_target_name("clip.mp4", "clip", Some("mp4"), &vec![false]), Some("clip.mp4".to_string()));
    assert_eq!(copy_target_name("clip.mp4", "clip", Some("mp4"), &vec![true, true, false]), Some("clip (2).mp4".to_string()));
    assert_eq!(copy_target_name("clip.mp4", "clip", Some("mp4"), &vec![true, true]), None);
    let mut r = nexbox::nvidia_recording::NvidiaCopyResult { copied: vec![], errors: vec![], cancelled: false };
    record_copy(&mut r, "a".to_string(), false, Ok(()));
    record_copy(&mut r, "b".to_string(), true, Ok(()));
    record_copy(&mut r, "c".to_string(), true, Err("disk full".to_string()));
    assert_eq!(r.copied, vec!["b".to_string()]);
    assert_eq!(
        r.errors,
        vec![("a".to_string(), "文件不存在或不可访问".to_string()), ("c".to_string(), "复制失败: disk full".to_string())]
    );
    assert!(!r.cancelled);
}
