use nexbox::optimization::pagefile_status;
use nexbox::optimization::{
    ace_ifeo_perf, ace_message, check_without_key, classify_reg_line, default_memory_clean_items,
    extract_guid_from_line, find_high_performance_guid, find_plan_guid_by_name,
    get_builtin_plan_filename, get_builtin_plan_metadata, ifeo_perf_options_path, is_ace_process,
    is_protected_process_name, merge_pagefiles, pages_to_mb, pagefile_drive_status,
    parse_active_plan, parse_pagefile_line, parse_powercfg_list, parse_reg_hive,
    recommend_pagefile, reg_apply_plan, reg_matches, reg_scan_plan, reg_target,
    registry_batch_result, validate_pagefile_request, PagefileDrive, PowerPlan, RegData, RegHive,
    RegLine, RegOp, RegTarget, ScanStep,
};

const LIST: &str = "现有电源使用方案\n-----------------------------------\n电源方案 GUID: 381b4222-f694-41f0-9685-ff5bb260df2e  (平衡) *\n电源方案 GUID: 8c5e7fda-e8bf-4a96-9a85-a6e23a8c635c  (高性能)\r\n电源方案 GUID: e9a42b02-d5df-448d-aa00-03f14749eb61  (Ultimate Performance)\n";

fn plan(guid: &str, name: &str) -> PowerPlan {
    PowerPlan { guid: guid.to_string(), name: name.to_string(), active: false }
}

fn drive(path: &str, drive: &str, mode: &str, initial_mb: u64, max_mb: u64) -> PagefileDrive {
    PagefileDrive { path: path.to_string(), drive: drive.to_string(), mode: mode.to_string(), initial_mb, max_mb }
}

#[test]
fn protected_and_anticheat_processes() {
    assert!(is_protected_process_name("Explorer.exe"));
    assert!(!is_protected_process_name("Explorer.EXE"));
    assert!(is_protected_process_name(" svchost .exe"));
    assert!(!is_protected_process_name("SearchIndexer.exe"));
    assert!(!is_protected_process_name("game.exe"));
    assert!(is_ace_process("sguard64.EXE"));
    assert!(!is_ace_process("SGuard.exe"));
}

#[test]
fn ace_messages() {
    assert_eq!(ace_message(0, 0, "已限制 {} 个"), "未找到运行中的 ACE 进程");
    assert_eq!(ace_message(3, 0, "已限制 {} 个"), "发现 3 个 ACE 进程，但无法修改（ACE 反作弊保护了这些进程）");
    assert_eq!(ace_message(3, 1, "已限制 {} 个"), "已限制 1 个（另有 2 个受 ACE 反作弊保护无法修改）");
    assert_eq!(ace_message(2, 2, "{}/{}"), "2/2");
    assert_eq!(
        ifeo_perf_options_path("a.exe"),
        "SOFTWARE\\Microsoft\\Windows NT\\CurrentVersion\\Image File Execution Options\\a.exe\\PerfOptions"
    );
    assert_eq!(ace_ifeo_perf()[1], ("SGuard64.exe", 1, 1));
    assert_eq!(pages_to_mb(512), 2);
    assert_eq!(default_memory_clean_items(), vec!["standby", "file_cache", "low_pri_standby"]);
}

#[test]
fn power_plans_from_powercfg() {
    let plans = parse_powercfg_list(LIST);
    assert_eq!(plans.len(), 3);
    assert_eq!(plans[0].guid, "381b4222-f694-41f0-9685-ff5bb260df2e");
    // the star after the bracket keeps the closing bracket in the name
    assert_eq!(plans[0].name, "平衡)");
    assert!(plans[0].active);
    assert_eq!(plans[1].name, "高性能");
    assert!(!plans[1].active);
    assert_eq!(find_high_performance_guid(&plans).as_deref(), Some("e9a42b02-d5df-448d-aa00-03f14749eb61"));
    assert_eq!(find_high_performance_guid(&plans[..2].iter().map(|p| plan(&p.guid, &p.name)).collect()).as_deref(), Some("8c5e7fda-e8bf-4a96-9a85-a6e23a8c635c"));
    assert_eq!(extract_guid_from_line("x 12345678-1234-1234-1234-123456789abg"), None);
    let active = parse_active_plan("电源方案 GUID: 381b4222-f694-41f0-9685-ff5bb260df2e  (平衡)\n").unwrap();
    assert_eq!(active, ("381b4222-f694-41f0-9685-ff5bb260df2e".to_string(), "平衡".to_string()));
    let sys = vec![plan("g1", "英特尔-KF系列提升平均帧计划(毒药制作"), plan("g2", "PowerX v2")];
    assert_eq!(find_plan_guid_by_name(&sys, "英特尔-KF系列提升平均帧计划").as_deref(), Some("g1"));
    assert_eq!(find_plan_guid_by_name(&sys, "PowerX").as_deref(), Some("g2"));
    assert_eq!(find_plan_guid_by_name(&sys, "none"), None);
    assert_eq!(get_builtin_plan_filename("ggOSDesktopGaming"), "ggOS Desktop Gaming.pow");
    assert_eq!(get_builtin_plan_filename("X"), "X.pow");
    assert_eq!(get_builtin_plan_metadata("PowerX-v2").0, "PowerX v2");
    assert_eq!(get_builtin_plan_metadata("Z"), ("Z".to_string(), String::new()));
}

#[test]
fn registry_paths_and_lines() {
    assert!(matches!(parse_reg_hive("HKEY_CURRENT_USER\\Software\\X"), Ok((RegHive::CurrentUser, ref s)) if s == "Software\\X"));
    assert_eq!(parse_reg_hive("HKEY_FOO\\x").err(), Some("不支持的注册表根键: HKEY_FOO\\x".to_string()));
    assert!(matches!(classify_reg_line("  ; comment"), RegLine::Skip));
    assert!(matches!(classify_reg_line("[-HKEY_USERS\\a]"), RegLine::DeleteKey(ref p) if p == "HKEY_USERS\\a"));
    assert!(matches!(classify_reg_line("\"Na\\\"me\"=dword:1"), RegLine::Named(ref n, ref v) if n == "Na\"me" && v == "dword:1"));
    assert!(matches!(classify_reg_line("@=\"v\""), RegLine::Default(ref v) if v == "\"v\""));
}

#[test]
fn applying_a_reg_file() {
    let content = "Windows Registry Editor Version 5.00\r\n\r\n\"Early\"=dword:1\r\n[HKEY_CURRENT_USER\\Software\\A]\r\n\"D\"=dword:0000001f\r\n\"S\"=\"a\\\"b\"\r\n\"X\"=-\r\n@=\"def\"\r\n[-HKEY_CURRENT_USER\\Software\\B]\r\n\"Late\"=dword:2\r\n";
    let ops = reg_apply_plan(content);
    assert_eq!(ops.len(), 6);
    assert!(matches!(&ops[0], RegOp::OpenKey(p) if p == "HKEY_CURRENT_USER\\Software\\A"));
    assert!(matches!(&ops[1], RegOp::SetValue(n, RegData::Dword(31)) if n == "D"));
    assert!(matches!(&ops[2], RegOp::SetValue(n, RegData::Str(s)) if n == "S" && s == "a\"b"));
    assert!(matches!(&ops[3], RegOp::DeleteValue(n) if n == "X"));
    assert!(matches!(&ops[4], RegOp::SetValue(n, RegData::Str(s)) if n.is_empty() && s == "def"));
    assert!(matches!(&ops[5], RegOp::DeleteKey(p) if p == "HKEY_CURRENT_USER\\Software\\B"));
    let bad = reg_apply_plan("[HKEY_USERS\\x]\n\"A\"=dword:zz\n\"B\"=dword:1\n");
    assert_eq!(bad.len(), 2);
    assert!(matches!(&bad[1], RegOp::Fail(e) if e == "解析 dword 值失败: invalid digit found in string"));
}

#[test]
fn scanning_a_reg_file() {
    let steps = reg_scan_plan("[HKEY_USERS\\x]\n\"A\"=dword:1\n@=\"v\"\n[-HKEY_USERS\\y]\n");
    assert_eq!(steps.len(), 4);
    assert!(matches!(&steps[2], ScanStep::Check(n, v, true) if n.is_empty() && v == "\"v\""));
    assert!(matches!(&steps[3], ScanStep::RequireAbsent(_)));
    assert!(matches!(reg_target("dword:ff"), RegTarget::Dword(255)));
    assert!(matches!(reg_target("\"x\""), RegTarget::Str(ref s) if s == "x"));
    assert!(matches!(reg_target("-"), RegTarget::Absent));
    assert!(matches!(reg_target("hex:00"), RegTarget::Never));
    assert!(reg_matches(&RegTarget::Dword(1), Some(1), None, true));
    assert!(!reg_matches(&RegTarget::Str("x".to_string()), None, None, true));
    assert!(reg_matches(&RegTarget::Absent, None, None, false));
    assert!(check_without_key("-", false));
    assert!(!check_without_key("-", true));
    let r = registry_batch_result(2, &vec!["a".to_string(), "b".to_string()], 4, false);
    assert!(r.success);
    assert_eq!(r.message, "成功 2 项，失败 2 项: a, b");
    assert_eq!(registry_batch_result(3, &vec![], 3, true).message, "成功恢复 3 项优化");
}

#[test]
fn page_files() {
    assert_eq!(parse_pagefile_line("C:\\pagefile.sys 1024 4096"), Some(("C:\\pagefile.sys".to_string(), 1024, 4096)));
    assert_eq!(parse_pagefile_line("C:\\pagefile.sys 0"), None);
    assert_eq!(parse_pagefile_line("C:\\pagefile.sys a 1"), None);
    let r = recommend_pagefile(4096, 100);
    assert_eq!((r.suggested_initial_mb, r.suggested_max_mb, r.verdict.as_str()), (6144, 12288, "low"));
    assert_eq!(r.message, "当前页面文件偏少，建议初始 6144 MB、最大 12288 MB");
    let big = recommend_pagefile(65536, 40000);
    assert_eq!((big.suggested_initial_mb, big.suggested_max_mb, big.verdict.as_str()), (32768, 65536, "ok"));
    assert_eq!(recommend_pagefile(500, 100_000).verdict, "high");
    let lines = vec!["c:\\pagefile.sys 0 0".to_string(), "D:\\pagefile.sys 100 200".to_string()];
    let c = pagefile_drive_status(&lines, "C:");
    assert_eq!((c.mode.as_str(), c.path.as_str()), ("system", "c:\\pagefile.sys"));
    assert_eq!(pagefile_drive_status(&lines, "D:").mode, "custom");
    let e = pagefile_drive_status(&lines, "E:");
    assert_eq!((e.mode.as_str(), e.path.as_str()), ("none", "E:\\pagefile.sys"));
}

#[test]
fn page_file_requests() {
    assert_eq!(validate_pagefile_request(&vec![], 8192).err(), Some("缺少磁盘条目".to_string()));
    assert_eq!(
        validate_pagefile_request(&vec![drive("C:\\pagefile.sys", "C:", "custom", 0, 10)], 8192).err(),
        Some("C:\\pagefile.sys 的初始大小必须大于 0".to_string())
    );
    assert_eq!(
        validate_pagefile_request(&vec![drive("C:\\pagefile.sys", "C:", "custom", 10, 40000)], 8192).err(),
        Some("C:\\pagefile.sys 的最大大小过大（上限为物理内存的 4 倍 = 32768 MB）".to_string())
    );
    assert_eq!(
        validate_pagefile_request(&vec![drive("C:\\p", "C:", "auto", 0, 0)], 8192).err(),
        Some("未知模式: auto".to_string())
    );
    assert!(validate_pagefile_request(&vec![drive("C:\\p", "C:", "none", 0, 0)], 8192).is_ok());
    let existing = vec!["c:\\pagefile.sys 0 0".to_string(), "D:\\pagefile.sys 100 200".to_string(), "bad".to_string()];
    let merged = merge_pagefiles(&existing, &vec![drive("C:\\pagefile.sys", "c:", "custom", 512, 1024)]);
    assert_eq!(
        merged,
        vec!["D:\\pagefile.sys 100 200".to_string(), "bad".to_string(), "C:\\pagefile.sys 512 1024".to_string()]
    );
    let odd = merge_pagefiles(
        &vec!["?:\\pagefile.sys".to_string(), "  ".to_string(), "E:\\pagefile.sys 1 2".to_string()],
        &vec![drive("E:\\pagefile.sys", "e:", "none", 0, 0)],
    );
    assert_eq!(odd, vec!["?:\\pagefile.sys".to_string()]);
    let none = merge_pagefiles(&vec!["C:\\pagefile.sys 0 0".to_string()], &vec![drive("C:\\pagefile.sys", "C:", "none", 0, 0)]);
    assert_eq!(none, vec![String::new()]);
}

#[test]
fn reg_file_bytes_are_decoded_by_their_mark() {
    assert_eq!(nexbox::optimization::decode_reg_bytes(&vec![0xFF, 0xFE, 0x41, 0x00, 0x2D, 0x4E, 0x7A]), "A中");
    assert_eq!(nexbox::optimization::decode_reg_bytes(&vec![0xEF, 0xBB, 0xBF, b'x']), "x");
    assert_eq!(nexbox::optimization::decode_reg_bytes(&b"plain".to_vec()), "plain");
    assert_eq!(nexbox::optimization::decode_reg_bytes(&vec![0xFF]), "\u{FFFD}");
}

#[test]
fn page_file_size_is_the_commit_limit_beyond_memory() {
    let s = pagefile_status(8192, 20480, vec![]);
    assert_eq!(s.pagefile_size_mb, 12288);
    assert_eq!(s.recommendation.verdict, "ok");
    let none = pagefile_status(8192, 4096, vec![]);
    assert_eq!(none.pagefile_size_mb, 0);
    assert_eq!(none.recommendation.verdict, "low");
}
