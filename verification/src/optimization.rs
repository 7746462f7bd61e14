//! The decisions of the system tweaks: which processes are protected or
//! belong to the anti-cheat, how power plans are read from `powercfg`, what a
//! `.reg` file asks of the registry, and how page files are judged and merged.

use vstd::prelude::*;
use crate::text::{
    chars_of, string_from_chars, str_to_string, append_str, append_vec, trim, trim_vec, has_prefix,
    has_suffix, has_sub, starts_with, ends_with, contains_sub, contains_char, slice_vec, str_eq,
    str_is_empty, str_to_lowercase, spec_to_lowercase, str_to_uppercase, spec_to_uppercase,
    strip_all_end, strip_all_start, strip_all_end_vec, strip_all_start_vec, split_when, split_vec,
    SepKind, views, decimal, push_decimal, replace_all, replace_str, is_ws, is_hex_digit,
    parse_u64, parse_u64_spec, join_sep, strs, join_strings, concat2, concat3,
};
use crate::music_api::key_views;

verus! {

// ───────────────────────── processes ─────────────────────────

/// The system processes whose working set is never trimmed, by lower-case
/// name without `.exe` (the mixed-case entries never match such a name).
pub open spec fn protected_names() -> Seq<Seq<char>> {
    seq![
        "system"@, "registry"@, "memory compression"@, "smss"@, "csrss"@, "wininit"@, "winlogon"@,
        "services"@, "lsass"@, "fontdrvhost"@, "dwm"@, "explorer"@, "svchost"@, "dllhost"@,
        "conhost"@, "sihost"@, "taskhostw"@, "ctfmon"@, "SearchIndexer"@, "MsMpEng"@, "NisSrv"@,
        "WmiPrvSE"@, "SecurityHealthService"@, "RuntimeBroker"@, "ShellExperienceHost"@,
        "StartMenuExperienceHost"@, "TextInputHost"@, "backgroundTaskHost"@,
    ]
}

/// `s` without every trailing `suffix` (`trim_end_matches` with a text).
pub open spec fn strip_suffixes(s: Seq<char>, suffix: Seq<char>) -> Seq<char>
    decreases s.len(),
{
    if suffix.len() > 0 && has_suffix(s, suffix) {
        strip_suffixes(s.subrange(0, s.len() - suffix.len()), suffix)
    } else {
        s
    }
}

fn strip_suffixes_exec(s: &Vec<char>, suffix: &Vec<char>) -> (r: Vec<char>)
    ensures
        r@ == strip_suffixes(s@, suffix@),
    decreases s@.len(),
{
    if suffix.len() > 0 && ends_with(s, suffix) {
        let cut = slice_vec(s, 0, s.len() - suffix.len());
        strip_suffixes_exec(&cut, suffix)
    } else {
        let mut r: Vec<char> = Vec::new();
        append_vec(&mut r, s);
        assert(r@ =~= s@);
        r
    }
}

/// The name under which a process is checked against the protected list.
pub open spec fn process_key(name: Seq<char>) -> Seq<char> {
    spec_to_lowercase(trim(strip_suffixes(name, ".exe"@)))
}

/// Whether a process is a protected system process.
pub fn is_protected_process_name(name: &str) -> (b: bool)
    ensures
        b == protected_names().contains(process_key(name@)),
{
    let v = chars_of(name);
    let stripped = strip_suffixes_exec(&v, &chars_of(".exe"));
    let t = string_from_chars(&trim_vec(&stripped));
    let key = str_to_lowercase(t.as_str());
    let list: [&str; 28] = [
        "system", "registry", "memory compression", "smss", "csrss", "wininit", "winlogon",
        "services", "lsass", "fontdrvhost", "dwm", "explorer", "svchost", "dllhost", "conhost",
        "sihost", "taskhostw", "ctfmon", "SearchIndexer", "MsMpEng", "NisSrv", "WmiPrvSE",
        "SecurityHealthService", "RuntimeBroker", "ShellExperienceHost",
        "StartMenuExperienceHost", "TextInputHost", "backgroundTaskHost",
    ];
    let ghost kv = key_views(list@);
    assert(kv =~= protected_names());
    let mut i: usize = 0;
    while i < 28
        invariant
            i <= 28,
            list@.len() == 28,
            kv == key_views(list@),
            kv == protected_names(),
            key@ == process_key(name@),
            forall|j: int| 0 <= j < i ==> kv[j] != key@,
        decreases 28 - i,
    {
        assert(kv[i as int] == list@[i as int]@);
        if str_eq(key.as_str(), list[i]) {
            return true;
        }
        i = i + 1;
    }
    false
}

/// The processes of the ACE anti-cheat.
pub open spec fn ace_names() -> Seq<Seq<char>> {
    seq![
        "ACE-Tray.exe"@, "ACE-BASE.exe"@, "ACE-GAME.exe"@, "ACE-Client.exe"@, "SGuard64.exe"@,
        "SGuardSvc64.exe"@, "SGuardLite64.exe"@, "SGuardLite.exe"@, "SGuardSvc.exe"@,
    ]
}

/// A process of the ACE anti-cheat: its name, lower-cased, is one of theirs lower-cased.
pub open spec fn is_ace_spec(name: Seq<char>) -> bool {
    exists|i: int| 0 <= i < 9 && spec_to_lowercase(#[trigger] ace_names()[i]) == spec_to_lowercase(name)
}

/// Whether a process belongs to the ACE anti-cheat.
pub fn is_ace_process(name: &str) -> (b: bool)
    ensures
        b == is_ace_spec(name@),
{
    let lower = str_to_lowercase(name);
    let list: [&str; 9] = [
        "ACE-Tray.exe", "ACE-BASE.exe", "ACE-GAME.exe", "ACE-Client.exe", "SGuard64.exe",
        "SGuardSvc64.exe", "SGuardLite64.exe", "SGuardLite.exe", "SGuardSvc.exe",
    ];
    let ghost kv = key_views(list@);
    assert(kv =~= ace_names());
    let mut i: usize = 0;
    while i < 9
        invariant
            i <= 9,
            list@.len() == 9,
            kv == key_views(list@),
            kv == ace_names(),
            lower@ == spec_to_lowercase(name@),
            forall|j: int| 0 <= j < i ==> spec_to_lowercase(#[trigger] ace_names()[j]) != spec_to_lowercase(name@),
        decreases 9 - i,
    {
        assert(kv[i as int] == list@[i as int]@);
        let l = str_to_lowercase(list[i]);
        if str_eq(l.as_str(), lower.as_str()) {
            return true;
        }
        i = i + 1;
    }
    false
}

/// The message of an ACE tweak that found `found` processes and changed
/// `count` of them; `ok_template` names the change, with `{}` for the count.
pub open spec fn ace_message_spec(found: u32, count: u32, ok_template: Seq<char>) -> Seq<char> {
    let ok = replace_all(ok_template, "{}"@, decimal(count as nat));
    if found == 0 {
        "未找到运行中的 ACE 进程"@
    } else if count == 0 {
        "发现 "@ + decimal(found as nat) + " 个 ACE 进程，但无法修改（ACE 反作弊保护了这些进程）"@
    } else if count < found {
        ok + "（另有 "@ + decimal((found - count) as nat) + " 个受 ACE 反作弊保护无法修改）"@
    } else {
        ok
    }
}

/// The message of an ACE tweak (see `ace_message_spec`).
pub fn ace_message(found: u32, count: u32, ok_template: &str) -> (r: String)
    ensures
        r@ == ace_message_spec(found, count, ok_template@),
{
    proof {
        reveal_strlit("{}");
    }
    if found == 0 {
        return str_to_string("未找到运行中的 ACE 进程");
    }
    if count == 0 {
        let mut v = chars_of("发现 ");
        push_decimal(&mut v, found as u64);
        append_str(&mut v, " 个 ACE 进程，但无法修改（ACE 反作弊保护了这些进程）");
        return string_from_chars(&v);
    }
    let mut n: Vec<char> = Vec::new();
    push_decimal(&mut n, count as u64);
    let ns = string_from_chars(&n);
    let ok = replace_str(ok_template, "{}", ns.as_str());
    if count < found {
        let mut v = chars_of(ok.as_str());
        append_str(&mut v, "（另有 ");
        push_decimal(&mut v, (found - count) as u64);
        append_str(&mut v, " 个受 ACE 反作弊保护无法修改）");
        return string_from_chars(&v);
    }
    ok
}

/// The registry key of a process's `PerfOptions`.
pub fn ifeo_perf_options_path(process_name: &str) -> (r: String)
    ensures
        r@ == "SOFTWARE\\Microsoft\\Windows NT\\CurrentVersion\\Image File Execution Options\\"@ + process_name@
            + "\\PerfOptions"@,
{
    concat3(
        "SOFTWARE\\Microsoft\\Windows NT\\CurrentVersion\\Image File Execution Options\\",
        process_name,
        "\\PerfOptions",
    )
}

/// The `PerfOptions` set for the game and its anti-cheat: the CPU priority
/// class and the I/O priority of each.
pub fn ace_ifeo_perf() -> (r: Vec<(&'static str, u32, u32)>)
    ensures
        r@.len() == 3,
        r@[0].0@ == "DeltaForceClient-Win64-Shipping.exe"@ && r@[0].1 == 3 && r@[0].2 == 3,
        r@[1].0@ == "SGuard64.exe"@ && r@[1].1 == 1 && r@[1].2 == 1,
        r@[2].0@ == "SGuardSvc64.exe"@ && r@[2].1 == 1 && r@[2].2 == 1,
{
    vec![
        ("DeltaForceClient-Win64-Shipping.exe", 3u32, 3u32),
        ("SGuard64.exe", 1u32, 1u32),
        ("SGuardSvc64.exe", 1u32, 1u32),
    ]
}

/// Megabytes of a number of 4 KiB memory pages (wrapping as `u64` does).
pub fn pages_to_mb(pages: usize) -> (r: u64)
    ensures
        r as int == ((pages as int * 4096) % 0x1_0000_0000_0000_0000) / 1024 / 1024,
{
    let bytes = (pages as u64).wrapping_mul(4096);
    bytes / 1024 / 1024
}

/// The memory lists cleaned when nothing else was chosen.
pub fn default_memory_clean_items() -> (r: Vec<String>)
    ensures
        crate::text::strs(r@) == seq!["standby"@, "file_cache"@, "low_pri_standby"@],
{
    let r = vec![str_to_string("standby"), str_to_string("file_cache"), str_to_string("low_pri_standby")];
    assert(crate::text::strs(r@) =~= seq!["standby"@, "file_cache"@, "low_pri_standby"@]);
    r
}

// ───────────────────────── power plans ─────────────────────────

/// A power plan as `powercfg /list` shows it.
pub struct PowerPlan {
    pub guid: String,
    pub name: String,
    pub active: bool,
}

/// The views of a list of power plans.
pub open spec fn plan_views(v: Seq<PowerPlan>) -> Seq<(Seq<char>, Seq<char>, bool)> {
    Seq::new(v.len(), |i: int| (v[i].guid@, v[i].name@, v[i].active))
}

/// Splits at `-`.
pub open spec fn dash_sep() -> spec_fn(char) -> bool {
    |c: char| c == '-'
}

/// Splits at whitespace.
pub open spec fn ws_sep() -> spec_fn(char) -> bool {
    |c: char| is_ws(c)
}

/// Splits at a line break.
pub open spec fn line_sep() -> spec_fn(char) -> bool {
    |c: char| c == '\n'
}

/// A GUID in its usual form: five groups of hexadecimal digits of 8, 4, 4, 4
/// and 12, joined by `-`.
pub open spec fn is_guid(part: Seq<char>) -> bool {
    let segs = split_when(part, dash_sep());
    &&& segs.len() == 5
    &&& segs[0].len() == 8 && segs[1].len() == 4 && segs[2].len() == 4 && segs[3].len() == 4 && segs[4].len() == 12
    &&& forall|i: int, j: int| 0 <= i < 5 && 0 <= j < segs[i].len() ==> is_hex_digit(#[trigger] segs[i][j])
}

/// The first word that is a GUID.
pub open spec fn first_guid(words: Seq<Seq<char>>) -> Option<Seq<char>>
    decreases words.len(),
{
    if words.len() == 0 {
        None
    } else if is_guid(words[0]) {
        Some(words[0])
    } else {
        first_guid(words.drop_first())
    }
}

/// The first whitespace-separated word of a line that is a GUID.
pub open spec fn guid_in_line(line: Seq<char>) -> Option<Seq<char>> {
    first_guid(split_when(line, ws_sep()))
}

fn all_hex(s: &Vec<char>) -> (b: bool)
    ensures
        b == forall|j: int| 0 <= j < s@.len() ==> is_hex_digit(#[trigger] s@[j]),
{
    let mut i: usize = 0;
    while i < s.len()
        invariant
            i <= s@.len(),
            forall|j: int| 0 <= j < i ==> is_hex_digit(#[trigger] s@[j]),
        decreases s.len() - i,
    {
        let c = s[i];
        if !(('0' <= c && c <= '9') || ('a' <= c && c <= 'f') || ('A' <= c && c <= 'F')) {
            assert(!is_hex_digit(s@[i as int]));
            return false;
        }
        i = i + 1;
    }
    true
}

fn is_guid_exec(part: &Vec<char>) -> (b: bool)
    ensures
        b == is_guid(part@),
{
    let kind = SepKind::AnyOf(vec!['-']);
    let segs = split_vec(part, &kind);
    assert(kind.pred() =~= dash_sep()) by {
        assert forall|c: char| #[trigger] kind.pred()(c) == dash_sep()(c) by {
            assert(seq!['-'].contains(c) == (c == '-')) by {
                if c == '-' {
                    assert(seq!['-'][0] == c);
                }
            }
        }
    }
    let ghost sv = views(segs@);
    assert(sv == split_when(part@, dash_sep()));
    if segs.len() != 5 {
        return false;
    }
    assert(sv[0] == segs@[0]@ && sv[1] == segs@[1]@ && sv[2] == segs@[2]@ && sv[3] == segs@[3]@ && sv[4] == segs@[4]@);
    if segs[0].len() != 8 || segs[1].len() != 4 || segs[2].len() != 4 || segs[3].len() != 4 || segs[4].len() != 12 {
        assert(sv[0] == segs@[0]@ && sv[1] == segs@[1]@ && sv[2] == segs@[2]@ && sv[3] == segs@[3]@ && sv[4] == segs@[4]@);
        return false;
    }
    let mut i: usize = 0;
    while i < 5
        invariant
            i <= 5,
            segs@.len() == 5,
            sv == views(segs@),
            sv == split_when(part@, dash_sep()),
            sv[0].len() == 8 && sv[1].len() == 4 && sv[2].len() == 4 && sv[3].len() == 4 && sv[4].len() == 12,
            forall|k: int, j: int| 0 <= k < i && 0 <= j < sv[k].len() ==> is_hex_digit(#[trigger] sv[k][j]),
        decreases 5 - i,
    {
        assert(sv[i as int] == segs@[i as int]@);
        if !all_hex(&segs[i]) {
            assert(exists|j: int| 0 <= j < sv[i as int].len() && !is_hex_digit(#[trigger] sv[i as int][j]));
            return false;
        }
        i = i + 1;
    }
    true
}

/// The first GUID of a line (`extract_guid_from_line`).
pub fn extract_guid_from_line(line: &str) -> (r: Option<String>)
    ensures
        crate::music_api::models::ov(r) == guid_in_line(line@),
{
    let v = chars_of(line);
    let words = split_vec(&v, &SepKind::Whitespace);
    let ghost wv = views(words@);
    assert(SepKind::Whitespace.pred() =~= ws_sep());
    assert(wv == split_when(line@, ws_sep()));
    let n = words.len();
    let mut i: usize = 0;
    assert(wv.subrange(0, n as int) =~= wv);
    while i < n
        invariant
            n == words@.len(),
            i <= n,
            wv == views(words@),
            wv == split_when(line@, ws_sep()),
            first_guid(wv) == first_guid(wv.subrange(i as int, n as int)),
        decreases n - i,
    {
        let ghost sub = wv.subrange(i as int, n as int);
        assert(sub[0] == words@[i as int]@);
        assert(sub.drop_first() =~= wv.subrange(i + 1, n as int));
        if is_guid_exec(&words[i]) {
            return Some(string_from_chars(&words[i]));
        }
        i = i + 1;
    }
    None
}

/// The name after the GUID on a plan line: the rest of the line after the
/// GUID's first occurrence, without its brackets, stars and spaces.
pub open spec fn plan_name_spec(after: Seq<char>) -> Seq<char> {
    trim(strip_all_end(trim(strip_all_end(strip_all_start(trim(after), '('), ')')), '*'))
}

/// What follows the first occurrence of `guid` in `line`.
pub open spec fn after_first(line: Seq<char>, guid: Seq<char>) -> Seq<char> {
    if has_sub(line, guid) {
        let p = choose|p: int| crate::text::occurs_at(line, guid, p) && forall|q: int| 0 <= q < p ==> !crate::text::occurs_at(line, guid, q);
        line.subrange(p + guid.len(), line.len() as int)
    } else {
        Seq::empty()
    }
}

/// The plan a line of `powercfg /list` stands for, if it names one.
pub open spec fn plan_line_spec(raw: Seq<char>) -> Option<(Seq<char>, Seq<char>, bool)> {
    let t = trim(raw);
    if t.len() == 0 {
        None
    } else {
        match guid_in_line(t) {
            Some(g) => Some((g, plan_name_spec(after_first(t, g)), t.contains('*'))),
            None => None,
        }
    }
}

/// The plans of `powercfg /list` output, line by line.
pub open spec fn plans_spec(lines: Seq<Seq<char>>) -> Seq<(Seq<char>, Seq<char>, bool)>
    decreases lines.len(),
{
    if lines.len() == 0 {
        Seq::empty()
    } else {
        let prev = plans_spec(lines.drop_last());
        match plan_line_spec(lines.last()) {
            Some(p) => prev.push(p),
            None => prev,
        }
    }
}

proof fn lemma_first_occurrence_unique(s: Seq<char>, p: Seq<char>, a: int, b: int)
    requires
        crate::text::occurs_at(s, p, a),
        forall|q: int| 0 <= q < a ==> !crate::text::occurs_at(s, p, q),
        crate::text::occurs_at(s, p, b),
        forall|q: int| 0 <= q < b ==> !crate::text::occurs_at(s, p, q),
    ensures
        a == b,
{
}

fn after_first_exec(line: &Vec<char>, guid: &Vec<char>) -> (r: Vec<char>)
    ensures
        r@ == after_first(line@, guid@),
{
    match crate::text::find_sub(line, guid) {
        Some(p) => {
            proof {
                assert(crate::text::occurs_at(line@, guid@, p as int));
                let p2 = choose|p: int| crate::text::occurs_at(line@, guid@, p) && forall|q: int| 0 <= q < p ==> !crate::text::occurs_at(line@, guid@, q);
                lemma_first_occurrence_unique(line@, guid@, p as int, p2);
            }
            let l = line.len();
            let g = guid.len();
            slice_vec(line, p + g, l)
        },
        None => Vec::new(),
    }
}

fn plan_name_exec(after: &Vec<char>) -> (r: Vec<char>)
    ensures
        r@ == plan_name_spec(after@),
{
    let a = trim_vec(after);
    let b = strip_all_start_vec(&a, '(');
    let c = strip_all_end_vec(&b, ')');
    let d = trim_vec(&c);
    let e = strip_all_end_vec(&d, '*');
    trim_vec(&e)
}

fn plan_of_line(line: &Vec<char>) -> (r: Option<PowerPlan>)
    ensures
        match r {
            Some(p) => plan_line_spec(line@) == Some((p.guid@, p.name@, p.active)),
            None => plan_line_spec(line@) is None,
        },
{
    let t = trim_vec(line);
    if t.len() == 0 {
        return None;
    }
    let ts = string_from_chars(&t);
    match extract_guid_from_line(ts.as_str()) {
        Some(g) => {
            let gv = chars_of(g.as_str());
            let after = after_first_exec(&t, &gv);
            let name = plan_name_exec(&after);
            let active = contains_char(&t, '*');
            Some(PowerPlan { guid: g, name: string_from_chars(&name), active })
        },
        None => None,
    }
}

/// The plans of `powercfg /list` output.
pub fn parse_powercfg_list(output: &str) -> (r: Vec<PowerPlan>)
    ensures
        plan_views(r@) == plans_spec(split_when(output@, line_sep())),
{
    let v = chars_of(output);
    let kind = SepKind::AnyOf(vec!['\n']);
    let lines = split_vec(&v, &kind);
    assert(kind.pred() =~= line_sep()) by {
        assert forall|c: char| #[trigger] kind.pred()(c) == line_sep()(c) by {
            if c == '\n' {
                assert(seq!['\n'][0] == c);
            }
        }
    }
    let ghost lv = views(lines@);
    let mut out: Vec<PowerPlan> = Vec::new();
    let mut i: usize = 0;
    while i < lines.len()
        invariant
            i <= lines@.len(),
            lv == views(lines@),
            plan_views(out@) == plans_spec(lv.subrange(0, i as int)),
        decreases lines.len() - i,
    {
        let ghost pre = lv.subrange(0, i + 1);
        assert(pre.drop_last() =~= lv.subrange(0, i as int));
        assert(pre.last() == lines@[i as int]@);
        match plan_of_line(&lines[i]) {
            Some(plan) => {
                let ghost before = plan_views(out@);
                out.push(plan);
                assert(plan_views(out@) =~= before.push((plan.guid@, plan.name@, plan.active)));
            },
            None => {},
        }
        i = i + 1;
    }
    assert(lv.subrange(0, lv.len() as int) =~= lv);
    out
}

/// The active plan of `powercfg /getactivescheme` output: its GUID and its
/// name without brackets.
pub open spec fn active_plan_spec(output: Seq<char>) -> Option<(Seq<char>, Seq<char>)> {
    let t = trim(output);
    match guid_in_line(t) {
        Some(g) => Some((g, trim(strip_all_end(strip_all_start(trim(after_first(t, g)), '('), ')')))),
        None => None,
    }
}

/// The active plan of `powercfg /getactivescheme` output.
pub fn parse_active_plan(output: &str) -> (r: Option<(String, String)>)
    ensures
        match r {
            Some(p) => active_plan_spec(output@) == Some((p.0@, p.1@)),
            None => active_plan_spec(output@) is None,
        },
{
    let t = trim_vec(&chars_of(output));
    let ts = string_from_chars(&t);
    match extract_guid_from_line(ts.as_str()) {
        Some(g) => {
            let gv = chars_of(g.as_str());
            let after = after_first_exec(&t, &gv);
            let a = trim_vec(&after);
            let b = strip_all_start_vec(&a, '(');
            let c = strip_all_end_vec(&b, ')');
            let name = trim_vec(&c);
            Some((g, string_from_chars(&name)))
        },
        None => None,
    }
}

/// A plan name that names one of the keywords, in any case.
pub open spec fn names_any(name: Seq<char>, kws: Seq<Seq<char>>) -> bool {
    exists|k: int| 0 <= k < kws.len() && has_sub(spec_to_lowercase(name), spec_to_lowercase(#[trigger] kws[k]))
}

/// The first plan whose name names one of the keywords.
pub open spec fn first_named(plans: Seq<(Seq<char>, Seq<char>, bool)>, kws: Seq<Seq<char>>) -> Option<Seq<char>>
    decreases plans.len(),
{
    if plans.len() == 0 {
        None
    } else if names_any(plans[0].1, kws) {
        Some(plans[0].0)
    } else {
        first_named(plans.drop_first(), kws)
    }
}

/// The high performance plan: the first named Ultimate Performance, else the
/// first named High performance.
pub open spec fn high_perf_spec(plans: Seq<(Seq<char>, Seq<char>, bool)>) -> Option<Seq<char>> {
    match first_named(plans, seq!["卓越性能"@, "Ultimate Performance"@]) {
        Some(g) => Some(g),
        None => first_named(plans, seq!["高性能"@, "High performance"@, "Ultimate"@]),
    }
}

fn names_any_exec(name: &String, kws: &[&str]) -> (b: bool)
    ensures
        b == names_any(name@, key_views(kws@)),
{
    let lower = str_to_lowercase(name.as_str());
    let lv = chars_of(lower.as_str());
    let ghost kv = key_views(kws@);
    let mut k: usize = 0;
    while k < kws.len()
        invariant
            k <= kws@.len(),
            kv == key_views(kws@),
            lv@ == spec_to_lowercase(name@),
            forall|j: int| 0 <= j < k ==> !has_sub(spec_to_lowercase(name@), spec_to_lowercase(#[trigger] kv[j])),
        decreases kws.len() - k,
    {
        assert(kv[k as int] == kws@[k as int]@);
        let kl = str_to_lowercase(kws[k]);
        if contains_sub(&lv, &chars_of(kl.as_str())) {
            return true;
        }
        k = k + 1;
    }
    false
}

fn first_named_exec(plans: &Vec<PowerPlan>, kws: &[&str]) -> (r: Option<String>)
    ensures
        crate::music_api::models::ov(r) == first_named(plan_views(plans@), key_views(kws@)),
{
    let ghost pv = plan_views(plans@);
    let n = plans.len();
    let mut i: usize = 0;
    assert(pv.subrange(0, n as int) =~= pv);
    while i < n
        invariant
            n == plans@.len(),
            i <= n,
            pv == plan_views(plans@),
            first_named(pv, key_views(kws@)) == first_named(pv.subrange(i as int, n as int), key_views(kws@)),
        decreases n - i,
    {
        let ghost sub = pv.subrange(i as int, n as int);
        assert(sub[0] == (plans@[i as int].guid@, plans@[i as int].name@, plans@[i as int].active));
        assert(sub.drop_first() =~= pv.subrange(i + 1, n as int));
        if names_any_exec(&plans[i].name, kws) {
            return Some(plans[i].guid.clone());
        }
        i = i + 1;
    }
    None
}

/// The high performance plan among the system's plans (see `high_perf_spec`).
pub fn find_high_performance_guid(plans: &Vec<PowerPlan>) -> (r: Option<String>)
    ensures
        crate::music_api::models::ov(r) == high_perf_spec(plan_views(plans@)),
{
    let first: [&str; 2] = ["卓越性能", "Ultimate Performance"];
    let second: [&str; 3] = ["高性能", "High performance", "Ultimate"];
    assert(key_views(first@) =~= seq!["卓越性能"@, "Ultimate Performance"@]);
    assert(key_views(second@) =~= seq!["高性能"@, "High performance"@, "Ultimate"@]);
    match first_named_exec(plans, &first) {
        Some(g) => Some(g),
        None => first_named_exec(plans, &second),
    }
}

/// A system plan that an imported plan became: its name names the plan, or
/// its name without a trailing bracketed note names it or is named by it.
pub open spec fn plan_matches(name: Seq<char>, plan_name: Seq<char>) -> bool {
    has_sub(name, plan_name) || (name.contains('(') && {
        let pos = choose|p: int| 0 <= p < name.len() && name[p] == '(' && forall|q: int| p < q < name.len() ==> name[q] != '(';
        let base = trim(name.subrange(0, pos));
        has_sub(base, plan_name) || has_sub(plan_name, base)
    })
}

/// The first plan that matches (see `plan_matches`).
pub open spec fn plan_by_name_spec(plans: Seq<(Seq<char>, Seq<char>, bool)>, plan_name: Seq<char>) -> Option<Seq<char>>
    decreases plans.len(),
{
    if plans.len() == 0 {
        None
    } else if plan_matches(plans[0].1, plan_name) {
        Some(plans[0].0)
    } else {
        plan_by_name_spec(plans.drop_first(), plan_name)
    }
}

fn last_open_paren(name: &Vec<char>) -> (r: Option<usize>)
    ensures
        match r {
            Some(p) => p < name@.len() && name@[p as int] == '(' && forall|q: int| p < q < name@.len() ==> name@[q] != '(',
            None => !name@.contains('('),
        },
{
    let mut i: usize = name.len();
    while i > 0
        invariant
            i <= name@.len(),
            forall|q: int| i <= q < name@.len() ==> name@[q] != '(',
        decreases i,
    {
        if name[i - 1] == '(' {
            return Some(i - 1);
        }
        i = i - 1;
    }
    None
}

fn plan_matches_exec(name: &String, plan_name: &str) -> (b: bool)
    ensures
        b == plan_matches(name@, plan_name@),
{
    let nv = chars_of(name.as_str());
    let pv = chars_of(plan_name);
    if contains_sub(&nv, &pv) {
        return true;
    }
    match last_open_paren(&nv) {
        Some(pos) => {
            proof {
                let p2 = choose|p: int| 0 <= p < nv@.len() && nv@[p] == '(' && forall|q: int| p < q < nv@.len() ==> nv@[q] != '(';
                assert(nv@[pos as int] == '(');
                assert(nv@.contains('('));
                if p2 < pos {
                } else if p2 > pos {
                }
                assert(p2 == pos);
            }
            let base = trim_vec(&slice_vec(&nv, 0, pos));
            contains_sub(&base, &pv) || contains_sub(&pv, &base)
        },
        None => false,
    }
}

/// The GUID under which an imported plan shows among the system's plans.
pub fn find_plan_guid_by_name(plans: &Vec<PowerPlan>, plan_name: &str) -> (r: Option<String>)
    ensures
        crate::music_api::models::ov(r) == plan_by_name_spec(plan_views(plans@), plan_name@),
{
    let ghost pv = plan_views(plans@);
    let n = plans.len();
    let mut i: usize = 0;
    assert(pv.subrange(0, n as int) =~= pv);
    while i < n
        invariant
            n == plans@.len(),
            i <= n,
            pv == plan_views(plans@),
            plan_by_name_spec(pv, plan_name@) == plan_by_name_spec(pv.subrange(i as int, n as int), plan_name@),
        decreases n - i,
    {
        let ghost sub = pv.subrange(i as int, n as int);
        assert(sub[0] == (plans@[i as int].guid@, plans@[i as int].name@, plans@[i as int].active));
        assert(sub.drop_first() =~= pv.subrange(i + 1, n as int));
        if plan_matches_exec(&plans[i].name, plan_name) {
            return Some(plans[i].guid.clone());
        }
        i = i + 1;
    }
    None
}

/// The file of a built-in power plan.
pub fn get_builtin_plan_filename(id: &str) -> (r: String)
    ensures
        r@ == if id@ == "ggOSDesktopGaming"@ { "ggOS Desktop Gaming.pow"@ } else { id@ + ".pow"@ },
{
    if str_eq(id, "ggOSDesktopGaming") {
        str_to_string("ggOS Desktop Gaming.pow")
    } else {
        concat2(id, ".pow")
    }
}

/// The name and description of a built-in power plan.
pub open spec fn plan_metadata_spec(id: Seq<char>) -> (Seq<char>, Seq<char>) {
    if id == "ACMEPCAMD"@ {
        ("ACMEPCAMD"@, "AMD平台极致性能优化，最大化CPU/GPU频率与响应"@)
    } else if id == "AMD电源计划"@ {
        ("AMD电源计划"@, "AMD官方推荐高性能电源方案，适合Ryzen平台"@)
    } else if id == "ggOSDesktopGaming"@ {
        ("ggOS Desktop Gaming"@, "桌面游戏场景深度优化，降低延迟提升帧率"@)
    } else if id == "Intel大核心电源计划"@ {
        ("Intel大核心电源计划"@, "Intel大小核调度优化，优先使用大核心运行游戏"@)
    } else if id == "PowerX-v2"@ {
        ("PowerX v2"@, "极致性能电源方案，最大化系统响应与游戏帧率"@)
    } else if id == "卓越性能"@ {
        ("卓越性能"@, "Windows 卓越性能电源计划，解锁最高性能模式"@)
    } else {
        (id, Seq::empty())
    }
}

/// The name and description of a built-in power plan.
pub fn get_builtin_plan_metadata(id: &str) -> (r: (String, String))
    ensures
        (r.0@, r.1@) == plan_metadata_spec(id@),
{
    if str_eq(id, "ACMEPCAMD") {
        (str_to_string("ACMEPCAMD"), str_to_string("AMD平台极致性能优化，最大化CPU/GPU频率与响应"))
    } else if str_eq(id, "AMD电源计划") {
        (str_to_string("AMD电源计划"), str_to_string("AMD官方推荐高性能电源方案，适合Ryzen平台"))
    } else if str_eq(id, "ggOSDesktopGaming") {
        (str_to_string("ggOS Desktop Gaming"), str_to_string("桌面游戏场景深度优化，降低延迟提升帧率"))
    } else if str_eq(id, "Intel大核心电源计划") {
        (str_to_string("Intel大核心电源计划"), str_to_string("Intel大小核调度优化，优先使用大核心运行游戏"))
    } else if str_eq(id, "PowerX-v2") {
        (str_to_string("PowerX v2"), str_to_string("极致性能电源方案，最大化系统响应与游戏帧率"))
    } else if str_eq(id, "卓越性能") {
        (str_to_string("卓越性能"), str_to_string("Windows 卓越性能电源计划，解锁最高性能模式"))
    } else {
        (str_to_string(id), String::new())
    }
}

// ───────────────────────── .reg files ─────────────────────────

/// A root key of the registry.
#[derive(PartialEq, Eq, Structural, Clone, Copy)]
pub enum RegHive {
    LocalMachine,
    CurrentUser,
    ClassesRoot,
    Users,
}

/// The root key and sub-path of a `.reg` key path.
pub open spec fn reg_hive_spec(path: Seq<char>) -> Option<(RegHive, Seq<char>)> {
    if has_prefix(path, "HKEY_LOCAL_MACHINE\\"@) {
        Some((RegHive::LocalMachine, path.subrange(19, path.len() as int)))
    } else if has_prefix(path, "HKEY_CURRENT_USER\\"@) {
        Some((RegHive::CurrentUser, path.subrange(18, path.len() as int)))
    } else if has_prefix(path, "HKEY_CLASSES_ROOT\\"@) {
        Some((RegHive::ClassesRoot, path.subrange(18, path.len() as int)))
    } else if has_prefix(path, "HKEY_USERS\\"@) {
        Some((RegHive::Users, path.subrange(11, path.len() as int)))
    } else {
        None
    }
}

/// Splits a `.reg` key path into its root key and sub-path; an error for an
/// unsupported root.
pub fn parse_reg_hive(path: &str) -> (r: Result<(RegHive, String), String>)
    ensures
        match r {
            Ok((h, sub)) => reg_hive_spec(path@) == Some((h, sub@)),
            Err(e) => reg_hive_spec(path@) is None && e@ == "不支持的注册表根键: "@ + path@,
        },
{
    proof {
        reveal_strlit("HKEY_LOCAL_MACHINE\\");
        reveal_strlit("HKEY_CURRENT_USER\\");
        reveal_strlit("HKEY_CLASSES_ROOT\\");
        reveal_strlit("HKEY_USERS\\");
    }
    let v = chars_of(path);
    if starts_with(&v, &chars_of("HKEY_LOCAL_MACHINE\\")) {
        Ok((RegHive::LocalMachine, string_from_chars(&slice_vec(&v, 19, v.len()))))
    } else if starts_with(&v, &chars_of("HKEY_CURRENT_USER\\")) {
        Ok((RegHive::CurrentUser, string_from_chars(&slice_vec(&v, 18, v.len()))))
    } else if starts_with(&v, &chars_of("HKEY_CLASSES_ROOT\\")) {
        Ok((RegHive::ClassesRoot, string_from_chars(&slice_vec(&v, 18, v.len()))))
    } else if starts_with(&v, &chars_of("HKEY_USERS\\")) {
        Ok((RegHive::Users, string_from_chars(&slice_vec(&v, 11, v.len()))))
    } else {
        Err(concat2("不支持的注册表根键: ", path))
    }
}

/// The parent path and leaf name of a key's sub-path (split at its last `\`).
pub fn split_leaf(sub: &str) -> (r: (String, String))
    ensures
        !sub@.contains('\\') ==> r.0@.len() == 0 && r.1@ == sub@,
        sub@.contains('\\') ==> exists|p: int| 0 <= p < sub@.len() && sub@[p] == '\\' && (forall|q: int|
            p < q < sub@.len() ==> sub@[q] != '\\') && r.0@ == sub@.subrange(0, p) && r.1@ == sub@.subrange(
            p + 1,
            sub@.len() as int,
        ),
{
    let v = chars_of(sub);
    let mut i: usize = v.len();
    while i > 0
        invariant
            i <= v@.len(),
            v@ == sub@,
            forall|q: int| i <= q < v@.len() ==> v@[q] != '\\',
        decreases i,
    {
        if v[i - 1] == '\\' {
            let p = i - 1;
            return (string_from_chars(&slice_vec(&v, 0, p)), string_from_chars(&slice_vec(&v, p + 1, v.len())));
        }
        i = i - 1;
    }
    (String::new(), str_to_string(sub))
}

/// A `.reg` text with each `\"` turned into `"`.
pub open spec fn unescape_spec(s: Seq<char>) -> Seq<char> {
    replace_all(s, "\\\""@, "\""@)
}

/// One line of a `.reg` file, trimmed, by what it says.
pub enum RegLine {
    /// Blank, a comment or the header.
    Skip,
    /// `[path]`: the key that the next values go to.
    Key(String),
    /// `[-path]`: delete this key.
    DeleteKey(String),
    /// `@=value`: the key's default value.
    Default(String),
    /// `"name"=value`.
    Named(String, String),
    /// Anything else.
    Other,
}

/// What a `.reg` line says (see `RegLine`).
pub open spec fn reg_line_spec(raw: Seq<char>) -> RegLineView {
    let line = trim(raw);
    if line.len() == 0 || has_prefix(line, ";"@) || has_prefix(line, "Windows Registry Editor"@) {
        RegLineView::Skip
    } else if has_prefix(line, "["@) && has_suffix(line, "]"@) {
        let path = line.subrange(1, line.len() - 1);
        if has_prefix(path, "-"@) {
            RegLineView::DeleteKey(path.subrange(1, path.len() as int))
        } else {
            RegLineView::Key(path)
        }
    } else if has_prefix(line, "@="@) {
        RegLineView::Default(line.subrange(2, line.len() as int))
    } else if has_prefix(line, "\""@) {
        let rest = line.subrange(1, line.len() as int);
        if has_sub(rest, "\"="@) {
            let p = choose|p: int| crate::text::occurs_at(rest, "\"="@, p) && forall|q: int| 0 <= q < p ==> !crate::text::occurs_at(rest, "\"="@, q);
            RegLineView::Named(unescape_spec(rest.subrange(0, p)), rest.subrange(p + 2, rest.len() as int))
        } else {
            RegLineView::Other
        }
    } else {
        RegLineView::Other
    }
}

/// What a `.reg` line says, in contracts.
pub enum RegLineView {
    Skip,
    Key(Seq<char>),
    DeleteKey(Seq<char>),
    Default(Seq<char>),
    Named(Seq<char>, Seq<char>),
    Other,
}

impl RegLine {
    /// What the line says, in contracts.
    pub open spec fn view_of(self) -> RegLineView {
        match self {
            RegLine::Skip => RegLineView::Skip,
            RegLine::Key(p) => RegLineView::Key(p@),
            RegLine::DeleteKey(p) => RegLineView::DeleteKey(p@),
            RegLine::Default(v) => RegLineView::Default(v@),
            RegLine::Named(n, v) => RegLineView::Named(n@, v@),
            RegLine::Other => RegLineView::Other,
        }
    }
}

/// Reads one `.reg` line (see `reg_line_spec`).
pub fn classify_reg_line(raw: &str) -> (r: RegLine)
    ensures
        r.view_of() == reg_line_spec(raw@),
{
    proof {
        reveal_strlit(";");
        reveal_strlit("[");
        reveal_strlit("]");
        reveal_strlit("-");
        reveal_strlit("@=");
        reveal_strlit("\"");
        reveal_strlit("\"=");
        reveal_strlit("\\\"");
    }
    let line = trim_vec(&chars_of(raw));
    if line.len() == 0 || starts_with(&line, &chars_of(";")) || starts_with(&line, &chars_of("Windows Registry Editor")) {
        return RegLine::Skip;
    }
    if starts_with(&line, &chars_of("[")) && ends_with(&line, &chars_of("]")) {
        proof {
            if line@.len() == 1 {
                assert(line@.subrange(0, 1)[0] == line@[0]);
                assert(line@.subrange(0, 1) == "["@);
                assert(line@.subrange(line@.len() - 1, line@.len() as int) == "]"@);
                assert(line@.subrange(line@.len() - 1, line@.len() as int)[0] == line@[0]);
            }
        }
        let path = slice_vec(&line, 1, line.len() - 1);
        if starts_with(&path, &chars_of("-")) {
            return RegLine::DeleteKey(string_from_chars(&slice_vec(&path, 1, path.len())));
        }
        return RegLine::Key(string_from_chars(&path));
    }
    if starts_with(&line, &chars_of("@=")) {
        return RegLine::Default(string_from_chars(&slice_vec(&line, 2, line.len())));
    }
    if starts_with(&line, &chars_of("\"")) {
        let rest = slice_vec(&line, 1, line.len());
        let key = chars_of("\"=");
        match crate::text::find_sub(&rest, &key) {
            Some(p) => {
                proof {
                    assert(crate::text::occurs_at(rest@, key@, p as int));
                    assert(has_sub(rest@, key@));
                    let p2 = choose|p: int| crate::text::occurs_at(rest@, "\"="@, p) && forall|q: int| 0 <= q < p ==> !crate::text::occurs_at(rest@, "\"="@, q);
                    lemma_first_occurrence_unique(rest@, key@, p as int, p2);
                }
                let l = rest.len();
                let name_raw = string_from_chars(&slice_vec(&rest, 0, p));
                let name = replace_str(name_raw.as_str(), "\\\"", "\"");
                let value = string_from_chars(&slice_vec(&rest, p + 2, l));
                return RegLine::Named(name, value);
            },
            None => {
                return RegLine::Other;
            },
        }
    }
    RegLine::Other
}

/// What `u32::from_str_radix(text, 16)` reports for a text it cannot read, as text.
pub uninterp spec fn spec_hex_error_text(text: Seq<char>) -> Seq<char>;

/// The message of the error of `u32::from_str_radix(text, 16)` (`ParseIntError`
/// as `Display` shows it), empty where the text reads.  The contract only
/// names the result.
#[verifier::external_body]
fn hex_error_text(text: &str) -> (r: String)
    ensures
        r@ == spec_hex_error_text(text@),
{
    match u32::from_str_radix(text, 16) {
        Ok(_) => String::new(),
        Err(e) => format!("{}", e),
    }
}

/// Data written to a registry value.
pub enum RegData {
    Dword(u32),
    Str(String),
}

/// A step of applying a `.reg` file.
pub enum RegOp {
    /// Open (creating it where missing) the key that the next values go to.
    OpenKey(String),
    /// Delete a key with everything below it.
    DeleteKey(String),
    /// Write a value (the empty name is the default value).
    SetValue(String, RegData),
    /// Delete a value, if it is there.
    DeleteValue(String),
    /// Stop with this error.
    Fail(String),
}

/// What a step is, in contracts.
pub enum RegOpView {
    OpenKey(Seq<char>),
    DeleteKey(Seq<char>),
    SetDword(Seq<char>, u32),
    SetStr(Seq<char>, Seq<char>),
    DeleteValue(Seq<char>),
    Fail(Seq<char>),
}

impl RegOp {
    /// What the step is, in contracts.
    pub open spec fn view_of(self) -> RegOpView {
        match self {
            RegOp::OpenKey(p) => RegOpView::OpenKey(p@),
            RegOp::DeleteKey(p) => RegOpView::DeleteKey(p@),
            RegOp::SetValue(n, RegData::Dword(d)) => RegOpView::SetDword(n@, d),
            RegOp::SetValue(n, RegData::Str(s)) => RegOpView::SetStr(n@, s@),
            RegOp::DeleteValue(n) => RegOpView::DeleteValue(n@),
            RegOp::Fail(e) => RegOpView::Fail(e@),
        }
    }
}

/// The views of a list of steps.
pub open spec fn op_views(v: Seq<RegOp>) -> Seq<RegOpView> {
    Seq::new(v.len(), |i: int| v[i].view_of())
}

/// A string value of a `.reg` line that cannot be cut as Rust cuts it: a
/// single `"`, or one whose last character is not ASCII.
pub open spec fn uncuttable(raw: Seq<char>) -> bool {
    has_prefix(raw, "\""@) && (raw.len() < 2 || (raw.last() as u32) >= 0x80)
}

/// The steps of one named value while a key is open.
pub open spec fn named_ops(name: Seq<char>, raw: Seq<char>) -> Seq<RegOpView> {
    if has_prefix(raw, "dword:"@) {
        let hex = raw.subrange(6, raw.len() as int);
        match crate::text::parse_hex_u32_spec(hex) {
            Some(d) => seq![RegOpView::SetDword(name, d)],
            None => seq![RegOpView::Fail("解析 dword 值失败: "@ + spec_hex_error_text(hex))],
        }
    } else if has_prefix(raw, "\""@) {
        seq![RegOpView::SetStr(name, unescape_spec(raw.subrange(1, raw.len() - 1)))]
    } else if raw == "-"@ {
        seq![RegOpView::DeleteValue(name)]
    } else {
        Seq::empty()
    }
}

/// The steps of a default value while a key is open.
pub open spec fn default_ops(raw: Seq<char>) -> Seq<RegOpView> {
    if raw.len() >= 2 && has_prefix(raw, "\""@) && has_suffix(raw, "\""@) {
        seq![RegOpView::SetStr(Seq::empty(), unescape_spec(raw.subrange(1, raw.len() - 1)))]
    } else {
        Seq::empty()
    }
}

/// The steps of applying the lines of a `.reg` file, with whether a key is
/// open after them: keys open and delete, values go to the open key only,
/// and the first unreadable DWORD ends the plan.
pub open spec fn apply_plan_spec(lines: Seq<Seq<char>>) -> (Seq<RegOpView>, bool)
    decreases lines.len(),
{
    if lines.len() == 0 {
        (Seq::empty(), false)
    } else {
        let (ops, open) = apply_plan_spec(lines.drop_last());
        if ops.len() > 0 && ops.last() is Fail {
            (ops, open)
        } else {
            plan_step(ops, open, lines.last())
        }
    }
}

/// The steps after one more line.
pub open spec fn plan_step(ops: Seq<RegOpView>, open: bool, line: Seq<char>) -> (Seq<RegOpView>, bool) {
    match reg_line_spec(line) {
        RegLineView::Key(p) => (ops.push(RegOpView::OpenKey(p)), true),
        RegLineView::DeleteKey(p) => (ops.push(RegOpView::DeleteKey(p)), false),
        RegLineView::Default(raw) => if open { (ops + default_ops(raw), open) } else { (ops, open) },
        RegLineView::Named(n, raw) => if open { (ops + named_ops(n, raw), open) } else { (ops, open) },
        _ => (ops, open),
    }
}

fn plan_step_exec(out: &mut Vec<RegOp>, open: bool, line: &Vec<char>) -> (r: bool)
    requires
        match reg_line_spec(line@) {
            RegLineView::Named(_, raw) => !uncuttable(raw),
            _ => true,
        },
    ensures
        (op_views(final(out)@), r) == plan_step(op_views(old(out)@), open, line@),
{
    let ls = string_from_chars(line);
    let ghost lk = reg_line_spec(line@);
    let ghost before = op_views(out@);
    match classify_reg_line(ls.as_str()) {
        RegLine::Key(p) => {
            out.push(RegOp::OpenKey(p));
            assert(op_views(out@) =~= before.push(RegOpView::OpenKey(lk->Key_0)));
            true
        },
        RegLine::DeleteKey(p) => {
            out.push(RegOp::DeleteKey(p));
            assert(op_views(out@) =~= before.push(RegOpView::DeleteKey(lk->DeleteKey_0)));
            false
        },
        RegLine::Default(raw) => {
            if open {
                default_ops_exec(out, &raw);
            }
            open
        },
        RegLine::Named(n, raw) => {
            if open {
                named_ops_exec(out, &n, &raw);
            }
            open
        },
        _ => open,
    }
}

/// No line of the file would make the cut of a string value panic.
pub open spec fn reg_cuttable(lines: Seq<Seq<char>>) -> bool {
    forall|i: int| 0 <= i < lines.len() ==> match #[trigger] reg_line_spec(lines[i]) {
        RegLineView::Named(_, raw) => !uncuttable(raw),
        _ => true,
    }
}

/// Splits at a line break.
pub open spec fn nl_sep() -> spec_fn(char) -> bool {
    |c: char| c == '\n'
}

fn named_ops_exec(out: &mut Vec<RegOp>, name: &String, raw: &String)
    requires
        !uncuttable(raw@),
    ensures
        op_views(final(out)@) == op_views(old(out)@) + named_ops(name@, raw@),
{
    proof {
        reveal_strlit("dword:");
        reveal_strlit("\"");
        reveal_strlit("-");
        reveal_strlit("\\\"");
    }
    let v = chars_of(raw.as_str());
    let ghost start = op_views(out@);
    if starts_with(&v, &chars_of("dword:")) {
        let hex = slice_vec(&v, 6, v.len());
        match crate::text::parse_hex_u32(&hex) {
            Some(d) => {
                out.push(RegOp::SetValue(name.clone(), RegData::Dword(d)));
            },
            None => {
                let hs = string_from_chars(&hex);
                let e = hex_error_text(hs.as_str());
                out.push(RegOp::Fail(concat2("解析 dword 值失败: ", e.as_str())));
            },
        }
        assert(op_views(out@) =~= start + named_ops(name@, raw@));
    } else if starts_with(&v, &chars_of("\"")) {
        let inner = string_from_chars(&slice_vec(&v, 1, v.len() - 1));
        let val = replace_str(inner.as_str(), "\\\"", "\"");
        out.push(RegOp::SetValue(name.clone(), RegData::Str(val)));
        assert(op_views(out@) =~= start + named_ops(name@, raw@));
    } else if str_eq(raw.as_str(), "-") {
        out.push(RegOp::DeleteValue(name.clone()));
        assert(op_views(out@) =~= start + named_ops(name@, raw@));
    } else {
        assert(op_views(out@) =~= start + named_ops(name@, raw@));
    }
}

fn default_ops_exec(out: &mut Vec<RegOp>, raw: &String)
    ensures
        op_views(final(out)@) == op_views(old(out)@) + default_ops(raw@),
{
    proof {
        reveal_strlit("\"");
        reveal_strlit("\\\"");
    }
    let v = chars_of(raw.as_str());
    let ghost start = op_views(out@);
    if v.len() >= 2 && starts_with(&v, &chars_of("\"")) && ends_with(&v, &chars_of("\"")) {
        let inner = string_from_chars(&slice_vec(&v, 1, v.len() - 1));
        let val = replace_str(inner.as_str(), "\\\"", "\"");
        out.push(RegOp::SetValue(String::new(), RegData::Str(val)));
    }
    assert(op_views(out@) =~= start + default_ops(raw@));
}

/// The steps of applying a `.reg` file (see `apply_plan_spec`), run in order
/// and stopped at the first that fails.
pub fn reg_apply_plan(content: &str) -> (r: Vec<RegOp>)
    requires
        reg_cuttable(split_when(content@, nl_sep())),
    ensures
        op_views(r@) == apply_plan_spec(split_when(content@, nl_sep())).0,
{
    let v = chars_of(content);
    let kind = SepKind::AnyOf(vec!['\n']);
    let lines = split_vec(&v, &kind);
    assert(kind.pred() =~= nl_sep()) by {
        assert forall|c: char| #[trigger] kind.pred()(c) == nl_sep()(c) by {
            if c == '\n' {
                assert(seq!['\n'][0] == c);
            }
        }
    }
    let ghost lv = views(lines@);
    let mut out: Vec<RegOp> = Vec::new();
    let mut open = false;
    let mut done = false;
    let mut i: usize = 0;
    while i < lines.len() && !done
        invariant
            i <= lines@.len(),
            lv == views(lines@),
            reg_cuttable(lv),
            (op_views(out@), open) == apply_plan_spec(lv.subrange(0, i as int)),
            done ==> op_views(out@).len() > 0 && op_views(out@).last() is Fail,
        decreases lines.len() - i + (if done { 0int } else { 1int }),
    {
        let ghost pre = lv.subrange(0, i + 1);
        assert(pre.drop_last() =~= lv.subrange(0, i as int));
        assert(pre.last() == lines@[i as int]@);
        if out.len() > 0 {
            let failed = match &out[out.len() - 1] {
                RegOp::Fail(_) => true,
                _ => false,
            };
            if failed {
                assert(op_views(out@).last() is Fail);
                done = true;
                continue;
            }
        }
        assert(lv[i as int] == lines@[i as int]@);
        open = plan_step_exec(&mut out, open, &lines[i]);
        i = i + 1;
    }
    proof {
        if done {
            lemma_plan_stops(lv, i as int);
        }
    }
    assert(lv.subrange(0, lv.len() as int) =~= lv);
    out
}

proof fn lemma_plan_stops(lv: Seq<Seq<char>>, i: int)
    requires
        0 <= i <= lv.len(),
        apply_plan_spec(lv.subrange(0, i)).0.len() > 0,
        apply_plan_spec(lv.subrange(0, i)).0.last() is Fail,
    ensures
        apply_plan_spec(lv) == apply_plan_spec(lv.subrange(0, i)),
    decreases lv.len() - i,
{
    if i < lv.len() {
        let pre = lv.subrange(0, i + 1);
        assert(pre.drop_last() =~= lv.subrange(0, i));
        lemma_plan_stops(lv, i + 1);
    } else {
        assert(lv.subrange(0, i) =~= lv);
    }
}

/// A step of checking whether a `.reg` file is already in effect.
pub enum ScanStep {
    /// Look the key up; the next checks read it.
    OpenKey(String),
    /// The key must be gone; the next checks read it where it is still there.
    RequireAbsent(String),
    /// A value of the current key (the empty name is the default value) must
    /// match the file's value text.
    Check(String, String, bool),
}

/// What a check step is, in contracts.
pub enum ScanStepView {
    OpenKey(Seq<char>),
    RequireAbsent(Seq<char>),
    Check(Seq<char>, Seq<char>, bool),
}

impl ScanStep {
    /// What the step is, in contracts.
    pub open spec fn view_of(self) -> ScanStepView {
        match self {
            ScanStep::OpenKey(p) => ScanStepView::OpenKey(p@),
            ScanStep::RequireAbsent(p) => ScanStepView::RequireAbsent(p@),
            ScanStep::Check(n, v, d) => ScanStepView::Check(n@, v@, d),
        }
    }
}

/// The views of a list of check steps.
pub open spec fn scan_views(v: Seq<ScanStep>) -> Seq<ScanStepView> {
    Seq::new(v.len(), |i: int| v[i].view_of())
}

/// The check steps of the lines of a `.reg` file, one per key line and per value line.
pub open spec fn scan_plan_spec(lines: Seq<Seq<char>>) -> Seq<ScanStepView>
    decreases lines.len(),
{
    if lines.len() == 0 {
        Seq::empty()
    } else {
        let prev = scan_plan_spec(lines.drop_last());
        match reg_line_spec(lines.last()) {
            RegLineView::Key(p) => prev.push(ScanStepView::OpenKey(p)),
            RegLineView::DeleteKey(p) => prev.push(ScanStepView::RequireAbsent(p)),
            RegLineView::Default(raw) => prev.push(ScanStepView::Check(Seq::empty(), raw, true)),
            RegLineView::Named(n, raw) => prev.push(ScanStepView::Check(n, raw, false)),
            _ => prev,
        }
    }
}

/// The check steps of a `.reg` file (see `scan_plan_spec`).
pub fn reg_scan_plan(content: &str) -> (r: Vec<ScanStep>)
    ensures
        scan_views(r@) == scan_plan_spec(split_when(content@, nl_sep())),
{
    let v = chars_of(content);
    let kind = SepKind::AnyOf(vec!['\n']);
    let lines = split_vec(&v, &kind);
    assert(kind.pred() =~= nl_sep()) by {
        assert forall|c: char| #[trigger] kind.pred()(c) == nl_sep()(c) by {
            if c == '\n' {
                assert(seq!['\n'][0] == c);
            }
        }
    }
    let ghost lv = views(lines@);
    let mut out: Vec<ScanStep> = Vec::new();
    let mut i: usize = 0;
    while i < lines.len()
        invariant
            i <= lines@.len(),
            lv == views(lines@),
            scan_views(out@) == scan_plan_spec(lv.subrange(0, i as int)),
        decreases lines.len() - i,
    {
        let ghost pre = lv.subrange(0, i + 1);
        assert(pre.drop_last() =~= lv.subrange(0, i as int));
        assert(pre.last() == lines@[i as int]@);
        let ls = string_from_chars(&lines[i]);
        let ghost before = scan_views(out@);
        match classify_reg_line(ls.as_str()) {
            RegLine::Key(p) => {
                out.push(ScanStep::OpenKey(p));
                assert(scan_views(out@) =~= scan_plan_spec(pre));
            },
            RegLine::DeleteKey(p) => {
                out.push(ScanStep::RequireAbsent(p));
                assert(scan_views(out@) =~= scan_plan_spec(pre));
            },
            RegLine::Default(raw) => {
                out.push(ScanStep::Check(String::new(), raw, true));
                assert(scan_views(out@) =~= scan_plan_spec(pre));
            },
            RegLine::Named(n, raw) => {
                out.push(ScanStep::Check(n, raw, false));
                assert(scan_views(out@) =~= scan_plan_spec(pre));
            },
            _ => {},
        }
        i = i + 1;
    }
    assert(lv.subrange(0, lv.len() as int) =~= lv);
    out
}

/// What a value of a `.reg` file asks to find.
pub enum RegTarget {
    /// A DWORD of this value.
    Dword(u32),
    /// A string of this value.
    Str(String),
    /// No value at all.
    Absent,
    /// Nothing that can be found.
    Never,
}

/// What a value text asks to find: `dword:` and its hexadecimal number, a
/// quoted string (unescaped), `-` for none; anything else is never found.
pub open spec fn target_spec(raw: Seq<char>) -> RegTargetView {
    if has_prefix(raw, "dword:"@) {
        match crate::text::parse_hex_u32_spec(raw.subrange(6, raw.len() as int)) {
            Some(d) => RegTargetView::Dword(d),
            None => RegTargetView::Never,
        }
    } else if has_prefix(raw, "\""@) && has_suffix(raw, "\""@) {
        RegTargetView::Str(unescape_spec(raw.subrange(1, raw.len() - 1)))
    } else if raw == "-"@ {
        RegTargetView::Absent
    } else {
        RegTargetView::Never
    }
}

/// What a value target is, in contracts.
pub enum RegTargetView {
    Dword(u32),
    Str(Seq<char>),
    Absent,
    Never,
}

/// What a value text asks to find (see `target_spec`).  A single `"` cannot
/// be cut and is left out.
pub fn reg_target(raw: &str) -> (r: RegTarget)
    requires
        raw@ != "\""@,
    ensures
        match r {
            RegTarget::Dword(d) => target_spec(raw@) == RegTargetView::Dword(d),
            RegTarget::Str(s) => target_spec(raw@) == RegTargetView::Str(s@),
            RegTarget::Absent => target_spec(raw@) == RegTargetView::Absent,
            RegTarget::Never => target_spec(raw@) == RegTargetView::Never,
        },
{
    proof {
        reveal_strlit("dword:");
        reveal_strlit("\"");
        reveal_strlit("-");
        reveal_strlit("\\\"");
    }
    let v = chars_of(raw);
    if starts_with(&v, &chars_of("dword:")) {
        let hex = slice_vec(&v, 6, v.len());
        return match crate::text::parse_hex_u32(&hex) {
            Some(d) => RegTarget::Dword(d),
            None => RegTarget::Never,
        };
    }
    if starts_with(&v, &chars_of("\"")) && ends_with(&v, &chars_of("\"")) {
        proof {
            if v@.len() < 2 {
                assert(v@.subrange(0, 1) =~= v@);
                assert(v@ == "\""@);
            }
        }
        let inner = string_from_chars(&slice_vec(&v, 1, v.len() - 1));
        return RegTarget::Str(replace_str(inner.as_str(), "\\\"", "\""));
    }
    if str_eq(raw, "-") {
        return RegTarget::Absent;
    }
    RegTarget::Never
}

/// Whether what the registry holds is what the target asks: the DWORD or the
/// string read back (`None` where it could not be read as one) equals it, or
/// the value is absent as asked.
pub fn reg_matches(target: &RegTarget, dword: Option<u32>, string: Option<&str>, exists: bool) -> (b: bool)
    ensures
        b == match *target {
            RegTarget::Dword(d) => dword == Some(d),
            RegTarget::Str(s) => match string {
                Some(x) => x@ == s@,
                None => false,
            },
            RegTarget::Absent => !exists,
            RegTarget::Never => false,
        },
{
    match target {
        RegTarget::Dword(d) => match dword {
            Some(x) => x == *d,
            None => false,
        },
        RegTarget::Str(s) => match string {
            Some(x) => str_eq(x, s.as_str()),
            None => false,
        },
        RegTarget::Absent => !exists,
        RegTarget::Never => false,
    }
}

/// Whether a check is met where its key is not there: only a named value
/// that is asked to be absent.
pub fn check_without_key(raw: &str, is_default: bool) -> (b: bool)
    ensures
        b == (!is_default && raw@ == "-"@),
{
    !is_default && str_eq(raw, "-")
}

/// The message of a batch of registry tweaks.
pub open spec fn batch_message_spec(success: nat, failed: Seq<Seq<char>>, total: nat, restore: bool) -> (bool, Seq<char>) {
    if failed.len() == 0 {
        (true, (if restore { "成功恢复 "@ } else { "成功应用 "@ }) + decimal(success) + " 项优化"@)
    } else {
        (
            failed.len() < total,
            "成功 "@ + decimal(success) + " 项，失败 "@ + decimal(failed.len()) + " 项: "@ + join_sep(failed, ", "@),
        )
    }
}

/// The result of a batch of registry tweaks over `total` names: how many
/// went through and which failed.
pub fn registry_batch_result(success: usize, failed: &Vec<String>, total: usize, restore: bool) -> (r: crate::network::PerfTweakResult)
    ensures
        (r.success, r.message@) == batch_message_spec(success as nat, strs(failed@), total as nat, restore),
{
    if failed.len() == 0 {
        let mut v = if restore {
            chars_of("成功恢复 ")
        } else {
            chars_of("成功应用 ")
        };
        push_decimal(&mut v, success as u64);
        append_str(&mut v, " 项优化");
        return crate::network::PerfTweakResult { success: true, message: string_from_chars(&v) };
    }
    let mut v = chars_of("成功 ");
    push_decimal(&mut v, success as u64);
    append_str(&mut v, " 项，失败 ");
    push_decimal(&mut v, failed.len() as u64);
    append_str(&mut v, " 项: ");
    let joined = join_strings(failed, ", ");
    append_str(&mut v, joined.as_str());
    crate::network::PerfTweakResult { success: failed.len() < total, message: string_from_chars(&v) }
}

// ───────────────────────── page files ─────────────────────────

/// The non-empty whitespace-separated words of a text (`split_whitespace`).
pub open spec fn words_spec(s: Seq<char>) -> Seq<Seq<char>> {
    split_when(s, ws_sep()).filter(|w: Seq<char>| w.len() > 0)
}

/// A non-empty word.
pub open spec fn nonempty_word() -> spec_fn(Seq<char>) -> bool {
    |w: Seq<char>| w.len() > 0
}

pub(crate) fn words_exec(s: &str) -> (r: Vec<Vec<char>>)
    ensures
        views(r@) == split_when(s@, ws_sep()).filter(nonempty_word()),
{
    let v = chars_of(s);
    let parts = split_vec(&v, &SepKind::Whitespace);
    assert(SepKind::Whitespace.pred() =~= ws_sep());
    let ghost pv = views(parts@);
    let ghost f = nonempty_word();
    let mut out: Vec<Vec<char>> = Vec::new();
    let mut i: usize = 0;
    while i < parts.len()
        invariant
            i <= parts@.len(),
            pv == views(parts@),
            pv == split_when(s@, ws_sep()),
            f == nonempty_word(),
            views(out@) == pv.subrange(0, i as int).filter(f),
        decreases parts.len() - i,
    {
        let ghost pre = pv.subrange(0, i + 1);
        assert(pre.drop_last() =~= pv.subrange(0, i as int));
        assert(pre.filter(f) == if f(pre.last()) {
            pre.drop_last().filter(f).push(pre.last())
        } else {
            pre.drop_last().filter(f)
        }) by {
            reveal_with_fuel(Seq::filter, 1);
        }
        assert(pre.last() == parts@[i as int]@);
        if parts[i].len() > 0 {
            let mut w: Vec<char> = Vec::new();
            append_vec(&mut w, &parts[i]);
            let ghost before = views(out@);
            out.push(w);
            assert(views(out@) =~= before.push(pre.last()));
        }
        i = i + 1;
    }
    assert(pv.subrange(0, pv.len() as int) =~= pv);
    out
}

/// A page file entry `path initial max`: exactly three words, the sizes read
/// as numbers.
pub open spec fn pagefile_line_spec(line: Seq<char>) -> Option<(Seq<char>, u64, u64)> {
    let ws = split_when(line, ws_sep()).filter(nonempty_word());
    if ws.len() != 3 {
        None
    } else {
        match (parse_u64_spec(ws[1]), parse_u64_spec(ws[2])) {
            (Some(a), Some(b)) => Some((ws[0], a, b)),
            _ => None,
        }
    }
}

/// Reads a page file entry (see `pagefile_line_spec`).
pub fn parse_pagefile_line(line: &str) -> (r: Option<(String, u64, u64)>)
    ensures
        match r {
            Some(t) => pagefile_line_spec(line@) == Some((t.0@, t.1, t.2)),
            None => pagefile_line_spec(line@) is None,
        },
{
    let ws = words_exec(line);
    if ws.len() != 3 {
        return None;
    }
    assert(views(ws@)[1] == ws@[1]@ && views(ws@)[2] == ws@[2]@ && views(ws@)[0] == ws@[0]@);
    let a = match parse_u64(&ws[1]) {
        Some(a) => a,
        None => {
            return None;
        },
    };
    let b = match parse_u64(&ws[2]) {
        Some(b) => b,
        None => {
            return None;
        },
    };
    Some((string_from_chars(&ws[0]), a, b))
}

/// The advice on a page file.
pub struct PagefileRecommendation {
    pub verdict: String,
    pub suggested_initial_mb: u64,
    pub suggested_max_mb: u64,
    pub message: String,
}

/// The suggested initial and maximum page file size for the physical memory
/// (in MB): one and a half and three times the memory below 8 GiB, once and
/// twice below 16 GiB, else half (at least 4 GiB) and once; never below 1 GiB,
/// and the maximum never below the initial size.
pub open spec fn suggested_spec(p: u64) -> (int, int) {
    let (i0, m0): (int, int) = if p < 8192 {
        (p * 3 / 2, p * 3)
    } else if p < 16384 {
        (p as int, p * 2)
    } else {
        (if p / 2 >= 4096 { (p / 2) as int } else { 4096int }, p as int)
    };
    let i1 = if i0 < 1024 { 1024 } else { i0 };
    let m1 = if m0 < i1 { i1 } else { m0 };
    (i1, m1)
}

/// The verdict on the current page file: `low` below half the suggested
/// initial size, `high` above one and a half times the suggested maximum,
/// else `ok`.
pub open spec fn verdict_spec(p: u64, current: u64) -> Seq<char> {
    let (i, m) = suggested_spec(p);
    if current < i / 2 {
        "low"@
    } else if current > m * 3 / 2 {
        "high"@
    } else {
        "ok"@
    }
}

/// The advice shown with a verdict and the suggested sizes.
pub open spec fn recommendation_message(verdict: Seq<char>, init: u64, max: u64) -> Seq<char> {
    if verdict == "low"@ {
        "当前页面文件偏少，建议初始 "@ + decimal(init as nat) + " MB、最大 "@ + decimal(max as nat) + " MB"@
    } else if verdict == "high"@ {
        "当前页面文件偏多，建议初始 "@ + decimal(init as nat) + " MB、最大 "@ + decimal(max as nat) + " MB"@
    } else {
        "当前页面文件大小合理（建议区间 初始 "@ + decimal(init as nat) + " MB ~ 最大 "@ + decimal(max as nat) + " MB）"@
    }
}

/// Judges the current page file against the physical memory.
pub fn recommend_pagefile(physical_mb: u64, current_pagefile_mb: u64) -> (r: PagefileRecommendation)
    requires
        physical_mb <= u64::MAX / 3,
    ensures
        r.suggested_initial_mb == suggested_spec(physical_mb).0,
        r.suggested_max_mb == suggested_spec(physical_mb).1,
        r.verdict@ == verdict_spec(physical_mb, current_pagefile_mb),
        r.message@ == recommendation_message(r.verdict@, r.suggested_initial_mb, r.suggested_max_mb),
{
    proof {
        reveal_strlit("low");
        reveal_strlit("high");
        reveal_strlit("ok");
    }
    let p = physical_mb;
    let (mut init, mut max): (u64, u64) = if p < 8192 {
        (p * 3 / 2, p * 3)
    } else if p < 16384 {
        (p, p * 2)
    } else {
        (if p / 2 >= 4096 { p / 2 } else { 4096 }, p)
    };
    if init < 1024 {
        init = 1024;
    }
    if max < init {
        max = init;
    }
    assert(init as int == suggested_spec(p).0 && max as int == suggested_spec(p).1);
    let verdict: &str = if current_pagefile_mb < init / 2 {
        "low"
    } else if current_pagefile_mb > max * 3 / 2 {
        "high"
    } else {
        "ok"
    };
    let message = if str_eq(verdict, "low") {
        let mut v = chars_of("当前页面文件偏少，建议初始 ");
        push_decimal(&mut v, init);
        append_str(&mut v, " MB、最大 ");
        push_decimal(&mut v, max);
        append_str(&mut v, " MB");
        string_from_chars(&v)
    } else if str_eq(verdict, "high") {
        let mut v = chars_of("当前页面文件偏多，建议初始 ");
        push_decimal(&mut v, init);
        append_str(&mut v, " MB、最大 ");
        push_decimal(&mut v, max);
        append_str(&mut v, " MB");
        string_from_chars(&v)
    } else {
        let mut v = chars_of("当前页面文件大小合理（建议区间 初始 ");
        push_decimal(&mut v, init);
        append_str(&mut v, " MB ~ 最大 ");
        push_decimal(&mut v, max);
        append_str(&mut v, " MB）");
        string_from_chars(&v)
    };
    PagefileRecommendation {
        verdict: str_to_string(verdict),
        suggested_initial_mb: init,
        suggested_max_mb: max,
        message,
    }
}

/// The page file state the front end shows.
pub struct PagefileStatus {
    pub physical_memory_mb: u64,
    /// The commit limit: physical memory and page files together.
    pub total_virtual_memory_mb: u64,
    /// The page files' current size: the commit limit beyond physical memory.
    pub pagefile_size_mb: u64,
    pub drives: Vec<PagefileDrive>,
    pub recommendation: PagefileRecommendation,
}

/// The page file state from the memory figures and the drives' settings: the
/// page files' size is the commit limit less physical memory (none where the
/// limit is smaller), judged against physical memory.
pub fn pagefile_status(physical_mb: u64, total_virtual_mb: u64, drives: Vec<PagefileDrive>) -> (r: PagefileStatus)
    requires
        physical_mb <= u64::MAX / 3,
    ensures
        r.physical_memory_mb == physical_mb,
        r.total_virtual_memory_mb == total_virtual_mb,
        r.pagefile_size_mb == if total_virtual_mb >= physical_mb { (total_virtual_mb - physical_mb) as u64 } else { 0 },
        r.drives == drives,
        r.recommendation.suggested_initial_mb == suggested_spec(physical_mb).0,
        r.recommendation.suggested_max_mb == suggested_spec(physical_mb).1,
        r.recommendation.verdict@ == verdict_spec(physical_mb, r.pagefile_size_mb),
        r.recommendation.message@ == recommendation_message(
            r.recommendation.verdict@,
            r.recommendation.suggested_initial_mb,
            r.recommendation.suggested_max_mb,
        ),
{
    let size = total_virtual_mb.saturating_sub(physical_mb);
    let recommendation = recommend_pagefile(physical_mb, size);
    PagefileStatus {
        physical_memory_mb: physical_mb,
        total_virtual_memory_mb: total_virtual_mb,
        pagefile_size_mb: size,
        drives,
        recommendation,
    }
}

/// The page file of one drive.
pub struct PagefileDrive {
    pub path: String,
    pub drive: String,
    pub mode: String,
    pub initial_mb: u64,
    pub max_mb: u64,
}

/// What a drive's page file is, in contracts.
pub struct PagefileDriveView {
    pub path: Seq<char>,
    pub drive: Seq<char>,
    pub mode: Seq<char>,
    pub initial_mb: u64,
    pub max_mb: u64,
}

impl View for PagefileDrive {
    type V = PagefileDriveView;

    open spec fn view(&self) -> PagefileDriveView {
        PagefileDriveView {
            path: self.path@,
            drive: self.drive@,
            mode: self.mode@,
            initial_mb: self.initial_mb,
            max_mb: self.max_mb,
        }
    }
}

/// The first entry of the drive: an entry whose path, upper-cased, starts
/// with the drive upper-cased.
pub open spec fn drive_entry(lines: Seq<Seq<char>>, drive: Seq<char>) -> Option<(Seq<char>, u64, u64)>
    decreases lines.len(),
{
    if lines.len() == 0 {
        None
    } else {
        match pagefile_line_spec(lines[0]) {
            Some(e) => if has_prefix(spec_to_uppercase(e.0), spec_to_uppercase(drive)) {
                Some(e)
            } else {
                drive_entry(lines.drop_first(), drive)
            },
            None => drive_entry(lines.drop_first(), drive),
        }
    }
}

/// A drive's page file: managed by the system where its entry is `0 0`,
/// custom where it has sizes, none without an entry.
pub open spec fn drive_status_spec(lines: Seq<Seq<char>>, drive: Seq<char>) -> PagefileDriveView {
    match drive_entry(lines, drive) {
        Some((path, a, b)) => if a == 0 && b == 0 {
            PagefileDriveView { path, drive, mode: "system"@, initial_mb: 0, max_mb: 0 }
        } else {
            PagefileDriveView { path, drive, mode: "custom"@, initial_mb: a, max_mb: b }
        },
        None => PagefileDriveView { path: drive + "\\pagefile.sys"@, drive, mode: "none"@, initial_mb: 0, max_mb: 0 },
    }
}

/// A drive's page file from the registry's entries.
pub fn pagefile_drive_status(lines: &Vec<String>, drive: &str) -> (r: PagefileDrive)
    ensures
        r@ == drive_status_spec(strs(lines@), drive@),
{
    let ghost lv = strs(lines@);
    let du = chars_of(str_to_uppercase(drive).as_str());
    let n = lines.len();
    let mut i: usize = 0;
    assert(lv.subrange(0, n as int) =~= lv);
    while i < n
        invariant
            n == lines@.len(),
            i <= n,
            lv == strs(lines@),
            du@ == spec_to_uppercase(drive@),
            drive_entry(lv, drive@) == drive_entry(lv.subrange(i as int, n as int), drive@),
        decreases n - i,
    {
        let ghost sub = lv.subrange(i as int, n as int);
        assert(sub[0] == lines@[i as int]@);
        assert(sub.drop_first() =~= lv.subrange(i + 1, n as int));
        match parse_pagefile_line(lines[i].as_str()) {
            Some((path, a, b)) => {
                let pu = chars_of(str_to_uppercase(path.as_str()).as_str());
                if starts_with(&pu, &du) {
                    if a == 0 && b == 0 {
                        return PagefileDrive { path, drive: str_to_string(drive), mode: str_to_string("system"), initial_mb: 0, max_mb: 0 };
                    }
                    return PagefileDrive { path, drive: str_to_string(drive), mode: str_to_string("custom"), initial_mb: a, max_mb: b };
                }
            },
            None => {},
        }
        i = i + 1;
    }
    PagefileDrive {
        path: concat2(drive, "\\pagefile.sys"),
        drive: str_to_string(drive),
        mode: str_to_string("none"),
        initial_mb: 0,
        max_mb: 0,
    }
}

/// The error of a page file request, if any: a custom size must start above
/// zero, not shrink, and stay within four times the memory; the only modes
/// are `none`, `system` and `custom`.  Drives are checked in order.
pub open spec fn drive_error(d: PagefileDriveView, physical_mb: u64) -> Option<Seq<char>> {
    let cap: int = if physical_mb as int * 4 > u64::MAX { u64::MAX as int } else { physical_mb * 4 };
    if d.mode == "custom"@ {
        if d.initial_mb == 0 {
            Some(d.path + " 的初始大小必须大于 0"@)
        } else if d.max_mb < d.initial_mb {
            Some(d.path + " 的最大大小不能小于初始大小"@)
        } else if d.max_mb > cap {
            Some(d.path + " 的最大大小过大（上限为物理内存的 4 倍 = "@ + decimal(cap as nat) + " MB）"@)
        } else {
            None
        }
    } else if d.mode != "none"@ && d.mode != "system"@ {
        Some("未知模式: "@ + d.mode)
    } else {
        None
    }
}

/// The views of a list of drive settings.
pub open spec fn drive_views(v: Seq<PagefileDrive>) -> Seq<PagefileDriveView> {
    Seq::new(v.len(), |i: int| v[i]@)
}

/// The first error among the drives.
pub open spec fn drives_error(ds: Seq<PagefileDriveView>, physical_mb: u64) -> Option<Seq<char>>
    decreases ds.len(),
{
    if ds.len() == 0 {
        None
    } else {
        match drive_error(ds[0], physical_mb) {
            Some(e) => Some(e),
            None => drives_error(ds.drop_first(), physical_mb),
        }
    }
}

/// Checks a page file request: an error for no drives, else the first
/// drive's error (see `drive_error`).
pub fn validate_pagefile_request(drives: &Vec<PagefileDrive>, physical_mb: u64) -> (r: Result<(), String>)
    ensures
        drives@.len() == 0 ==> r is Err && r->Err_0@ == "缺少磁盘条目"@,
        drives@.len() > 0 ==> match drives_error(drive_views(drives@), physical_mb) {
            Some(e) => r is Err && r->Err_0@ == e,
            None => r is Ok,
        },
{
    if drives.len() == 0 {
        return Err(str_to_string("缺少磁盘条目"));
    }
    let cap: u64 = if physical_mb > u64::MAX / 4 {
        u64::MAX
    } else {
        physical_mb * 4
    };
    let ghost dv = drive_views(drives@);
    let n = drives.len();
    let mut i: usize = 0;
    assert(dv.subrange(0, n as int) =~= dv);
    while i < n
        invariant
            n == drives@.len(),
            i <= n,
            dv == drive_views(drives@),
            cap as int == if physical_mb as int * 4 > u64::MAX { u64::MAX as int } else { physical_mb * 4 },
            drives_error(dv, physical_mb) == drives_error(dv.subrange(i as int, n as int), physical_mb),
        decreases n - i,
    {
        let ghost sub = dv.subrange(i as int, n as int);
        assert(sub[0] == drives@[i as int]@);
        assert(sub.drop_first() =~= dv.subrange(i + 1, n as int));
        let d = &drives[i];
        if str_eq(d.mode.as_str(), "custom") {
            if d.initial_mb == 0 {
                return Err(concat2(d.path.as_str(), " 的初始大小必须大于 0"));
            }
            if d.max_mb < d.initial_mb {
                return Err(concat2(d.path.as_str(), " 的最大大小不能小于初始大小"));
            }
            if d.max_mb > cap {
                let mut v = chars_of(d.path.as_str());
                append_str(&mut v, " 的最大大小过大（上限为物理内存的 4 倍 = ");
                push_decimal(&mut v, cap);
                append_str(&mut v, " MB）");
                return Err(string_from_chars(&v));
            }
        } else if !str_eq(d.mode.as_str(), "none") && !str_eq(d.mode.as_str(), "system") {
            return Err(concat2("未知模式: ", d.mode.as_str()));
        }
        i = i + 1;
    }
    Ok(())
}

/// The drive an existing entry belongs to: the first two bytes of its path
/// upper-cased where they are whole characters, else the whole path
/// upper-cased.
pub open spec fn entry_drive(path: Seq<char>) -> Seq<char> {
    if path.len() >= 2 && (path[0] as u32) < 0x80 && (path[1] as u32) < 0x80 {
        spec_to_uppercase(path.subrange(0, 2))
    } else if path.len() >= 1 && crate::music_api::qishui::utf8_len(path[0]) == 2 {
        spec_to_uppercase(path.subrange(0, 1))
    } else {
        spec_to_uppercase(path)
    }
}

/// A keyed entry: the drive it belongs to and its text.
pub type Keyed = (Seq<char>, Seq<char>);

/// The first word of a line, if it has one.
pub open spec fn first_word(line: Seq<char>) -> Option<Seq<char>> {
    let ws = split_when(line, ws_sep()).filter(nonempty_word());
    if ws.len() == 0 {
        None
    } else {
        Some(ws[0])
    }
}

/// The existing entries, each keyed by the drive of its path (its first word);
/// lines without a word are dropped.  An entry that reads as `path initial max`
/// is keyed by the drive of that path, and one that does not is kept all the
/// same, so that a request never loses the entries of drives it does not name.
pub open spec fn keyed_existing(lines: Seq<Seq<char>>) -> Seq<Keyed>
    decreases lines.len(),
{
    if lines.len() == 0 {
        Seq::empty()
    } else {
        let prev = keyed_existing(lines.drop_last());
        match first_word(lines.last()) {
            Some(w) => prev.push((entry_drive(w), lines.last())),
            None => prev,
        }
    }
}

/// An entry that reads as `path initial max` has its path as its first word,
/// so it is keyed by the drive of that path.
pub proof fn law_entry_keyed_by_its_path(line: Seq<char>)
    requires
        pagefile_line_spec(line) is Some,
    ensures
        first_word(line) == Some(pagefile_line_spec(line)->Some_0.0),
{
}

/// Not keyed by `k`.
pub open spec fn other_drive(k: Seq<char>) -> spec_fn(Keyed) -> bool {
    |e: Keyed| e.0 != k
}

/// The entry a drive setting writes, if any.
pub open spec fn new_entry(d: PagefileDriveView) -> Seq<Keyed> {
    let k = spec_to_uppercase(d.drive);
    if d.mode == "system"@ {
        seq![(k, d.path + " 0 0"@)]
    } else if d.mode == "custom"@ {
        seq![(k, d.path + " "@ + decimal(d.initial_mb as nat) + " "@ + decimal(d.max_mb as nat))]
    } else {
        Seq::empty()
    }
}

/// The entries after the drive settings, applied in turn: each drive's old
/// entries go, and its new one (if any) comes last.
pub open spec fn merged_spec(existing: Seq<Keyed>, ds: Seq<PagefileDriveView>) -> Seq<Keyed>
    decreases ds.len(),
{
    if ds.len() == 0 {
        existing
    } else {
        let prev = merged_spec(existing, ds.drop_last());
        let d = ds.last();
        prev.filter(other_drive(spec_to_uppercase(d.drive))) + new_entry(d)
    }
}

/// The registry value written: the merged entries' texts, or one empty text
/// when no drive has a page file.
pub open spec fn written_spec(lines: Seq<Seq<char>>, ds: Seq<PagefileDriveView>) -> Seq<Seq<char>> {
    let m = merged_spec(keyed_existing(lines), ds);
    if m.len() == 0 {
        seq![Seq::<char>::empty()]
    } else {
        Seq::new(m.len(), |i: int| m[i].1)
    }
}

/// The views of keyed entries.
pub open spec fn keyed_views(v: Seq<(String, String)>) -> Seq<Keyed> {
    Seq::new(v.len(), |i: int| (v[i].0@, v[i].1@))
}

fn entry_drive_exec(path: &String) -> (r: String)
    ensures
        r@ == entry_drive(path@),
{
    let v = chars_of(path.as_str());
    if v.len() >= 2 && (v[0] as u32) < 0x80 && (v[1] as u32) < 0x80 {
        let head = string_from_chars(&slice_vec(&v, 0, 2));
        return str_to_uppercase(head.as_str());
    }
    if v.len() >= 1 {
        let c = v[0] as u32;
        if c >= 0x80 && c < 0x800 {
            let head = string_from_chars(&slice_vec(&v, 0, 1));
            return str_to_uppercase(head.as_str());
        }
    }
    str_to_uppercase(path.as_str())
}

fn retain_other(m: Vec<(String, String)>, k: &String) -> (r: Vec<(String, String)>)
    ensures
        keyed_views(r@) == keyed_views(m@).filter(other_drive(k@)),
{
    let ghost mv = keyed_views(m@);
    let ghost f = other_drive(k@);
    let n = m.len();
    let mut rest = m;
    let mut out: Vec<(String, String)> = Vec::new();
    let mut i: usize = 0;
    assert(keyed_views(rest@) =~= mv.subrange(0, n as int));
    while i < n
        invariant
            n == mv.len(),
            i <= n,
            f == other_drive(k@),
            keyed_views(rest@) == mv.subrange(i as int, n as int),
            keyed_views(out@) == mv.subrange(0, i as int).filter(f),
        decreases n - i,
    {
        let ghost before_rest = rest@;
        assert(keyed_views(before_rest).len() == before_rest.len());
        assert(keyed_views(before_rest)[0] == (before_rest[0].0@, before_rest[0].1@));
        let e = rest.remove(0);
        assert(rest@ =~= before_rest.subrange(1, before_rest.len() as int));
        assert(keyed_views(rest@) =~= keyed_views(before_rest).subrange(1, before_rest.len() as int));
        assert(keyed_views(rest@) =~= mv.subrange(i + 1, n as int));
        let ghost pre = mv.subrange(0, i + 1);
        assert(pre.drop_last() =~= mv.subrange(0, i as int));
        assert(pre.filter(f) == if f(pre.last()) {
            pre.drop_last().filter(f).push(pre.last())
        } else {
            pre.drop_last().filter(f)
        }) by {
            reveal_with_fuel(Seq::filter, 1);
        }
        if !(e.0 == *k) {
            let ghost before = keyed_views(out@);
            out.push(e);
            assert(keyed_views(out@) =~= before.push(mv[i as int]));
        }
        i = i + 1;
    }
    assert(mv.subrange(0, n as int) =~= mv);
    out
}

/// The registry value after a page file request (see `written_spec`), from
/// the existing entries and the checked drive settings.
pub fn merge_pagefiles(existing: &Vec<String>, drives: &Vec<PagefileDrive>) -> (r: Vec<String>)
    ensures
        strs(r@) == written_spec(strs(existing@), drive_views(drives@)),
{
    let ghost ev = strs(existing@);
    let mut merged: Vec<(String, String)> = Vec::new();
    let mut i: usize = 0;
    while i < existing.len()
        invariant
            i <= existing@.len(),
            ev == strs(existing@),
            keyed_views(merged@) == keyed_existing(ev.subrange(0, i as int)),
        decreases existing.len() - i,
    {
        let ghost pre = ev.subrange(0, i + 1);
        assert(pre.drop_last() =~= ev.subrange(0, i as int));
        assert(pre.last() == existing@[i as int]@);
        let ws = words_exec(existing[i].as_str());
        if ws.len() > 0 {
            assert(views(ws@)[0] == ws@[0]@);
            let path = string_from_chars(&ws[0]);
            let key = entry_drive_exec(&path);
            let ghost before = keyed_views(merged@);
            merged.push((key, existing[i].clone()));
            assert(keyed_views(merged@) =~= before.push((entry_drive(path@), existing@[i as int]@)));
        }
        i = i + 1;
    }
    assert(ev.subrange(0, ev.len() as int) =~= ev);
    let ghost base = keyed_views(merged@);
    let ghost dv = drive_views(drives@);
    let mut j: usize = 0;
    while j < drives.len()
        invariant
            j <= drives@.len(),
            dv == drive_views(drives@),
            keyed_views(merged@) == merged_spec(base, dv.subrange(0, j as int)),
        decreases drives.len() - j,
    {
        let ghost pre = dv.subrange(0, j + 1);
        assert(pre.drop_last() =~= dv.subrange(0, j as int));
        assert(pre.last() == drives@[j as int]@);
        let d = &drives[j];
        let key = str_to_uppercase(d.drive.as_str());
        let kept = retain_other(merged, &key);
        merged = kept;
        let ghost before = keyed_views(merged@);
        if str_eq(d.mode.as_str(), "system") {
            merged.push((key, concat2(d.path.as_str(), " 0 0")));
        } else if str_eq(d.mode.as_str(), "custom") {
            let mut v = chars_of(d.path.as_str());
            append_str(&mut v, " ");
            push_decimal(&mut v, d.initial_mb);
            append_str(&mut v, " ");
            push_decimal(&mut v, d.max_mb);
            merged.push((key, string_from_chars(&v)));
        }
        assert(keyed_views(merged@) =~= before + new_entry(d@));
        j = j + 1;
    }
    assert(dv.subrange(0, dv.len() as int) =~= dv);
    let ghost m = keyed_views(merged@);
    let mut out: Vec<String> = Vec::new();
    if merged.len() == 0 {
        out.push(String::new());
        assert(strs(out@) =~= seq![Seq::<char>::empty()]);
        return out;
    }
    let mut k: usize = 0;
    while k < merged.len()
        invariant
            k <= merged@.len(),
            m == keyed_views(merged@),
            strs(out@) == Seq::new(k as nat, |q: int| m[q].1),
        decreases merged.len() - k,
    {
        let t = merged[k].1.clone();
        let ghost before = strs(out@);
        out.push(t);
        assert(strs(out@) =~= before.push(m[k as int].1));
        k = k + 1;
        assert(strs(out@) =~= Seq::new(k as nat, |q: int| m[q].1));
    }
    out
}

// ───────────────────────── reading .reg files ─────────────────────────

/// What `String::from_utf16_lossy` gives for UTF-16 code units.
pub uninterp spec fn spec_utf16_lossy(units: Seq<u16>) -> Seq<char>;

/// What `String::from_utf8_lossy` gives for bytes.
pub uninterp spec fn spec_utf8_lossy(bytes: Seq<u8>) -> Seq<char>;

/// `String::from_utf16_lossy`.  The contract only names the result.
#[verifier::external_body]
fn utf16_lossy(units: &Vec<u16>) -> (r: String)
    ensures
        r@ == spec_utf16_lossy(units@),
{
    String::from_utf16_lossy(units)
}

/// `String::from_utf8_lossy`, owned.  The contract only names the result.
#[verifier::external_body]
pub(crate) fn utf8_lossy(bytes: &Vec<u8>) -> (r: String)
    ensures
        r@ == spec_utf8_lossy(bytes@),
{
    String::from_utf8_lossy(bytes).into_owned()
}

/// The little-endian code units of a byte run, a trailing odd byte left out.
pub open spec fn le_units(b: Seq<u8>) -> Seq<u16> {
    Seq::new(b.len() / 2, |i: int| (b[2 * i] as int + 256 * b[2 * i + 1] as int) as u16)
}

/// The text of a `.reg` file: UTF-16 after a `FF FE` mark, UTF-8 after an
/// `EF BB BF` mark, else UTF-8; bad sequences become replacement characters.
pub open spec fn reg_text_spec(bytes: Seq<u8>) -> Seq<char> {
    if bytes.len() >= 2 && bytes[0] == 0xFF && bytes[1] == 0xFE {
        spec_utf16_lossy(le_units(bytes.subrange(2, bytes.len() as int)))
    } else if bytes.len() >= 3 && bytes[0] == 0xEF && bytes[1] == 0xBB && bytes[2] == 0xBF {
        spec_utf8_lossy(bytes.subrange(3, bytes.len() as int))
    } else {
        spec_utf8_lossy(bytes)
    }
}

/// The text of a `.reg` file (see `reg_text_spec`).
pub fn decode_reg_bytes(bytes: &Vec<u8>) -> (r: String)
    ensures
        r@ == reg_text_spec(bytes@),
{
    let n = bytes.len();
    if n >= 2 && bytes[0] == 0xFF && bytes[1] == 0xFE {
        let ghost body = bytes@.subrange(2, n as int);
        let mut units: Vec<u16> = Vec::new();
        let mut i: usize = 0;
        while i < (n - 2) / 2
            invariant
                n == bytes@.len(),
                n >= 2,
                body == bytes@.subrange(2, n as int),
                i <= (n - 2) / 2,
                units@ == le_units(body).subrange(0, i as int),
            decreases (n - 2) / 2 - i,
        {
            let lo = bytes[2 + 2 * i] as u16;
            let hi = bytes[3 + 2 * i] as u16;
            let u: u16 = lo + 256 * hi;
            assert(body[2 * i as int] == bytes@[2 + 2 * i] && body[2 * i + 1] == bytes@[3 + 2 * i]);
            units.push(u);
            i = i + 1;
            assert(units@ =~= le_units(body).subrange(0, i as int));
        }
        assert(le_units(body).subrange(0, i as int) =~= le_units(body));
        return utf16_lossy(&units);
    }
    if n >= 3 && bytes[0] == 0xEF && bytes[1] == 0xBB && bytes[2] == 0xBF {
        let mut rest: Vec<u8> = Vec::new();
        let mut i: usize = 3;
        while i < n
            invariant
                n == bytes@.len(),
                3 <= i <= n,
                rest@ == bytes@.subrange(3, i as int),
            decreases n - i,
        {
            rest.push(bytes[i]);
            i = i + 1;
            assert(rest@ =~= bytes@.subrange(3, i as int));
        }
        return utf8_lossy(&rest);
    }
    utf8_lossy(bytes)
}

// ───────────────────────── services and power locks ─────────────────────────

/// `s` without every leading `p` (`trim_start_matches` with a text).
pub open spec fn strip_prefixes(s: Seq<char>, p: Seq<char>) -> Seq<char>
    decreases s.len(),
{
    if p.len() > 0 && has_prefix(s, p) {
        strip_prefixes(s.subrange(p.len() as int, s.len() as int), p)
    } else {
        s
    }
}

fn strip_prefixes_exec(s: &Vec<char>, p: &Vec<char>) -> (r: Vec<char>)
    ensures
        r@ == strip_prefixes(s@, p@),
    decreases s@.len(),
{
    if p.len() > 0 && starts_with(s, p) {
        let rest = slice_vec(s, p.len(), s.len());
        strip_prefixes_exec(&rest, p)
    } else {
        let mut r: Vec<char> = Vec::new();
        append_vec(&mut r, s);
        assert(r@ =~= s@);
        r
    }
}

/// The start type that one line of `reg query … /v Start` shows, if it shows one.
pub open spec fn start_line_value(raw: Seq<char>) -> Option<u32> {
    let line = trim(raw);
    let ws = split_when(line, ws_sep()).filter(nonempty_word());
    if has_sub(line, "Start"@) && has_sub(line, "REG_DWORD"@) && ws.len() > 0 {
        crate::text::parse_hex_u32_spec(strip_prefixes(ws.last(), "0x"@))
    } else {
        None
    }
}

/// The first start type that the lines of `reg query` output show.
pub open spec fn start_value_spec(lines: Seq<Seq<char>>) -> Option<u32>
    decreases lines.len(),
{
    if lines.len() == 0 {
        None
    } else {
        match start_line_value(lines[0]) {
            Some(v) => Some(v),
            None => start_value_spec(lines.drop_first()),
        }
    }
}

/// The start type of a service from `reg query … /v Start` output: the
/// hexadecimal number at the end of the first `Start … REG_DWORD …` line that
/// reads.
pub fn parse_reg_query_start(output: &str) -> (r: Option<u32>)
    ensures
        r == start_value_spec(split_when(output@, nl_sep())),
{
    let v = chars_of(output);
    let kind = SepKind::AnyOf(vec!['\n']);
    let lines = split_vec(&v, &kind);
    assert(kind.pred() =~= nl_sep()) by {
        assert forall|c: char| #[trigger] kind.pred()(c) == nl_sep()(c) by {
            if c == '\n' {
                assert(seq!['\n'][0] == c);
            }
        }
    }
    let ghost lv = views(lines@);
    let n = lines.len();
    let mut i: usize = 0;
    assert(lv.subrange(0, n as int) =~= lv);
    while i < n
        invariant
            n == lines@.len(),
            i <= n,
            lv == views(lines@),
            lv == split_when(output@, nl_sep()),
            start_value_spec(lv) == start_value_spec(lv.subrange(i as int, n as int)),
        decreases n - i,
    {
        let ghost sub = lv.subrange(i as int, n as int);
        assert(sub[0] == lines@[i as int]@);
        assert(sub.drop_first() =~= lv.subrange(i + 1, n as int));
        let line = trim_vec(&lines[i]);
        if contains_sub(&line, &chars_of("Start")) && contains_sub(&line, &chars_of("REG_DWORD")) {
            let ls = string_from_chars(&line);
            let ws = words_exec(ls.as_str());
            assert(trim(lines@[i as int]@) == line@);
            if ws.len() > 0 {
                assert(views(ws@).last() == ws@[ws@.len() - 1]@);
                let last = strip_prefixes_exec(&ws[ws.len() - 1], &chars_of("0x"));
                match crate::text::parse_hex_u32(&last) {
                    Some(val) => {
                        return Some(val);
                    },
                    None => {},
                }
            }
        }
        i = i + 1;
    }
    None
}

/// How far Windows Update is switched off.
pub struct UpdateState {
    pub services_disabled: bool,
    pub policy_set: bool,
    pub scheduler_disabled: bool,
    pub dlls_renamed: bool,
    pub all_disabled: bool,
}

/// Whether one update library was renamed away: its backup is there and it
/// is not.
pub fn dll_renamed(backup_exists: bool, dll_exists: bool) -> (b: bool)
    ensures
        b == (backup_exists && !dll_exists),
{
    backup_exists && !dll_exists
}

/// How far Windows Update is switched off, from the start types of its three
/// services, the `NoAutoUpdate` policy value, the scheduler state and the
/// renamed libraries.  It counts as off only with all three services disabled
/// (start type 4) and the libraries renamed.
pub fn windows_update_state(
    wuauserv: Option<u32>,
    uso_svc: Option<u32>,
    waas_medic: Option<u32>,
    no_auto_update: Option<u32>,
    scheduler_disabled: bool,
    dlls_renamed: bool,
) -> (r: UpdateState)
    ensures
        r.services_disabled == (wuauserv == Some(4u32) && uso_svc == Some(4u32) && waas_medic == Some(4u32)),
        r.policy_set == (no_auto_update == Some(1u32)),
        r.scheduler_disabled == scheduler_disabled,
        r.dlls_renamed == dlls_renamed,
        r.all_disabled == (r.services_disabled && dlls_renamed),
{
    let services_disabled = wuauserv == Some(4u32) && uso_svc == Some(4u32) && waas_medic == Some(4u32);
    UpdateState {
        services_disabled,
        policy_set: no_auto_update == Some(1u32),
        scheduler_disabled,
        dlls_renamed,
        all_disabled: services_disabled && dlls_renamed,
    }
}

/// Whether a laptop's power plans are locked by its vendor, from
/// `PlatformAoAcOverride`.
pub struct LaptopPowerLockStatus {
    pub unlocked: bool,
    pub value: Option<u32>,
}

/// The lock status for the registry value: unlocked when it is 0.
pub fn laptop_power_lock_status(value: Option<u32>) -> (r: LaptopPowerLockStatus)
    ensures
        r.unlocked == (value == Some(0u32)),
        r.value == value,
{
    LaptopPowerLockStatus { unlocked: value == Some(0u32), value }
}

/// `Option<u32>` as `{:?}` prints it.
pub open spec fn debug_opt_u32(v: Option<u32>) -> Seq<char> {
    match v {
        Some(n) => "Some("@ + decimal(n as nat) + ")"@,
        None => "None"@,
    }
}

/// The outcome of unlocking, from the value read back afterwards.
pub fn unlock_outcome(read_back: Option<u32>) -> (r: Result<LaptopPowerLockStatus, String>)
    ensures
        read_back == Some(0u32) ==> r is Ok && r->Ok_0.unlocked && r->Ok_0.value == Some(0u32),
        read_back != Some(0u32) ==> r is Err && r->Err_0@ == "解锁未生效（当前注册表值: "@ + debug_opt_u32(read_back)
            + "）。请以管理员身份运行 NexBox 后重试"@,
{
    match read_back {
        Some(n) => {
            if n == 0 {
                return Ok(LaptopPowerLockStatus { unlocked: true, value: Some(0) });
            }
            let mut v = chars_of("解锁未生效（当前注册表值: ");
            append_str(&mut v, "Some(");
            push_decimal(&mut v, n as u64);
            append_str(&mut v, ")");
            append_str(&mut v, "）。请以管理员身份运行 NexBox 后重试");
            Err(string_from_chars(&v))
        },
        None => Err(concat3("解锁未生效（当前注册表值: ", "None", "）。请以管理员身份运行 NexBox 后重试")),
    }
}

// ───────────────────────── laws ─────────────────────────

/// What a line gives as its GUID is a GUID.
pub proof fn law_found_guid_is_guid(line: Seq<char>)
    requires
        guid_in_line(line) is Some,
    ensures
        is_guid(guid_in_line(line)->0),
{
    lemma_first_guid(split_when(line, ws_sep()));
}

proof fn lemma_first_guid(words: Seq<Seq<char>>)
    ensures
        first_guid(words) is Some ==> is_guid(first_guid(words)->0),
    decreases words.len(),
{
    if words.len() > 0 {
        lemma_first_guid(words.drop_first());
    }
}

/// The suggested page file never starts below 1 GiB, and its maximum is never
/// below its start.
pub proof fn law_suggested_sizes_sane(p: u64)
    ensures
        suggested_spec(p).0 >= 1024,
        suggested_spec(p).1 >= suggested_spec(p).0,
{
}

/// The suggested page file by band of physical memory `p` (MB): below 8 GiB
/// it starts at one and a half times memory (at least 1 GiB) and may grow to
/// three times memory; from 8 GiB to below 16 GiB it starts at memory and may
/// grow to twice memory; from 16 GiB on it starts at half of memory and may
/// grow to memory.
pub proof fn law_suggested_sizes_by_band(p: u64)
    ensures
        342 <= p < 8192 ==> suggested_spec(p).1 == 3 * p && suggested_spec(p).0 == if 3 * p / 2 < 1024 { 1024 } else { 3 * p / 2 },
        8192 <= p < 16384 ==> suggested_spec(p).0 == p && suggested_spec(p).1 == 2 * p,
        16384 <= p ==> 2 * suggested_spec(p).0 <= p && p <= 2 * suggested_spec(p).0 + 1 && suggested_spec(p).1 == p,
{
}

/// The verdict on the current page file `current` judged against physical
/// memory `p`: `high` exactly when it exceeds one and a half times the
/// suggested maximum, `low` exactly when it falls short of half the suggested
/// start by at least a megabyte, else `ok`.  So from 8 GiB to below 16 GiB of
/// memory, a page file between half and three times memory is judged `ok`.
pub proof fn law_verdict_bounds(p: u64, current: u64)
    ensures
        verdict_spec(p, current) == "high"@ <==> 2 * current > 3 * suggested_spec(p).1
            && !(2 * current + 1 < suggested_spec(p).0),
        verdict_spec(p, current) == "low"@ <==> 2 * current + 1 < suggested_spec(p).0,
        (8192 <= p < 16384 && p / 2 <= current <= 3 * p) ==> verdict_spec(p, current) == "ok"@,
{
    reveal_strlit("low");
    reveal_strlit("high");
    reveal_strlit("ok");
    let (i, m) = suggested_spec(p);
    let c = current as int;
    assert(i >= 0 && m >= 0);
    assert(c > m * 3 / 2 <==> 2 * c > 3 * m) by (nonlinear_arith)
        requires
            m >= 0,
            c >= 0,
    ;
    assert(c < i / 2 <==> 2 * c + 1 < i) by (nonlinear_arith)
        requires
            i >= 0,
            c >= 0,
    ;
    assert("low"@ != "high"@ && "ok"@ != "high"@ && "ok"@ != "low"@) by {
        assert("low"@.len() != "high"@.len());
        assert("ok"@.len() != "high"@.len());
        assert("ok"@.len() != "low"@.len());
    }
}

/// Keyed by `k`.
pub open spec fn keyed_by(k: Seq<char>) -> spec_fn(Keyed) -> bool {
    |e: Keyed| e.0 == k
}

proof fn lemma_filter_disjoint(s: Seq<Keyed>, k: Seq<char>, dk: Seq<char>)
    requires
        k != dk,
    ensures
        s.filter(other_drive(dk)).filter(keyed_by(k)) == s.filter(keyed_by(k)),
    decreases s.len(),
{
    reveal_with_fuel(Seq::filter, 1);
    if s.len() > 0 {
        lemma_filter_disjoint(s.drop_last(), k, dk);
        let a = s.drop_last().filter(other_drive(dk));
        if other_drive(dk)(s.last()) {
            assert(s.filter(other_drive(dk)) == a.push(s.last()));
            assert(a.push(s.last()).drop_last() =~= a);
        } else {
            assert(s.filter(other_drive(dk)) == a);
        }
    }
}

/// A page file request leaves the entries of every drive it does not name as
/// they were, in their order.
pub proof fn law_merge_keeps_other_drives(existing: Seq<Keyed>, ds: Seq<PagefileDriveView>, k: Seq<char>)
    requires
        forall|i: int| 0 <= i < ds.len() ==> spec_to_uppercase(#[trigger] ds[i].drive) != k,
    ensures
        merged_spec(existing, ds).filter(keyed_by(k)) == existing.filter(keyed_by(k)),
    decreases ds.len(),
{
    if ds.len() > 0 {
        let d = ds.last();
        let dk = spec_to_uppercase(d.drive);
        assert(ds[ds.len() - 1] == d);
        assert forall|i: int| 0 <= i < ds.drop_last().len() implies spec_to_uppercase(#[trigger] ds.drop_last()[i].drive) != k by {
            assert(ds.drop_last()[i] == ds[i]);
        }
        law_merge_keeps_other_drives(existing, ds.drop_last(), k);
        let prev = merged_spec(existing, ds.drop_last());
        let kept = prev.filter(other_drive(dk));
        Seq::filter_distributes_over_add(kept, new_entry(d), keyed_by(k));
        lemma_filter_disjoint(prev, k, dk);
        let ne = new_entry(d);
        reveal_with_fuel(Seq::filter, 2);
        if ne.len() == 1 {
            assert(ne.drop_last() =~= Seq::<Keyed>::empty());
            assert(!keyed_by(k)(ne[0]));
            assert(ne.filter(keyed_by(k)) =~= Seq::<Keyed>::empty());
        } else {
            assert(ne =~= Seq::<Keyed>::empty());
        }
        assert(kept.filter(keyed_by(k)) + ne.filter(keyed_by(k)) =~= kept.filter(keyed_by(k)));
    }
}

} // verus!
