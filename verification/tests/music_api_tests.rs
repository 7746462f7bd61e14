use nexbox::music_api::login_query_needed;
use nexbox::music_api::models::LoginInfo;
use nexbox::music_api::{
    build_cookie_from_webview, host_should_close, is_kugou_domain, is_login_popup_label,
    is_migu_domain, is_netease_domain, is_qishui_domain, is_qq_domain, login_popup_label,
    music_get_login_statuses, music_get_playback_source, music_open_login_window,
    music_switch_provider, parse_provider, provider_name, CookieCache, LoginPoll, MiguUidStep,
    MusicProvider, PollAction, PollTimeout, ProfileCache, ProviderCookies, WebCookie,
};
use nexbox::settings::SettingValue;

fn cookie(name: &str, value: &str, domain: &str) -> WebCookie {
    WebCookie { name: name.to_string(), value: value.to_string(), domain: Some(domain.to_string()) }
}

fn info(provider: &str, nick: &str, logged_in: bool) -> LoginInfo {
    LoginInfo {
        provider: provider.to_string(),
        logged_in,
        user_id: "1".to_string(),
        nickname: nick.to_string(),
        avatar: String::new(),
        vip_type: 0,
        vip_level: String::new(),
        is_vip: false,
        is_svip: false,
    }
}

#[test]
fn cookie_domains_belong_to_their_provider() {
    assert!(is_netease_domain(".music.163.com"));
    assert!(is_netease_domain("NETEASE.com"));
    assert!(!is_netease_domain("evil163.com"));
    assert!(is_kugou_domain(".kugou.com"));
    assert!(is_qq_domain("y.qq.com"));
    assert!(!is_qq_domain("qqmusic.com"));
    assert!(is_migu_domain("music.migu.cn"));
    assert!(is_qishui_domain("..qishui.com"));
    assert!(!is_qishui_domain("qishui.com.cn"));
}

#[test]
fn cookie_string_puts_priority_names_first_once_each() {
    let cs = vec![
        cookie("NMTID", "n1", ".music.163.com"),
        cookie("other", "o", "music.163.com"),
        cookie("MUSIC_U", "u1", ".163.com"),
        cookie("MUSIC_U", "u2", ".163.com"),
        cookie("foreign", "x", "example.com"),
        cookie("empty", "", ".163.com"),
    ];
    let s = build_cookie_from_webview(&cs, MusicProvider::Netease);
    assert_eq!(s, "MUSIC_U=u2; NMTID=n1; other=o");
}

#[test]
fn host_checks_and_popup_labels() {
    assert!(host_should_close("MUSIC.163.COM"));
    assert!(!host_should_close("graph.qq.com"));
    assert!(!host_should_close("example.com"));
    assert!(!host_should_close("passport.kugou.com"));
    assert!(!host_should_close("Passport.Migu.cn"));
    assert!(host_should_close("www.kugou.com"));
    assert_eq!(login_popup_label(3), "music-login-popup-3");
    assert!(is_login_popup_label("music-login-popup-12"));
    assert!(!is_login_popup_label("main"));
}

#[test]
fn provider_names_read_back() {
    for p in [MusicProvider::Netease, MusicProvider::Kugou, MusicProvider::QqMusic, MusicProvider::Migu, MusicProvider::Qishui] {
        assert!(parse_provider(provider_name(p)) == Some(p));
    }
    assert!(parse_provider("spotify").is_none());
    assert_eq!(music_switch_provider("spotify").err(), Some("Unknown provider: spotify".to_string()));
    assert!(music_switch_provider("migu").is_ok());
    assert_eq!(music_get_playback_source(&None), "netease");
    assert_eq!(music_get_playback_source(&Some(SettingValue::Str("kugou".to_string()))), "kugou");
}

#[test]
fn cookie_cache_read_after_write() {
    let mut c = CookieCache::new();
    c.set_provider_cookie("kugou", "k=1".to_string());
    assert_eq!(c.get_provider_cookie("kugou"), "k=1");
    assert_eq!(c.get_provider_cookie("netease"), "");
    c.set_provider_cookie("nobody", "x".to_string());
    assert_eq!(c.get_provider_cookie("nobody"), "");
    assert_eq!(c.load_provider_cookie("kugou", Some("other".to_string())), "k=1");
    assert_eq!(c.load_provider_cookie("migu", Some("m=2".to_string())), "m=2");
    assert_eq!(c.get_provider_cookie("migu"), "m=2");
    assert_eq!(c.load_provider_cookie("qishui", None), "");
}

#[test]
fn migu_uid_lookup_steps() {
    let mut c = CookieCache::new();
    assert!(matches!(c.load_migu_uid(None), MiguUidStep::Unknown));
    c.set_provider_cookie("migu", "s=1".to_string());
    assert!(matches!(c.load_migu_uid(Some(String::new())), MiguUidStep::Lookup(ref k) if k == "s=1"));
    let uid = c.adopt_migu_login(Some(&info("migu", "m", true)));
    assert_eq!(uid, "1");
    assert!(matches!(c.load_migu_uid(None), MiguUidStep::Known(ref u) if u == "1"));
    let mut d = CookieCache::new();
    assert!(matches!(d.load_migu_uid(Some("77".to_string())), MiguUidStep::Known(ref u) if u == "77"));
    d.init_cookie_cache(vec![(MusicProvider::Netease, "a".to_string()), (MusicProvider::Netease, "b".to_string())], None);
    assert_eq!(d.get_provider_cookie("netease"), "b");
}

#[test]
fn remembered_profile_is_given_back() {
    let mut cache = ProfileCache { profiles: Vec::new() };
    cache.remember_profile(&info("qishui", "Ann", true));
    cache.remember_profile(&info("kugou", "", true));
    cache.remember_profile(&info("migu", "Bo", false));
    assert_eq!(cache.cached_profile("qishui").map(|i| i.nickname), Some("Ann".to_string()));
    assert!(cache.cached_profile("kugou").is_none());
    assert!(cache.cached_profile("migu").is_none());
    cache.remember_profile(&info("qishui", "Cy", true));
    assert_eq!(cache.profiles.len(), 1);
    assert_eq!(cache.cached_profile("qishui").map(|i| i.nickname), Some("Cy".to_string()));
}

#[test]
fn login_overview_reports_who_answered() {
    let mut cache = ProfileCache { profiles: Vec::new() };
    let cookies = ProviderCookies {
        netease: "MUSIC_U=1".to_string(),
        kugou: String::new(),
        qqmusic: String::new(),
        migu: String::new(),
        qishui: "sessionid=abc".to_string(),
    };
    let r = music_get_login_statuses(&mut cache, &cookies, Some(info("netease", "N", true)), None, None, None, Some(info("qishui", "Q", true)));
    let names: Vec<&str> = r.iter().map(|(n, _)| n.as_str()).collect();
    assert_eq!(names, vec!["netease", "qishui"]);
    assert!(cache.cached_profile("netease").is_some());
    assert!(cache.cached_profile("qishui").is_none());
    // answers of providers that are not asked are not reported
    let unasked = ProviderCookies {
        netease: String::new(),
        kugou: "k=1".to_string(),
        qqmusic: String::new(),
        migu: String::new(),
        qishui: "ttwid=1".to_string(),
    };
    let mut cache2 = ProfileCache { profiles: Vec::new() };
    let r2 = music_get_login_statuses(&mut cache2, &unasked, Some(info("netease", "N", true)), Some(info("kugou", "K", true)), None, None, Some(info("qishui", "Q", true)));
    let names2: Vec<&str> = r2.iter().map(|(n, _)| n.as_str()).collect();
    assert_eq!(names2, vec!["kugou"]);
    assert!(cache2.cached_profile("netease").is_none());
}

#[test]
fn login_windows_and_polls() {
    let plan = music_open_login_window("kugou").unwrap();
    assert_eq!(plan.label, "kugou-login");
    assert!(plan.warmup_url.is_some());
    assert_eq!(music_open_login_window("qishui").err(), Some("Unknown provider: qishui".to_string()));
    let mut poll = LoginPoll::new(MusicProvider::Kugou);
    assert!(matches!(poll.on_cookies("a=1", false, true), PollAction::Warmup));
    assert!(matches!(poll.on_cookies("a=1", false, true), PollAction::Wait));
    assert!(matches!(poll.on_cookies("a=2", true, true), PollAction::Finish(ref c) if c == "a=2"));
    assert!(matches!(poll.on_read_error(false), PollAction::Stop));
    let mut migu = LoginPoll::new(MusicProvider::Migu);
    assert!(matches!(migu.on_cookies("x=1", false, false), PollAction::Validate(_)));
    assert!(matches!(migu.on_cookies("x=1", false, false), PollAction::Wait));
    assert!(matches!(migu.on_timeout("", false), PollTimeout::Fail));
    assert!(!migu.exhausted());
}

#[test]
fn login_window_plans_per_provider() {
    let n = music_open_login_window("netease").unwrap();
    assert_eq!((n.url, n.width, n.height), ("https://music.163.com/#/login", 940, 760));
    assert!(n.warmup_url.is_none());
    let q = music_open_login_window("qqmusic").unwrap();
    assert_eq!(q.warmup_url, Some("https://y.qq.com/n/ryqq/player"));
    assert_eq!(q.title, "QQ 音乐登录");
    assert!(music_open_login_window("nobody").is_err());
    let mut c = CookieCache::new();
    c.set_provider_cookie("migu", "m=1".to_string());
    c.set_provider_cookie("kugou", "k=1".to_string());
    c.adopt_migu_login(Some(&info("migu", "x", true)));
    c.migu_logout();
    assert_eq!(c.get_provider_cookie("migu"), "");
    assert_eq!(c.get_provider_cookie("kugou"), "k=1");
    assert!(matches!(c.load_migu_uid(None), MiguUidStep::Unknown));
}

#[test]
fn login_overview_asks_only_with_a_cookie() {
    assert!(!login_query_needed(MusicProvider::Netease, ""));
    assert!(login_query_needed(MusicProvider::Netease, "MUSIC_U=1"));
    assert!(login_query_needed(MusicProvider::Migu, "x=1"));
    assert!(!login_query_needed(MusicProvider::Qishui, "ttwid=1"));
    assert!(login_query_needed(MusicProvider::Qishui, "ttwid=1; sessionid=abc"));
}
