//! Provider bookkeeping shared by the music integrations: which cookies belong
//! to which provider, how a login cookie string is assembled, when a login
//! popup has finished, and the in-memory cookie and profile caches.

pub mod models;
pub mod migu;
pub mod qishui;

use vstd::prelude::*;
use crate::text::{
    chars_of, string_from_chars, str_to_lowercase, spec_to_lowercase, strip_all_start,
    strip_all_start_vec, has_suffix, ends_with, vec_eq, str_to_string, join_sep, strs,
    join_strings, copy_string, concat2, str_eq, has_prefix, starts_with,
};
use crate::settings::SettingValue;
use self::models::{LoginInfo, LoginInfoView};

verus! {

// ───────────────────────── providers ─────────────────────────

/// The music providers the toolbox talks to.
#[derive(PartialEq, Eq, Structural, Clone, Copy)]
pub enum MusicProvider {
    Netease,
    Kugou,
    QqMusic,
    Migu,
    Qishui,
}

/// The name by which a provider is stored and requested.
pub open spec fn provider_name_spec(p: MusicProvider) -> Seq<char> {
    match p {
        MusicProvider::Netease => "netease"@,
        MusicProvider::Kugou => "kugou"@,
        MusicProvider::QqMusic => "qqmusic"@,
        MusicProvider::Migu => "migu"@,
        MusicProvider::Qishui => "qishui"@,
    }
}

/// The provider a stored name stands for.
pub open spec fn provider_of(s: Seq<char>) -> Option<MusicProvider> {
    if s == "netease"@ {
        Some(MusicProvider::Netease)
    } else if s == "kugou"@ {
        Some(MusicProvider::Kugou)
    } else if s == "qqmusic"@ {
        Some(MusicProvider::QqMusic)
    } else if s == "migu"@ {
        Some(MusicProvider::Migu)
    } else if s == "qishui"@ {
        Some(MusicProvider::Qishui)
    } else {
        None
    }
}

/// The name of a provider.
pub fn provider_name(p: MusicProvider) -> (r: &'static str)
    ensures
        r@ == provider_name_spec(p),
{
    match p {
        MusicProvider::Netease => "netease",
        MusicProvider::Kugou => "kugou",
        MusicProvider::QqMusic => "qqmusic",
        MusicProvider::Migu => "migu",
        MusicProvider::Qishui => "qishui",
    }
}

/// Reads a provider name.
pub fn parse_provider(s: &str) -> (r: Option<MusicProvider>)
    ensures
        r == provider_of(s@),
{
    proof {
        reveal_strlit("netease");
        reveal_strlit("kugou");
        reveal_strlit("qqmusic");
        reveal_strlit("migu");
        reveal_strlit("qishui");
    }
    if str_eq(s, "netease") {
        Some(MusicProvider::Netease)
    } else if str_eq(s, "kugou") {
        Some(MusicProvider::Kugou)
    } else if str_eq(s, "qqmusic") {
        Some(MusicProvider::QqMusic)
    } else if str_eq(s, "migu") {
        Some(MusicProvider::Migu)
    } else if str_eq(s, "qishui") {
        Some(MusicProvider::Qishui)
    } else {
        None
    }
}

/// A provider's stored name reads back as that provider.
pub proof fn law_provider_name_roundtrip(p: MusicProvider)
    ensures
        provider_of(provider_name_spec(p)) == Some(p),
{
    reveal_strlit("netease");
    reveal_strlit("kugou");
    reveal_strlit("qqmusic");
    reveal_strlit("migu");
    reveal_strlit("qishui");
    assert("qqmusic"@[0] != "netease"@[0]);
    assert("kugou"@.len() != "netease"@.len());
    assert("migu"@.len() != "netease"@.len());
    assert("qishui"@.len() != "netease"@.len());
    assert("migu"@.len() != "kugou"@.len());
    assert("qishui"@.len() != "kugou"@.len());
    assert("qishui"@.len() != "qqmusic"@.len());
    assert("migu"@.len() != "qqmusic"@.len());
    assert("qishui"@.len() != "migu"@.len());
}

/// Validates the provider of `music_switch_provider`: a known provider name, or
/// `Unknown provider: <name>`.
pub fn music_switch_provider(provider: &str) -> (r: Result<MusicProvider, String>)
    ensures
        match r {
            Ok(p) => provider_of(provider@) == Some(p),
            Err(e) => provider_of(provider@) is None && e@ == "Unknown provider: "@ + provider@,
        },
{
    match parse_provider(provider) {
        Some(p) => Ok(p),
        None => Err(concat2("Unknown provider: ", provider)),
    }
}

/// The playback source saved under `playback_source`, `netease` when none is.
pub fn music_get_playback_source(stored: &Option<SettingValue>) -> (r: String)
    ensures
        r@ == match *stored {
            Some(SettingValue::Str(s)) => s@,
            _ => "netease"@,
        },
{
    match stored {
        Some(SettingValue::Str(s)) => copy_string(s),
        _ => str_to_string("netease"),
    }
}

// ───────────────────────── cookie domains ─────────────────────────

/// `d` is `base` or a subdomain of it.
pub open spec fn under(d: Seq<char>, base: Seq<char>) -> bool {
    d == base || has_suffix(d, seq!['.'] + base)
}

/// A cookie domain without its leading dots, in lower case.
pub open spec fn domain_key(domain: Seq<char>) -> Seq<char> {
    spec_to_lowercase(strip_all_start(domain, '.'))
}

/// Which provider a cookie domain belongs to.
pub open spec fn domain_of_spec(p: MusicProvider, domain: Seq<char>) -> bool {
    let d = domain_key(domain);
    match p {
        MusicProvider::Netease => under(d, "163.com"@) || under(d, "music.163.com"@) || under(
            d,
            "netease.com"@,
        ),
        MusicProvider::Kugou => under(d, "kugou.com"@),
        MusicProvider::QqMusic => under(d, "qq.com"@) || has_suffix(d, "qqmusic.qq.com"@),
        MusicProvider::Migu => under(d, "migu.cn"@),
        MusicProvider::Qishui => under(d, "qishui.com"@),
    }
}

fn under_exec(d: &Vec<char>, base: &str) -> (b: bool)
    ensures
        b == under(d@, base@),
{
    let bv = chars_of(base);
    if vec_eq(d, &bv) {
        return true;
    }
    let mut dotted: Vec<char> = Vec::new();
    dotted.push('.');
    crate::text::append_str(&mut dotted, base);
    assert(dotted@ =~= seq!['.'] + base@);
    ends_with(d, &dotted)
}

fn domain_key_exec(domain: &str) -> (r: Vec<char>)
    ensures
        r@ == domain_key(domain@),
{
    let v = chars_of(domain);
    let stripped = strip_all_start_vec(&v, '.');
    let s = string_from_chars(&stripped);
    let lower = str_to_lowercase(s.as_str());
    chars_of(lower.as_str())
}

/// Whether a cookie domain belongs to `p`.
pub fn domain_of(p: MusicProvider, domain: &str) -> (b: bool)
    ensures
        b == domain_of_spec(p, domain@),
{
    let d = domain_key_exec(domain);
    match p {
        MusicProvider::Netease => under_exec(&d, "163.com") || under_exec(&d, "music.163.com")
            || under_exec(&d, "netease.com"),
        MusicProvider::Kugou => under_exec(&d, "kugou.com"),
        MusicProvider::QqMusic => {
            let tail = chars_of("qqmusic.qq.com");
            under_exec(&d, "qq.com") || ends_with(&d, &tail)
        },
        MusicProvider::Migu => under_exec(&d, "migu.cn"),
        MusicProvider::Qishui => under_exec(&d, "qishui.com"),
    }
}

/// Whether a cookie domain belongs to NetEase Cloud Music.
pub fn is_netease_domain(domain: &str) -> (b: bool)
    ensures
        b == domain_of_spec(MusicProvider::Netease, domain@),
{
    domain_of(MusicProvider::Netease, domain)
}

/// Whether a cookie domain belongs to Kugou.
pub fn is_kugou_domain(domain: &str) -> (b: bool)
    ensures
        b == domain_of_spec(MusicProvider::Kugou, domain@),
{
    domain_of(MusicProvider::Kugou, domain)
}

/// Whether a cookie domain belongs to QQ Music.
pub fn is_qq_domain(domain: &str) -> (b: bool)
    ensures
        b == domain_of_spec(MusicProvider::QqMusic, domain@),
{
    domain_of(MusicProvider::QqMusic, domain)
}

/// Whether a cookie domain belongs to Migu.
pub fn is_migu_domain(domain: &str) -> (b: bool)
    ensures
        b == domain_of_spec(MusicProvider::Migu, domain@),
{
    domain_of(MusicProvider::Migu, domain)
}

/// Whether a cookie domain belongs to Qishui.
pub fn is_qishui_domain(domain: &str) -> (b: bool)
    ensures
        b == domain_of_spec(MusicProvider::Qishui, domain@),
{
    domain_of(MusicProvider::Qishui, domain)
}

// ───────────────────────── login popups ─────────────────────────

/// The host of a URL, as the `url` crate parses it; `None` where the text does
/// not parse or has no host.
pub uninterp spec fn spec_url_host(url: Seq<char>) -> Option<Seq<char>>;

/// `url::Url::parse` followed by `Url::host_str`.  The contract only names the
/// result; what a host is, is left to the `url` crate.
#[verifier::external_body]
fn url_host(url: &str) -> (r: Option<String>)
    ensures
        self::models::ov(r) == spec_url_host(url@),
{
    match url::Url::parse(url) {
        Ok(u) => match u.host_str() {
            Some(h) => Some(h.to_string()),
            None => None,
        },
        Err(_) => None,
    }
}

/// A host that still belongs to a third-party sign-in flow: one of the
/// sign-in domains or a subdomain of it, or any `passport.` host.
pub open spec fn third_party_host(h: Seq<char>) -> bool {
    has_prefix(h, "passport."@) ||
    under(h, "graph.qq.com"@) || under(h, "open.weixin.qq.com"@) || under(h, "api.weibo.com"@)
        || under(h, "ptlogin2.qq.com"@) || under(h, "xui.ptlogin2.qq.com"@) || under(
        h,
        "openapi.weibo.com"@,
    ) || under(h, "passport."@)
}

/// A host of one of the music platforms.
pub open spec fn platform_host(h: Seq<char>) -> bool {
    under(h, "163.com"@) || under(h, "kugou.com"@) || under(h, "kugoucdn.com"@) || under(
        h,
        "qq.com"@,
    ) || under(h, "migu.cn"@) || under(h, "migucdn.com"@)
}

/// A popup on this host has come back to the platform: the sign-in is done.
pub open spec fn host_should_close_spec(host: Seq<char>) -> bool {
    let h = spec_to_lowercase(host);
    !third_party_host(h) && platform_host(h)
}

/// Whether a login popup that has loaded a page on `host` can close.
pub fn host_should_close(host: &str) -> (b: bool)
    ensures
        b == host_should_close_spec(host@),
{
    let lower = str_to_lowercase(host);
    let h = chars_of(lower.as_str());
    if under_exec(&h, "graph.qq.com") || under_exec(&h, "open.weixin.qq.com") || under_exec(
        &h,
        "api.weibo.com",
    ) || under_exec(&h, "ptlogin2.qq.com") || under_exec(&h, "xui.ptlogin2.qq.com")
        || under_exec(&h, "openapi.weibo.com") || under_exec(&h, "passport.") || starts_with(
        &h,
        &chars_of("passport."),
    ) {
        return false;
    }
    under_exec(&h, "163.com") || under_exec(&h, "kugou.com") || under_exec(&h, "kugoucdn.com")
        || under_exec(&h, "qq.com") || under_exec(&h, "migu.cn") || under_exec(&h, "migucdn.com")
}

/// Whether a login popup that has loaded `url` has finished the third-party
/// sign-in: it has come back to a platform host.  A URL without a host never
/// closes the popup.
pub fn login_popup_should_close(url: &str) -> (b: bool)
    ensures
        b == match spec_url_host(url@) {
            Some(h) => host_should_close_spec(h),
            None => false,
        },
{
    match url_host(url) {
        Some(h) => host_should_close(h.as_str()),
        None => false,
    }
}

/// The label prefix of the popups that login windows open.
pub const LOGIN_POPUP_PREFIX: &'static str = "music-login-popup-";

/// The label of the `seq`-th login popup.
pub fn login_popup_label(seq: u32) -> (r: String)
    ensures
        r@ == LOGIN_POPUP_PREFIX@ + crate::text::decimal(seq as nat),
{
    let mut v = chars_of(LOGIN_POPUP_PREFIX);
    crate::text::push_decimal(&mut v, seq as u64);
    string_from_chars(&v)
}

/// Whether a window is a leftover login popup, closed with its login window.
pub fn is_login_popup_label(label: &str) -> (b: bool)
    ensures
        b == crate::text::has_prefix(label@, LOGIN_POPUP_PREFIX@),
{
    let l = chars_of(label);
    let p = chars_of(LOGIN_POPUP_PREFIX);
    crate::text::starts_with(&l, &p)
}

// ───────────────────────── login cookie strings ─────────────────────────

/// A cookie as a login window's web view reports it.
pub struct WebCookie {
    pub name: String,
    pub value: String,
    pub domain: Option<String>,
}

/// The names of a list of string literals.
pub open spec fn key_views(ks: Seq<&str>) -> Seq<Seq<char>> {
    ks.map_values(|k: &str| k@)
}

/// The cookies of each provider that go first in its cookie string, in order.
pub open spec fn cookie_priority_spec(p: MusicProvider) -> Seq<Seq<char>> {
    match p {
        MusicProvider::Netease => seq![
            "MUSIC_U"@, "__csrf"@, "NMTID"@, "MUSIC_A"@, "__remember_me"@, "_ntes_nuid"@,
            "_ntes_nnid"@, "WEVNSM"@, "WNMCID"@, "JSESSIONID-WYYY"@,
        ],
        MusicProvider::Kugou => seq![
            "KuGoo"@, "token"@, "userid"@, "KugooID"@, "kugouID"@, "UserId"@, "kg_mid"@,
            "kg_dfid"@, "Kugou"@, "NickName"@,
        ],
        MusicProvider::QqMusic => seq![
            "uin"@, "qqmusic_uin"@, "wxuin"@, "login_type"@, "qm_keyst"@, "qqmusic_key"@,
            "p_skey"@, "skey"@, "psrf_qqopenid"@, "psrf_qqunionid"@, "psrf_qqaccess_token"@,
            "psrf_qqrefresh_token"@, "wxopenid"@, "wxunionid"@, "wxrefresh_token"@, "wxskey"@,
            "p_uin"@, "ptcz"@, "RK"@,
        ],
        MusicProvider::Migu => seq![
            "MUSIC_SESSION"@, "migu_cookie_id"@, "ESAFEID"@, "mtfk"@, "P_CID"@,
            "migu_music_tail"@, "migu_userid"@, "SSON"@,
        ],
        MusicProvider::Qishui => seq![
            "sessionid"@, "sessionid_ss"@, "sid_guard"@, "sid_tt"@, "sessionid_cross_app"@,
            "sessionid_ss_cross_app"@, "sid_guard_cross_app"@, "sid_tt_cross_app"@, "odin_tt"@,
            "passport_csrf_token"@, "passport_auth_status"@, "passport_auth_status_ss"@,
            "sid_uc"@, "uid_tt"@, "uid_tt_ss"@, "ttwid"@,
        ],
    }
}

/// The cookie names of `p` that go first, in order.
pub fn cookie_priority(p: MusicProvider) -> (r: Vec<&'static str>)
    ensures
        key_views(r@) == cookie_priority_spec(p),
{
    let r: Vec<&'static str> = match p {
        MusicProvider::Netease => vec![
            "MUSIC_U", "__csrf", "NMTID", "MUSIC_A", "__remember_me", "_ntes_nuid",
            "_ntes_nnid", "WEVNSM", "WNMCID", "JSESSIONID-WYYY",
        ],
        MusicProvider::Kugou => vec![
            "KuGoo", "token", "userid", "KugooID", "kugouID", "UserId", "kg_mid", "kg_dfid",
            "Kugou", "NickName",
        ],
        MusicProvider::QqMusic => vec![
            "uin", "qqmusic_uin", "wxuin", "login_type", "qm_keyst", "qqmusic_key", "p_skey",
            "skey", "psrf_qqopenid", "psrf_qqunionid", "psrf_qqaccess_token",
            "psrf_qqrefresh_token", "wxopenid", "wxunionid", "wxrefresh_token", "wxskey",
            "p_uin", "ptcz", "RK",
        ],
        MusicProvider::Migu => vec![
            "MUSIC_SESSION", "migu_cookie_id", "ESAFEID", "mtfk", "P_CID", "migu_music_tail",
            "migu_userid", "SSON",
        ],
        MusicProvider::Qishui => vec![
            "sessionid", "sessionid_ss", "sid_guard", "sid_tt", "sessionid_cross_app",
            "sessionid_ss_cross_app", "sid_guard_cross_app", "sid_tt_cross_app", "odin_tt",
            "passport_csrf_token", "passport_auth_status", "passport_auth_status_ss", "sid_uc",
            "uid_tt", "uid_tt_ss", "ttwid",
        ],
    };
    assert(key_views(r@) =~= cookie_priority_spec(p));
    r
}

/// A name and a value.
pub type Pair = (Seq<char>, Seq<char>);

/// The position of the entry named `k`, or -1.
pub open spec fn key_index(m: Seq<Pair>, k: Seq<char>) -> int
    decreases m.len(),
{
    if m.len() == 0 {
        -1
    } else if m.last().0 == k {
        m.len() - 1
    } else {
        key_index(m.drop_last(), k)
    }
}

/// Sets the value of `k`, keeping its place, or adds it at the end.
pub open spec fn upsert(m: Seq<Pair>, k: Seq<char>, v: Seq<char>) -> Seq<Pair> {
    let i = key_index(m, k);
    if i >= 0 {
        m.update(i, (k, v))
    } else {
        m.push((k, v))
    }
}

/// A cookie that a provider's cookie string takes.
pub open spec fn takes_cookie(p: MusicProvider, c: WebCookie) -> bool {
    match c.domain {
        Some(d) => domain_of_spec(p, d@) && c.name@.len() > 0 && c.value@.len() > 0,
        None => false,
    }
}

/// The cookies a provider's string takes, by name, the last value of each name
/// winning, in the order their names first came.
pub open spec fn picked_cookies(cs: Seq<WebCookie>, p: MusicProvider) -> Seq<Pair>
    decreases cs.len(),
{
    if cs.len() == 0 {
        Seq::empty()
    } else {
        let m = picked_cookies(cs.drop_last(), p);
        let c = cs.last();
        if takes_cookie(p, c) {
            upsert(m, c.name@, c.value@)
        } else {
            m
        }
    }
}

/// The value of the entry named `k`.
pub open spec fn pair_value(m: Seq<Pair>, k: Seq<char>) -> Option<Seq<char>> {
    let i = key_index(m, k);
    if i >= 0 {
        Some(m[i].1)
    } else {
        None
    }
}

/// The entries named in `prio`, in its order.
pub open spec fn priority_part(prio: Seq<Seq<char>>, m: Seq<Pair>) -> Seq<Pair>
    decreases prio.len(),
{
    if prio.len() == 0 {
        Seq::empty()
    } else {
        let rest = priority_part(prio.drop_last(), m);
        match pair_value(m, prio.last()) {
            Some(v) => rest.push((prio.last(), v)),
            None => rest,
        }
    }
}

/// The entries not named in `prio`, in their order.
pub open spec fn other_part(prio: Seq<Seq<char>>, m: Seq<Pair>) -> Seq<Pair>
    decreases m.len(),
{
    if m.len() == 0 {
        Seq::empty()
    } else {
        let rest = other_part(prio, m.drop_last());
        if prio.contains(m.last().0) {
            rest
        } else {
            rest.push(m.last())
        }
    }
}

/// `name=value` for each entry.
pub open spec fn pair_texts(m: Seq<Pair>) -> Seq<Seq<char>> {
    Seq::new(m.len(), |i: int| m[i].0 + "="@ + m[i].1)
}

/// The cookie string of a provider: its priority cookies first, in priority
/// order, then the others, each `name=value`, joined with `; `.
pub open spec fn cookie_string_spec(cs: Seq<WebCookie>, p: MusicProvider) -> Seq<char> {
    let m = picked_cookies(cs, p);
    let prio = cookie_priority_spec(p);
    join_sep(pair_texts(priority_part(prio, m) + other_part(prio, m)), "; "@)
}

/// The views of a list of string pairs.
pub open spec fn pair_views(v: Seq<(String, String)>) -> Seq<Pair> {
    Seq::new(v.len(), |i: int| (v[i].0@, v[i].1@))
}

fn find_key(m: &Vec<(String, String)>, k: &String) -> (r: Option<usize>)
    ensures
        match r {
            Some(i) => i < m@.len() && key_index(pair_views(m@), k@) == i,
            None => key_index(pair_views(m@), k@) == -1,
        },
{
    let ghost pv = pair_views(m@);
    let mut i: usize = m.len();
    assert(pv.subrange(0, i as int) =~= pv);
    while i > 0
        invariant
            i <= m@.len(),
            pv == pair_views(m@),
            key_index(pv, k@) == key_index(pv.subrange(0, i as int), k@),
        decreases i,
    {
        let ghost sub = pv.subrange(0, i as int);
        assert(sub.drop_last() =~= pv.subrange(0, i - 1));
        if m[i - 1].0 == *k {
            return Some(i - 1);
        }
        i = i - 1;
    }
    None
}

proof fn lemma_key_index_range(m: Seq<Pair>, k: Seq<char>)
    ensures
        -1 <= key_index(m, k) < m.len(),
        key_index(m, k) >= 0 ==> m[key_index(m, k)].0 == k,
    decreases m.len(),
{
    if m.len() > 0 {
        lemma_key_index_range(m.drop_last(), k);
    }
}

fn take_cookie(p: MusicProvider, c: &WebCookie) -> (b: bool)
    ensures
        b == takes_cookie(p, *c),
{
    match &c.domain {
        Some(d) => domain_of(p, d.as_str()) && !crate::text::str_is_empty(c.name.as_str()) && !crate::text::str_is_empty(c.value.as_str()),
        None => false,
    }
}

/// Picks the cookies of `p`, by name.
fn pick_cookies(cookies: &Vec<WebCookie>, p: MusicProvider) -> (r: Vec<(String, String)>)
    ensures
        pair_views(r@) == picked_cookies(cookies@, p),
{
    let mut m: Vec<(String, String)> = Vec::new();
    let mut i: usize = 0;
    while i < cookies.len()
        invariant
            i <= cookies@.len(),
            pair_views(m@) == picked_cookies(cookies@.subrange(0, i as int), p),
        decreases cookies.len() - i,
    {
        let ghost pre = cookies@.subrange(0, i + 1);
        assert(pre.drop_last() =~= cookies@.subrange(0, i as int));
        let c = &cookies[i];
        if take_cookie(p, c) {
            let ghost old_m = pair_views(m@);
            match find_key(&m, &c.name) {
                Some(k) => {
                    proof {
                        lemma_key_index_range(old_m, c.name@);
                    }
                    m.set(k, (copy_string(&c.name), copy_string(&c.value)));
                    assert(pair_views(m@) =~= old_m.update(k as int, (c.name@, c.value@)));
                },
                None => {
                    m.push((copy_string(&c.name), copy_string(&c.value)));
                    assert(pair_views(m@) =~= old_m.push((c.name@, c.value@)));
                },
            }
        }
        i = i + 1;
    }
    assert(cookies@.subrange(0, cookies@.len() as int) =~= cookies@);
    m
}

fn prio_contains(prio: &Vec<&'static str>, k: &String) -> (b: bool)
    ensures
        b == key_views(prio@).contains(k@),
{
    let mut i: usize = 0;
    while i < prio.len()
        invariant
            i <= prio@.len(),
            forall|j: int| 0 <= j < i ==> key_views(prio@)[j] != k@,
        decreases prio.len() - i,
    {
        if str_eq(prio[i], k.as_str()) {
            assert(key_views(prio@)[i as int] == k@);
            return true;
        }
        i = i + 1;
    }
    false
}

/// Builds the cookie string of `p` from what a login window's web view holds.
pub fn build_cookie_from_webview(cookies: &Vec<WebCookie>, p: MusicProvider) -> (r: String)
    ensures
        r@ == cookie_string_spec(cookies@, p),
{
    let m = pick_cookies(cookies, p);
    let prio = cookie_priority(p);
    let ghost mv = pair_views(m@);
    let ghost pv = key_views(prio@);
    let mut texts: Vec<String> = Vec::new();
    let mut i: usize = 0;
    while i < prio.len()
        invariant
            i <= prio@.len(),
            mv == pair_views(m@),
            pv == key_views(prio@),
            strs(texts@) == pair_texts(priority_part(pv.subrange(0, i as int), mv)),
        decreases prio.len() - i,
    {
        let ghost pre = pv.subrange(0, i + 1);
        assert(pre.drop_last() =~= pv.subrange(0, i as int));
        let key = str_to_string(prio[i]);
        match find_key(&m, &key) {
            Some(k) => {
                let mut t = chars_of(prio[i]);
                crate::text::append_str(&mut t, "=");
                crate::text::append_str(&mut t, m[k].1.as_str());
                let ghost before = priority_part(pv.subrange(0, i as int), mv);
                assert(pv[i as int] == prio@[i as int]@);
                assert(t@ == pv[i as int] + "="@ + mv[k as int].1);
                let ghost old_texts = strs(texts@);
                let st = string_from_chars(&t);
                texts.push(st);
                assert(strs(texts@) =~= old_texts.push(st@));
                assert(pair_texts(before.push((pv[i as int], mv[k as int].1))) =~= pair_texts(before).push(st@));
            },
            None => {},
        }
        i = i + 1;
    }
    assert(pv.subrange(0, prio@.len() as int) =~= pv);
    let ghost first = priority_part(pv, mv);
    let mut j: usize = 0;
    while j < m.len()
        invariant
            j <= m@.len(),
            mv == pair_views(m@),
            pv == key_views(prio@),
            first == priority_part(pv, mv),
            strs(texts@) == pair_texts(first + other_part(pv, mv.subrange(0, j as int))),
        decreases m.len() - j,
    {
        let ghost pre = mv.subrange(0, j + 1);
        assert(pre.drop_last() =~= mv.subrange(0, j as int));
        if !prio_contains(&prio, &m[j].0) {
            let mut t = chars_of(m[j].0.as_str());
            crate::text::append_str(&mut t, "=");
            crate::text::append_str(&mut t, m[j].1.as_str());
            let ghost before = first + other_part(pv, mv.subrange(0, j as int));
            assert(t@ == mv[j as int].0 + "="@ + mv[j as int].1);
            let ghost old_texts = strs(texts@);
            let st = string_from_chars(&t);
            texts.push(st);
            assert(strs(texts@) =~= old_texts.push(st@));
            assert(pair_texts(before.push(mv[j as int])) =~= pair_texts(before).push(st@));
            assert(first + other_part(pv, pre) =~= before.push(mv[j as int]));
        } else {
            assert(first + other_part(pv, pre) =~= first + other_part(pv, mv.subrange(0, j as int)));
        }
        j = j + 1;
    }
    assert(mv.subrange(0, m@.len() as int) =~= mv);
    join_strings(&texts, "; ")
}

// ───────────────────────── cookie cache ─────────────────────────

/// The cookies of each provider kept in memory, with Migu's user id, which its
/// playback requests carry.
pub struct CookieCache {
    pub netease: String,
    pub kugou: String,
    pub qqmusic: String,
    pub migu: String,
    pub qishui: String,
    pub migu_uid: String,
}

/// The cookie held for `p`.
pub open spec fn cookie_of(c: CookieCache, p: MusicProvider) -> Seq<char> {
    match p {
        MusicProvider::Netease => c.netease@,
        MusicProvider::Kugou => c.kugou@,
        MusicProvider::QqMusic => c.qqmusic@,
        MusicProvider::Migu => c.migu@,
        MusicProvider::Qishui => c.qishui@,
    }
}

/// The cookie held under a provider name; empty for an unknown name.
pub open spec fn cookie_named(c: CookieCache, name: Seq<char>) -> Seq<char> {
    match provider_of(name) {
        Some(p) => cookie_of(c, p),
        None => Seq::empty(),
    }
}

/// `c2` holds `cookie` for the provider named `name` and otherwise what `c1` holds.
pub open spec fn cookie_set_rel(c1: CookieCache, c2: CookieCache, name: Seq<char>, cookie: Seq<char>) -> bool {
    &&& c2.migu_uid@ == c1.migu_uid@
    &&& forall|q: MusicProvider| #[trigger] cookie_of(c2, q) == if provider_of(name) == Some(q) {
        cookie
    } else {
        cookie_of(c1, q)
    }
}

impl CookieCache {
    /// An empty cache.
    pub fn new() -> (r: CookieCache)
        ensures
            forall|q: MusicProvider| #[trigger] cookie_of(r, q).len() == 0,
            r.migu_uid@.len() == 0,
    {
        CookieCache {
            netease: String::new(),
            kugou: String::new(),
            qqmusic: String::new(),
            migu: String::new(),
            qishui: String::new(),
            migu_uid: String::new(),
        }
    }

    /// The cookie held for a provider name (empty for an unknown one).
    pub fn get_provider_cookie(&self, provider: &str) -> (r: String)
        ensures
            r@ == cookie_named(*self, provider@),
    {
        match parse_provider(provider) {
            Some(MusicProvider::Netease) => copy_string(&self.netease),
            Some(MusicProvider::Kugou) => copy_string(&self.kugou),
            Some(MusicProvider::QqMusic) => copy_string(&self.qqmusic),
            Some(MusicProvider::Migu) => copy_string(&self.migu),
            Some(MusicProvider::Qishui) => copy_string(&self.qishui),
            None => String::new(),
        }
    }

    /// Holds `cookie` for a provider name; an unknown name changes nothing.
    pub fn set_provider_cookie(&mut self, provider: &str, cookie: String)
        ensures
            cookie_set_rel(*old(self), *final(self), provider@, cookie@),
    {
        match parse_provider(provider) {
            Some(MusicProvider::Netease) => self.netease = cookie,
            Some(MusicProvider::Kugou) => self.kugou = cookie,
            Some(MusicProvider::QqMusic) => self.qqmusic = cookie,
            Some(MusicProvider::Migu) => self.migu = cookie,
            Some(MusicProvider::Qishui) => self.qishui = cookie,
            None => {},
        }
    }

    /// The cookie of a provider: the one held, or else the one the store gave
    /// (`stored`), which is then held; empty when neither has one.
    pub fn load_provider_cookie(&mut self, provider: &str, stored: Option<String>) -> (r: String)
        ensures
            cookie_named(*old(self), provider@).len() > 0 ==> r@ == cookie_named(*old(self), provider@)
                && *final(self) == *old(self),
            cookie_named(*old(self), provider@).len() == 0 ==> match stored {
                Some(c) => r@ == c@ && cookie_set_rel(*old(self), *final(self), provider@, c@),
                None => r@.len() == 0 && *final(self) == *old(self),
            },
    {
        let cached = self.get_provider_cookie(provider);
        if !crate::text::str_is_empty(cached.as_str()) {
            return cached;
        }
        match stored {
            Some(c) => {
                let out = copy_string(&c);
                self.set_provider_cookie(provider, c);
                out
            },
            None => String::new(),
        }
    }

    /// Fills the cache from the store at start-up: each provider whose cookie the
    /// store gave, and Migu's user id where it gave one.
    pub fn init_cookie_cache(&mut self, stored: Vec<(MusicProvider, String)>, uid: Option<String>)
        ensures
            forall|q: MusicProvider| #[trigger] cookie_of(*final(self), q) == stored_cookie(stored@, q, cookie_of(*old(self), q)),
            final(self).migu_uid@ == match uid {
                Some(u) => u@,
                None => old(self).migu_uid@,
            },
    {
        let n = stored.len();
        let mut rest = stored;
        let ghost all = rest@;
        let mut i: usize = 0;
        while i < n
            invariant
                n == all.len(),
                i <= n,
                rest@ == all.subrange(i as int, n as int),
                self.migu_uid@ == old(self).migu_uid@,
                forall|q: MusicProvider| #[trigger] cookie_of(*self, q) == stored_cookie(all.subrange(0, i as int), q, cookie_of(*old(self), q)),
            decreases n - i,
        {
            let (p, c) = rest.remove(0);
            assert(all[i as int] == (p, c));
            let ghost before = *self;
            self.set_provider_cookie(provider_name(p), c);
            proof {
                law_provider_name_roundtrip(p);
                let pre = all.subrange(0, i + 1);
                assert(pre.drop_last() =~= all.subrange(0, i as int));
                assert forall|q: MusicProvider| #[trigger] cookie_of(*self, q) == stored_cookie(pre, q, cookie_of(*old(self), q)) by {
                    assert(cookie_of(*self, q) == if Some(p) == Some(q) { c@ } else { cookie_of(before, q) });
                }
                assert(rest@ =~= all.subrange(i + 1, n as int));
            }
            i = i + 1;
        }
        assert(all.subrange(0, n as int) =~= all);
        let ghost filled = *self;
        match uid {
            Some(u) => self.migu_uid = u,
            None => {},
        }
        assert(forall|q: MusicProvider| #[trigger] cookie_of(*self, q) == cookie_of(filled, q));
    }

    /// The Migu user id: the one held, else a non-empty one the store gave
    /// (then held), else a lookup by the Migu cookie where there is one.
    pub fn load_migu_uid(&mut self, stored: Option<String>) -> (r: MiguUidStep)
        ensures
            old(self).migu_uid@.len() > 0 ==> r == MiguUidStep::Known(old(self).migu_uid) && *final(self) == *old(self),
            old(self).migu_uid@.len() == 0 ==> match stored {
                Some(u) if u@.len() > 0 => r == MiguUidStep::Known(u) && final(self).migu_uid == u
                    && forall|q: MusicProvider| #[trigger] cookie_of(*final(self), q) == cookie_of(*old(self), q),
                _ => *final(self) == *old(self) && if old(self).migu@.len() == 0 {
                    r == MiguUidStep::Unknown
                } else {
                    r == MiguUidStep::Lookup(old(self).migu)
                },
            },
    {
        if !crate::text::str_is_empty(self.migu_uid.as_str()) {
            return MiguUidStep::Known(self.migu_uid.clone());
        }
        match stored {
            Some(u) => {
                if !crate::text::str_is_empty(u.as_str()) {
                    self.migu_uid = u.clone();
                    return MiguUidStep::Known(u);
                }
            },
            None => {},
        }
        if crate::text::str_is_empty(self.migu.as_str()) {
            MiguUidStep::Unknown
        } else {
            MiguUidStep::Lookup(self.migu.clone())
        }
    }

    /// Forgets the Migu login: its cookie and its user id.
    pub fn migu_logout(&mut self)
        ensures
            forall|q: MusicProvider| #[trigger] cookie_of(*final(self), q) == if q == MusicProvider::Migu {
                Seq::empty()
            } else {
                cookie_of(*old(self), q)
            },
            final(self).migu_uid@.len() == 0,
    {
        self.migu = String::new();
        self.migu_uid = String::new();
    }

    /// Holds the user id of a validated Migu login and hands it back to be
    /// stored; empty, with nothing held, when the lookup found no login.
    pub fn adopt_migu_login(&mut self, info: Option<&LoginInfo>) -> (r: String)
        ensures
            match info {
                Some(i) if i.logged_in && i.user_id@.len() > 0 => r@ == i.user_id@
                    && final(self).migu_uid@ == i.user_id@
                    && forall|q: MusicProvider| #[trigger] cookie_of(*final(self), q) == cookie_of(*old(self), q),
                _ => r@.len() == 0 && *final(self) == *old(self),
            },
    {
        match info {
            Some(i) => {
                if i.logged_in && !crate::text::str_is_empty(i.user_id.as_str()) {
                    self.migu_uid = i.user_id.clone();
                    return i.user_id.clone();
                }
                String::new()
            },
            None => String::new(),
        }
    }
}

/// The cookie of `q` after the cookies of `stored` were held in turn over `init`.
pub open spec fn stored_cookie(stored: Seq<(MusicProvider, String)>, q: MusicProvider, init: Seq<char>) -> Seq<char>
    decreases stored.len(),
{
    if stored.len() == 0 {
        init
    } else if stored.last().0 == q {
        stored.last().1@
    } else {
        stored_cookie(stored.drop_last(), q, init)
    }
}

/// What the Migu user id lookup needs next.
pub enum MiguUidStep {
    /// The id is known.
    Known(String),
    /// Ask Migu who is logged in with this cookie.
    Lookup(String),
    /// There is no id and no cookie to look it up with.
    Unknown,
}

/// What a provider cookie reads after it was set: the cookie that was set.
pub proof fn law_cookie_set_then_get(c1: CookieCache, c2: CookieCache, name: Seq<char>, cookie: Seq<char>, p: MusicProvider)
    requires
        cookie_set_rel(c1, c2, name, cookie),
        provider_of(name) == Some(p),
    ensures
        cookie_named(c2, name) == cookie,
{
    assert(cookie_of(c2, p) == cookie);
}

/// Setting one provider's cookie leaves every other provider's cookie as it was.
pub proof fn law_cookie_set_is_local(c1: CookieCache, c2: CookieCache, name: Seq<char>, cookie: Seq<char>, q: MusicProvider)
    requires
        cookie_set_rel(c1, c2, name, cookie),
        provider_of(name) != Some(q),
    ensures
        cookie_of(c2, q) == cookie_of(c1, q),
{
    assert(cookie_of(c2, q) == cookie_of(c1, q));
}

// ───────────────────────── profile cache ─────────────────────────

/// A copy of a login state.
pub fn clone_login(i: &LoginInfo) -> (r: LoginInfo)
    ensures
        r@ == i@,
{
    LoginInfo {
        provider: i.provider.clone(),
        logged_in: i.logged_in,
        user_id: i.user_id.clone(),
        nickname: i.nickname.clone(),
        avatar: i.avatar.clone(),
        vip_type: i.vip_type,
        vip_level: i.vip_level.clone(),
        is_vip: i.is_vip,
        is_svip: i.is_svip,
    }
}

/// The last profile fetched of each provider, kept so that a start without a
/// network still shows who is logged in.
pub struct ProfileCache {
    pub profiles: Vec<LoginInfo>,
}

/// The views of a list of login states.
pub open spec fn login_views(v: Seq<LoginInfo>) -> Seq<LoginInfoView> {
    Seq::new(v.len(), |i: int| v[i]@)
}

/// The position of the profile of `provider`, or -1.
pub open spec fn profile_index(ps: Seq<LoginInfoView>, provider: Seq<char>) -> int
    decreases ps.len(),
{
    if ps.len() == 0 {
        -1
    } else if ps.last().provider == provider {
        ps.len() - 1
    } else {
        profile_index(ps.drop_last(), provider)
    }
}

/// The cached profile of `provider`.
pub open spec fn profile_of(ps: Seq<LoginInfoView>, provider: Seq<char>) -> Option<LoginInfoView> {
    let i = profile_index(ps, provider);
    if 0 <= i < ps.len() {
        Some(ps[i])
    } else {
        None
    }
}

/// Only a logged-in profile with a nickname is worth keeping.
pub open spec fn worth_remembering(i: LoginInfoView) -> bool {
    i.logged_in && i.nickname.len() > 0
}

/// The cache after `remember_profile(i)`.
pub open spec fn remember_spec(ps: Seq<LoginInfoView>, i: LoginInfoView) -> Seq<LoginInfoView> {
    if !worth_remembering(i) {
        ps
    } else {
        let k = profile_index(ps, i.provider);
        if 0 <= k < ps.len() {
            ps.update(k, i)
        } else {
            ps.push(i)
        }
    }
}

proof fn lemma_profile_index_range(ps: Seq<LoginInfoView>, p: Seq<char>)
    ensures
        -1 <= profile_index(ps, p) < ps.len(),
        profile_index(ps, p) >= 0 ==> ps[profile_index(ps, p)].provider == p,
        profile_index(ps, p) >= 0 ==> forall|j: int|
            profile_index(ps, p) < j < ps.len() ==> ps[j].provider != p,
        profile_index(ps, p) == -1 ==> forall|j: int| 0 <= j < ps.len() ==> ps[j].provider != p,
    decreases ps.len(),
{
    if ps.len() > 0 {
        let d = ps.drop_last();
        lemma_profile_index_range(d, p);
        assert(forall|j: int| 0 <= j < d.len() ==> d[j] == ps[j]);
    }
}

proof fn lemma_profile_index_update(ps: Seq<LoginInfoView>, k: int, i: LoginInfoView, q: Seq<char>)
    requires
        0 <= k < ps.len(),
        ps[k].provider == i.provider,
    ensures
        profile_index(ps.update(k, i), q) == profile_index(ps, q),
    decreases ps.len(),
{
    let us = ps.update(k, i);
    if k == ps.len() - 1 {
        assert(us.drop_last() =~= ps.drop_last());
    } else {
        assert(us.drop_last() =~= ps.drop_last().update(k, i));
        lemma_profile_index_update(ps.drop_last(), k, i, q);
    }
}

impl ProfileCache {
    /// Keeps a fetched profile, in place of the one of the same provider.
    pub fn remember_profile(&mut self, info: &LoginInfo)
        ensures
            login_views(final(self).profiles@) == remember_spec(login_views(old(self).profiles@), info@),
    {
        let ghost before = login_views(self.profiles@);
        if !info.logged_in || crate::text::str_is_empty(info.nickname.as_str()) {
            return;
        }
        let mut i: usize = self.profiles.len();
        assert(before.subrange(0, i as int) =~= before);
        while i > 0
            invariant
                i <= self.profiles@.len(),
                before == login_views(self.profiles@),
                before == login_views(old(self).profiles@),
                worth_remembering(info@),
                profile_index(before, info.provider@) == profile_index(before.subrange(0, i as int), info.provider@),
            decreases i,
        {
            let ghost sub = before.subrange(0, i as int);
            assert(sub.drop_last() =~= before.subrange(0, i - 1));
            if self.profiles[i - 1].provider == info.provider {
                assert(before[i - 1] == self.profiles@[i - 1]@);
                assert(sub.last().provider == info.provider@);
                assert(profile_index(before, info.provider@) == i - 1);
                self.profiles.set(i - 1, clone_login(info));
                assert(login_views(self.profiles@) =~= before.update(i - 1, info@));
                return;
            }
            i = i - 1;
        }
        self.profiles.push(clone_login(info));
        assert(login_views(self.profiles@) =~= before.push(info@));
    }

    /// The kept profile of a provider.
    pub fn cached_profile(&self, provider: &str) -> (r: Option<LoginInfo>)
        ensures
            match r {
                Some(i) => profile_of(login_views(self.profiles@), provider@) == Some(i@),
                None => profile_of(login_views(self.profiles@), provider@) is None,
            },
    {
        let ghost all = login_views(self.profiles@);
        let key = str_to_string(provider);
        let mut i: usize = self.profiles.len();
        assert(all.subrange(0, i as int) =~= all);
        while i > 0
            invariant
                i <= self.profiles@.len(),
                all == login_views(self.profiles@),
                key@ == provider@,
                profile_index(all, provider@) == profile_index(all.subrange(0, i as int), provider@),
            decreases i,
        {
            let ghost sub = all.subrange(0, i as int);
            assert(sub.drop_last() =~= all.subrange(0, i - 1));
            if self.profiles[i - 1].provider == key {
                return Some(clone_login(&self.profiles[i - 1]));
            }
            i = i - 1;
        }
        None
    }
}

/// What the profile cache gives back for a provider after a profile worth
/// keeping was remembered: that profile.
pub proof fn law_remember_then_cached(ps: Seq<LoginInfoView>, i: LoginInfoView)
    requires
        worth_remembering(i),
    ensures
        profile_of(remember_spec(ps, i), i.provider) == Some(i),
{
    lemma_profile_index_range(ps, i.provider);
    let k = profile_index(ps, i.provider);
    if 0 <= k < ps.len() {
        lemma_profile_index_update(ps, k, i, i.provider);
        lemma_profile_index_range(ps.update(k, i), i.provider);
    } else {
        let qs = ps.push(i);
        assert(qs.drop_last() =~= ps);
    }
}

/// Remembering a profile leaves the kept profile of every other provider as it was.
pub proof fn law_remember_is_local(ps: Seq<LoginInfoView>, i: LoginInfoView, q: Seq<char>)
    requires
        q != i.provider,
    ensures
        profile_of(remember_spec(ps, i), q) == profile_of(ps, q),
{
    lemma_profile_index_range(ps, i.provider);
    let k = profile_index(ps, i.provider);
    if worth_remembering(i) {
        if 0 <= k < ps.len() {
            lemma_profile_index_update(ps, k, i, q);
            lemma_profile_index_range(ps, q);
        } else {
            let qs = ps.push(i);
            assert(qs.drop_last() =~= ps);
            lemma_profile_index_range(ps, q);
        }
    }
}

/// The login overview asks a provider only with a saved cookie, and Qishui
/// only with one that carries a login.
pub open spec fn query_needed_spec(provider: MusicProvider, cookie: Seq<char>) -> bool {
    cookie.len() > 0 && (provider == MusicProvider::Qishui ==> self::qishui::has_login_spec(cookie))
}

/// Whether the login overview asks `provider` for its login state (see
/// `query_needed_spec`).
pub fn login_query_needed(provider: MusicProvider, cookie: &str) -> (b: bool)
    ensures
        b == query_needed_spec(provider, cookie@),
{
    if crate::text::str_is_empty(cookie) {
        return false;
    }
    match provider {
        MusicProvider::Qishui => self::qishui::qishui_cookie_has_login(cookie),
        _ => true,
    }
}

/// The saved cookies of the providers.
pub struct ProviderCookies {
    pub netease: String,
    pub kugou: String,
    pub qqmusic: String,
    pub migu: String,
    pub qishui: String,
}

/// A provider's answer as the overview counts it: none where it is not asked.
pub open spec fn asked(provider: MusicProvider, cookie: Seq<char>, answer: Option<LoginInfo>) -> Option<LoginInfo> {
    if query_needed_spec(provider, cookie) {
        answer
    } else {
        None
    }
}

fn asked_exec(provider: MusicProvider, cookie: &str, answer: Option<LoginInfo>) -> (r: Option<LoginInfo>)
    ensures
        r == asked(provider, cookie@, answer),
{
    if login_query_needed(provider, cookie) {
        answer
    } else {
        None
    }
}

/// The login states that `music_get_login_statuses` reports, by provider
/// name: a provider is asked only where `query_needed_spec` holds of its
/// cookie, and listed where it was asked and answered (`netease` ..
/// `qishui` are the answers; for Qishui, its login status).  The first four
/// answers are remembered in the profile cache (Qishui keeps its own).
pub fn music_get_login_statuses(
    cache: &mut ProfileCache,
    cookies: &ProviderCookies,
    netease: Option<LoginInfo>,
    kugou: Option<LoginInfo>,
    qqmusic: Option<LoginInfo>,
    migu: Option<LoginInfo>,
    qishui: Option<LoginInfo>,
) -> (r: Vec<(String, LoginInfo)>)
    ensures
        login_views(final(cache).profiles@) == remember_opt(remember_opt(remember_opt(remember_opt(
            login_views(old(cache).profiles@),
            asked(MusicProvider::Netease, cookies.netease@, netease),
        ), asked(MusicProvider::Kugou, cookies.kugou@, kugou)), asked(MusicProvider::QqMusic, cookies.qqmusic@, qqmusic)), asked(
            MusicProvider::Migu,
            cookies.migu@,
            migu,
        )),
        status_views(r@) == status_entry("netease"@, asked(MusicProvider::Netease, cookies.netease@, netease))
            + status_entry("kugou"@, asked(MusicProvider::Kugou, cookies.kugou@, kugou))
            + status_entry("qqmusic"@, asked(MusicProvider::QqMusic, cookies.qqmusic@, qqmusic))
            + status_entry("migu"@, asked(MusicProvider::Migu, cookies.migu@, migu))
            + status_entry("qishui"@, asked(MusicProvider::Qishui, cookies.qishui@, qishui)),
{
    let netease = asked_exec(MusicProvider::Netease, cookies.netease.as_str(), netease);
    let kugou = asked_exec(MusicProvider::Kugou, cookies.kugou.as_str(), kugou);
    let qqmusic = asked_exec(MusicProvider::QqMusic, cookies.qqmusic.as_str(), qqmusic);
    let migu = asked_exec(MusicProvider::Migu, cookies.migu.as_str(), migu);
    let qishui = asked_exec(MusicProvider::Qishui, cookies.qishui.as_str(), qishui);
    let mut out: Vec<(String, LoginInfo)> = Vec::new();
    push_status(cache, &mut out, "netease", netease, true);
    push_status(cache, &mut out, "kugou", kugou, true);
    push_status(cache, &mut out, "qqmusic", qqmusic, true);
    push_status(cache, &mut out, "migu", migu, true);
    push_status(cache, &mut out, "qishui", qishui, false);
    assert(status_views(out@) =~= status_entry("netease"@, netease) + status_entry("kugou"@, kugou)
        + status_entry("qqmusic"@, qqmusic) + status_entry("migu"@, migu) + status_entry("qishui"@, qishui));
    out
}

/// The cache after remembering an optional profile.
pub open spec fn remember_opt(ps: Seq<LoginInfoView>, i: Option<LoginInfo>) -> Seq<LoginInfoView> {
    match i {
        Some(x) => remember_spec(ps, x@),
        None => ps,
    }
}

/// One reported entry, where the provider answered.
pub open spec fn status_entry(name: Seq<char>, i: Option<LoginInfo>) -> Seq<(Seq<char>, LoginInfoView)> {
    match i {
        Some(x) => seq![(name, x@)],
        None => Seq::empty(),
    }
}

/// The views of reported entries.
pub open spec fn status_views(v: Seq<(String, LoginInfo)>) -> Seq<(Seq<char>, LoginInfoView)> {
    Seq::new(v.len(), |i: int| (v[i].0@, v[i].1@))
}

fn push_status(
    cache: &mut ProfileCache,
    out: &mut Vec<(String, LoginInfo)>,
    name: &str,
    info: Option<LoginInfo>,
    remember: bool,
)
    ensures
        status_views(final(out)@) == status_views(old(out)@) + status_entry(name@, info),
        remember ==> login_views(final(cache).profiles@) == remember_opt(login_views(old(cache).profiles@), info),
        !remember ==> final(cache).profiles@ == old(cache).profiles@,
{
    match info {
        Some(i) => {
            if remember {
                cache.remember_profile(&i);
            }
            let ghost before = status_views(out@);
            out.push((str_to_string(name), i));
            assert(status_views(out@) =~= before + status_entry(name@, info));
        },
        None => {
            assert(status_views(out@) =~= status_views(out@) + status_entry(name@, info));
        },
    }
}

// ───────────────────────── login windows ─────────────────────────

/// How a provider's login window is opened.
pub struct LoginWindowPlan {
    pub provider: MusicProvider,
    pub label: &'static str,
    pub url: &'static str,
    pub warmup_url: Option<&'static str>,
    pub title: &'static str,
    pub width: u32,
    pub height: u32,
    pub min_width: u32,
    pub min_height: u32,
}

/// What a login window plan is, in contracts.
pub struct LoginWindowView {
    pub provider: MusicProvider,
    pub label: Seq<char>,
    pub url: Seq<char>,
    pub warmup_url: Option<Seq<char>>,
    pub title: Seq<char>,
    pub width: u32,
    pub height: u32,
    pub min_width: u32,
    pub min_height: u32,
}

impl LoginWindowPlan {
    /// What the plan is, in contracts.
    pub open spec fn view_of(self) -> LoginWindowView {
        LoginWindowView {
            provider: self.provider,
            label: self.label@,
            url: self.url@,
            warmup_url: match self.warmup_url {
                Some(w) => Some(w@),
                None => None,
            },
            title: self.title@,
            width: self.width,
            height: self.height,
            min_width: self.min_width,
            min_height: self.min_height,
        }
    }
}

/// The login window of each provider that signs in through one: its label,
/// start page, warm-up page (the pages that add playback cookies after a
/// login), title and sizes.
pub open spec fn login_window_spec(p: MusicProvider) -> Option<LoginWindowView> {
    match p {
        MusicProvider::Netease => Some(LoginWindowView {
            provider: p,
            label: "netease-login"@,
            url: "https://music.163.com/#/login"@,
            warmup_url: None,
            title: "网易云音乐登录"@,
            width: 940,
            height: 760,
            min_width: 780,
            min_height: 580,
        }),
        MusicProvider::Kugou => Some(LoginWindowView {
            provider: p,
            label: "kugou-login"@,
            url: "https://www.kugou.com/"@,
            warmup_url: Some("https://www.kugou.com/newuc/user/uc/type=edit"@),
            title: "酷狗音乐登录"@,
            width: 900,
            height: 720,
            min_width: 760,
            min_height: 560,
        }),
        MusicProvider::QqMusic => Some(LoginWindowView {
            provider: p,
            label: "qqmusic-login"@,
            url: "https://y.qq.com/n/ryqq/profile"@,
            warmup_url: Some("https://y.qq.com/n/ryqq/player"@),
            title: "QQ 音乐登录"@,
            width: 900,
            height: 720,
            min_width: 760,
            min_height: 560,
        }),
        MusicProvider::Migu => Some(LoginWindowView {
            provider: p,
            label: "migu-login"@,
            url: "https://music.migu.cn/v5/"@,
            warmup_url: None,
            title: "咪咕音乐登录"@,
            width: 900,
            height: 720,
            min_width: 760,
            min_height: 560,
        }),
        MusicProvider::Qishui => None,
    }
}

/// A provider name that is unknown or names a provider without a login window.
pub open spec fn unknown_or_qr_only(name: Seq<char>) -> bool {
    match provider_of(name) {
        Some(p) => login_window_spec(p) is None,
        None => true,
    }
}

/// The login window of `music_open_login_window` for a provider name (see
/// `login_window_spec`); an unknown provider, or Qishui, which signs in by QR
/// code, is an error.
pub fn music_open_login_window(provider: &str) -> (r: Result<LoginWindowPlan, String>)
    ensures
        match r {
            Ok(plan) => provider_of(provider@) == Some(plan.provider) && login_window_spec(plan.provider) == Some(
                plan.view_of(),
            ),
            Err(e) => unknown_or_qr_only(provider@) && e@ == "Unknown provider: "@ + provider@,
        },
{
    match parse_provider(provider) {
        Some(MusicProvider::Netease) => Ok(LoginWindowPlan {
            provider: MusicProvider::Netease,
            label: "netease-login",
            url: "https://music.163.com/#/login",
            warmup_url: None,
            title: "网易云音乐登录",
            width: 940,
            height: 760,
            min_width: 780,
            min_height: 580,
        }),
        Some(MusicProvider::Kugou) => Ok(LoginWindowPlan {
            provider: MusicProvider::Kugou,
            label: "kugou-login",
            url: "https://www.kugou.com/",
            warmup_url: Some("https://www.kugou.com/newuc/user/uc/type=edit"),
            title: "酷狗音乐登录",
            width: 900,
            height: 720,
            min_width: 760,
            min_height: 560,
        }),
        Some(MusicProvider::QqMusic) => Ok(LoginWindowPlan {
            provider: MusicProvider::QqMusic,
            label: "qqmusic-login",
            url: "https://y.qq.com/n/ryqq/profile",
            warmup_url: Some("https://y.qq.com/n/ryqq/player"),
            title: "QQ 音乐登录",
            width: 900,
            height: 720,
            min_width: 760,
            min_height: 560,
        }),
        Some(MusicProvider::Migu) => Ok(LoginWindowPlan {
            provider: MusicProvider::Migu,
            label: "migu-login",
            url: "https://music.migu.cn/v5/",
            warmup_url: None,
            title: "咪咕音乐登录",
            width: 900,
            height: 720,
            min_width: 760,
            min_height: 560,
        }),
        _ => Err(concat2("Unknown provider: ", provider)),
    }
}

/// The number of cookie polls before a login window gives up.
pub const LOGIN_POLL_ROUNDS: u32 = 150;

/// The state of the cookie poll of an open login window.
pub struct LoginPoll {
    pub provider: MusicProvider,
    pub warmup_started: bool,
    pub last_cookie: String,
    pub rounds: u32,
}

/// What a login window's poller does after a poll.
pub enum PollAction {
    /// The login is complete: save this cookie, close the windows, fetch the profile.
    Finish(String),
    /// Logged in without playback rights yet: open the warm-up page.
    Warmup,
    /// A new Migu cookie: ask Migu whether it is a login.
    Validate(String),
    /// Wait and poll again.
    Wait,
    /// Stop polling.
    Stop,
}

/// What happens when the poll runs out.
pub enum PollTimeout {
    /// Save what was found and fetch the profile.
    SavePartial(String),
    /// Ask Migu once more whether the cookie is a login.
    Validate(String),
    /// Report that the login did not complete.
    Fail,
    /// Give up silently.
    GiveUp,
}

impl LoginPoll {
    /// A fresh poll of `provider`'s login window.
    pub fn new(provider: MusicProvider) -> (r: LoginPoll)
        ensures
            r.provider == provider,
            !r.warmup_started,
            r.last_cookie@.len() == 0,
            r.rounds == 0,
    {
        LoginPoll { provider, warmup_started: false, last_cookie: String::new(), rounds: 0 }
    }

    /// Whether the poll has run its course.
    pub fn exhausted(&self) -> (b: bool)
        ensures
            b == (self.rounds >= LOGIN_POLL_ROUNDS),
    {
        self.rounds >= LOGIN_POLL_ROUNDS
    }

    /// One poll that read the window's cookie string.  `has_playback` and
    /// `has_login` are the provider's own tests of that string.
    pub fn on_cookies(&mut self, cookie: &str, has_playback: bool, has_login: bool) -> (a: PollAction)
        requires
            old(self).rounds < LOGIN_POLL_ROUNDS,
        ensures
            final(self).rounds == old(self).rounds + 1,
            final(self).provider == old(self).provider,
            match old(self).provider {
                MusicProvider::Kugou | MusicProvider::QqMusic => if has_playback {
                    a == PollAction::Finish(final(self).last_cookie) && final(self).last_cookie@ == cookie@
                        && final(self).warmup_started == old(self).warmup_started
                } else if has_login && !old(self).warmup_started {
                    a is Warmup && final(self).warmup_started && final(self).last_cookie == old(self).last_cookie
                } else {
                    a is Wait && final(self).warmup_started == old(self).warmup_started
                        && final(self).last_cookie == old(self).last_cookie
                },
                MusicProvider::Migu => final(self).warmup_started == old(self).warmup_started && if cookie@.len() > 0
                    && cookie@ != old(self).last_cookie@ {
                    a == PollAction::Validate(final(self).last_cookie) && final(self).last_cookie@ == cookie@
                } else {
                    a is Wait && final(self).last_cookie == old(self).last_cookie
                },
                _ => final(self).warmup_started == old(self).warmup_started && if has_login {
                    a == PollAction::Finish(final(self).last_cookie) && final(self).last_cookie@ == cookie@
                } else {
                    a is Wait && final(self).last_cookie == old(self).last_cookie
                },
            },
    {
        self.rounds = self.rounds + 1;
        match self.provider {
            MusicProvider::Kugou | MusicProvider::QqMusic => {
                if has_playback {
                    self.last_cookie = str_to_string(cookie);
                    PollAction::Finish(self.last_cookie.clone())
                } else if has_login && !self.warmup_started {
                    self.warmup_started = true;
                    PollAction::Warmup
                } else {
                    PollAction::Wait
                }
            },
            MusicProvider::Migu => {
                if !crate::text::str_is_empty(cookie) && !str_eq(cookie, self.last_cookie.as_str()) {
                    self.last_cookie = str_to_string(cookie);
                    PollAction::Validate(self.last_cookie.clone())
                } else {
                    PollAction::Wait
                }
            },
            _ => {
                if has_login {
                    self.last_cookie = str_to_string(cookie);
                    PollAction::Finish(self.last_cookie.clone())
                } else {
                    PollAction::Wait
                }
            },
        }
    }

    /// One poll that could not read the cookies: stop once the window is gone.
    pub fn on_read_error(&mut self, window_visible: bool) -> (a: PollAction)
        requires
            old(self).rounds < LOGIN_POLL_ROUNDS,
        ensures
            final(self).rounds == old(self).rounds + 1,
            final(self).provider == old(self).provider,
            final(self).warmup_started == old(self).warmup_started,
            final(self).last_cookie == old(self).last_cookie,
            window_visible ==> a is Wait,
            !window_visible ==> a is Stop,
    {
        self.rounds = self.rounds + 1;
        if window_visible {
            PollAction::Wait
        } else {
            PollAction::Stop
        }
    }

    /// The last look at the cookies once the poll ran out.
    pub fn on_timeout(&self, cookie: &str, has_login: bool) -> (t: PollTimeout)
        ensures
            match self.provider {
                MusicProvider::Kugou | MusicProvider::QqMusic => if has_login {
                    t matches PollTimeout::SavePartial(c) && c@ == cookie@
                } else {
                    t is GiveUp
                },
                MusicProvider::Migu => if cookie@.len() > 0 {
                    t matches PollTimeout::Validate(c) && c@ == cookie@
                } else {
                    t is Fail
                },
                _ => t is GiveUp,
            },
    {
        match self.provider {
            MusicProvider::Kugou | MusicProvider::QqMusic => {
                if has_login {
                    PollTimeout::SavePartial(str_to_string(cookie))
                } else {
                    PollTimeout::GiveUp
                }
            },
            MusicProvider::Migu => {
                if !crate::text::str_is_empty(cookie) {
                    PollTimeout::Validate(str_to_string(cookie))
                } else {
                    PollTimeout::Fail
                }
            },
            _ => PollTimeout::GiveUp,
        }
    }
}


/// The file of the kept profiles under the local data directory (`.` where
/// there is none).
pub fn profile_cache_path(local_data: Option<&str>) -> (r: String)
    ensures
        r@ == crate::text::spec_path_join(crate::text::spec_path_join(match local_data {
            Some(d) => d@,
            None => "."@,
        }, "NexBox"@), "music_profiles.json"@),
{
    let base = crate::hardware_report::data_dir(local_data);
    crate::text::path_join(base.as_str(), "music_profiles.json")
}

// ───────────────────────── laws ─────────────────────────

/// A popup on a third-party sign-in host is never closed, whatever platform
/// name the host also contains.
pub proof fn law_third_party_stays_open(host: Seq<char>)
    requires
        third_party_host(spec_to_lowercase(host)),
    ensures
        !host_should_close_spec(host),
{
}

/// A popup closes only on a host of one of the platforms (the host itself or
/// one of its subdomains), so a look-alike host never closes it.
pub proof fn law_close_only_on_platform(host: Seq<char>)
    requires
        host_should_close_spec(host),
    ensures
        platform_host(spec_to_lowercase(host)),
{
}

proof fn lemma_key_index_none(m: Seq<Pair>, k: Seq<char>)
    ensures
        key_index(m, k) == -1 <==> forall|i: int| 0 <= i < m.len() ==> m[i].0 != k,
    decreases m.len(),
{
    lemma_key_index_range(m, k);
    if m.len() > 0 {
        lemma_key_index_none(m.drop_last(), k);
        assert(forall|i: int| 0 <= i < m.len() - 1 ==> m.drop_last()[i] == m[i]);
    }
}

/// The names of a list of cookies appear at most once.
pub open spec fn names_unique(m: Seq<Pair>) -> bool {
    forall|i: int, j: int| 0 <= i < j < m.len() ==> m[i].0 != m[j].0
}

/// Each cookie name appears at most once in what a login window's cookies
/// give, however often the web view reports it.
pub proof fn law_picked_names_unique(cs: Seq<WebCookie>, p: MusicProvider)
    ensures
        names_unique(picked_cookies(cs, p)),
    decreases cs.len(),
{
    if cs.len() > 0 {
        law_picked_names_unique(cs.drop_last(), p);
        let m = picked_cookies(cs.drop_last(), p);
        let c = cs.last();
        if takes_cookie(p, c) {
            lemma_key_index_range(m, c.name@);
            lemma_key_index_none(m, c.name@);
            let k = key_index(m, c.name@);
            if k >= 0 {
                assert(names_unique(m.update(k, (c.name@, c.value@))));
            } else {
                assert(names_unique(m.push((c.name@, c.value@))));
            }
        }
    }
}

} // verus!
