//! Qishui (Soda Music): reading its login cookies, mapping its catalogue
//! responses into songs and playlists, and the decisions of its login,
//! playback and signing-helper flows.

use vstd::prelude::*;
use crate::json::{
    Json, JsonNumber, get_spec, oget, str_of, ostr, u64_of, ou64, i64_of, oi64, bool_of, obool,
    arr_of, oarr, number_text, number_string, deref_opt, or_json, derefs, or_opt,
};
use crate::text::{
    chars_of, string_from_chars, str_to_string, append_str, append_vec, has_prefix, has_sub, starts_with,
    contains_sub, contains_char, parse_u64, parse_u64_spec, copy_string, str_is_empty, join_sep,
    split_when,
};
use super::key_views;
use super::models::{
    Artist, ArtistView, Song, SongView, Playlist, PlaylistView, LoginInfo, LoginInfoView,
    artist_views, ov,
};

verus! {

broadcast use vstd::std_specs::vec::axiom_vec_decreases_to_view,
    vstd::std_specs::vec::axiom_vec_index_decreases, vstd::seq::axiom_seq_index_decreases,
    vstd::seq::axiom_seq_subrange_decreases;

// ───────────────────────── text ─────────────────────────

/// The number of bytes of `c` in UTF-8.
pub open spec fn utf8_len(c: char) -> nat {
    if (c as u32) < 0x80 {
        1
    } else if (c as u32) < 0x800 {
        2
    } else if (c as u32) < 0x10000 {
        3
    } else {
        4
    }
}

/// How many leading characters of `s` fit in `max` bytes.
pub open spec fn clip_count(s: Seq<char>, max: nat) -> nat
    decreases s.len(),
{
    if s.len() == 0 {
        0
    } else if utf8_len(s[0]) <= max {
        1 + clip_count(s.drop_first(), (max - utf8_len(s[0])) as nat)
    } else {
        0
    }
}

/// The longest start of `s` that fits in `max` bytes of UTF-8: a cut that
/// never splits a character.
pub fn clip(s: &str, max: usize) -> (r: String)
    ensures
        r@ == s@.subrange(0, clip_count(s@, max as nat) as int),
{
    let v = chars_of(s);
    let n = v.len();
    let mut left: usize = max;
    let mut i: usize = 0;
    assert(v@.subrange(0, n as int) =~= v@);
    while i < n
        invariant
            n == v@.len(),
            v@ == s@,
            i <= n,
            i + clip_count(v@.subrange(i as int, n as int), left as nat) == clip_count(v@, max as nat),
        decreases n - i,
    {
        let c = v[i];
        let u = c as u32;
        let w: usize = if u < 0x80 {
            1
        } else if u < 0x800 {
            2
        } else if u < 0x10000 {
            3
        } else {
            4
        };
        let ghost sub = v@.subrange(i as int, n as int);
        assert(sub[0] == c);
        assert(w == utf8_len(c));
        if w > left {
            let out = crate::text::slice_vec(&v, 0, i);
            return string_from_chars(&out);
        }
        assert(sub.drop_first() =~= v@.subrange(i + 1, n as int));
        left = left - w;
        i = i + 1;
    }
    assert(v@.subrange(0, n as int) =~= v@);
    string_from_chars(&v)
}

// ───────────────────────── login cookies ─────────────────────────

/// The patterns of the cookies that carry a Qishui login.
pub open spec fn login_patterns() -> Seq<Seq<char>> {
    seq![
        "(?:^|;\\s*)sessionid=[^;\\s]+"@,
        "(?:^|;\\s*)sessionid_ss=[^;\\s]+"@,
        "(?:^|;\\s*)sid_guard=[^;\\s]+"@,
        "(?:^|;\\s*)sid_tt=[^;\\s]+"@,
    ]
}

/// A cookie string carries a Qishui login: one of the login patterns (each of
/// which compiles) matches it.
pub open spec fn has_login_spec(cookie: Seq<char>) -> bool {
    exists|k: int| 0 <= k < 4 && spec_regex_valid(#[trigger] login_patterns()[k])
        && spec_regex_captures(login_patterns()[k], cookie) is Some
}

/// Whether a cookie string carries a Qishui login (`sessionid`,
/// `sessionid_ss`, `sid_guard` or `sid_tt` with a value).
pub fn qishui_cookie_has_login(cookie: &str) -> (b: bool)
    ensures
        b == has_login_spec(cookie@),
{
    let pats: Vec<&str> = vec![
        "(?:^|;\\s*)sessionid=[^;\\s]+",
        "(?:^|;\\s*)sessionid_ss=[^;\\s]+",
        "(?:^|;\\s*)sid_guard=[^;\\s]+",
        "(?:^|;\\s*)sid_tt=[^;\\s]+",
    ];
    assert(key_views(pats@) =~= login_patterns());
    let mut i: usize = 0;
    while i < 4
        invariant
            i <= 4,
            pats@.len() == 4,
            key_views(pats@) == login_patterns(),
            forall|k: int| 0 <= k < i ==> !(spec_regex_valid(#[trigger] login_patterns()[k])
                && spec_regex_captures(login_patterns()[k], cookie@) is Some),
        decreases 4 - i,
    {
        assert(pats@[i as int]@ == login_patterns()[i as int]);
        match regex_captures(pats[i], cookie) {
            Some(_) => {
                return true;
            },
            None => {},
        }
        i = i + 1;
    }
    false
}

/// The answer of every request that needs a login, given before anything is
/// asked of the service.
pub open spec fn not_logged_in_msg() -> Seq<char> {
    "汽水音乐未登录"@
}

/// The check that opens each request on the user's account (own playlists,
/// playlist tracks, listening modes, the feed): it goes on only with a cookie
/// that carries a login, and answers `汽水音乐未登录` otherwise.
pub fn qishui_login_gate(cookie: &str) -> (r: Result<(), String>)
    ensures
        r is Ok <==> has_login_spec(cookie@),
        r is Err ==> r->Err_0@ == not_logged_in_msg(),
{
    if qishui_cookie_has_login(cookie) {
        Ok(())
    } else {
        Err(str_to_string("汽水音乐未登录"))
    }
}

/// The most requests made for the profile.
pub const PROFILE_ATTEMPTS: u32 = 3;

/// What fetching the profile does next.
#[derive(PartialEq, Eq, Structural, Clone, Copy, Debug)]
pub enum ProfileStep {
    /// The cookie has no login: there is no profile, and nothing is asked.
    NoLogin,
    /// Wait this long, then ask `/luna/pc/me` once more.
    Request { delay_ms: u64 },
    /// Every attempt failed: there is no profile.
    GiveUp,
}

/// The step after `failures` failed attempts: the first request at once, the
/// next ones after 700 ms and 1400 ms, and none after the third failure.
pub open spec fn profile_step_spec(logged_in: bool, failures: int) -> ProfileStep {
    if !logged_in {
        ProfileStep::NoLogin
    } else if failures >= PROFILE_ATTEMPTS {
        ProfileStep::GiveUp
    } else {
        ProfileStep::Request { delay_ms: (700 * failures) as u64 }
    }
}

/// What fetching the profile with `cookie` does after `failures` requests
/// failed (see `profile_step_spec`).
pub fn qishui_profile_step(cookie: &str, failures: u32) -> (r: ProfileStep)
    ensures
        r == profile_step_spec(has_login_spec(cookie@), failures as int),
{
    if !qishui_cookie_has_login(cookie) {
        ProfileStep::NoLogin
    } else if failures >= PROFILE_ATTEMPTS {
        ProfileStep::GiveUp
    } else {
        ProfileStep::Request { delay_ms: 700 * failures as u64 }
    }
}

/// The profile is asked for at most three times, and never without a login.
pub proof fn law_profile_at_most_three_requests(logged_in: bool, failures: int)
    requires
        0 <= failures,
    ensures
        profile_step_spec(logged_in, failures) is Request ==> logged_in && failures < 3,
        logged_in && failures < 3 ==> profile_step_spec(logged_in, failures) is Request,
{
}

/// The login state that the cookie alone shows.
pub open spec fn status_info_spec(cookie: Seq<char>) -> LoginInfoView {
    LoginInfoView {
        provider: "qishui"@,
        logged_in: has_login_spec(cookie),
        user_id: Seq::empty(),
        nickname: Seq::empty(),
        avatar: Seq::empty(),
        vip_type: 0,
        vip_level: Seq::empty(),
        is_vip: false,
        is_svip: false,
    }
}

/// The Qishui login state read from the cookie alone, without the network.
pub fn qishui_status_info(cookie: &str) -> (r: LoginInfo)
    ensures
        r@ == status_info_spec(cookie@),
{
    let logged_in = qishui_cookie_has_login(cookie);
    LoginInfo {
        provider: str_to_string("qishui"),
        logged_in,
        user_id: String::new(),
        nickname: String::new(),
        avatar: String::new(),
        vip_type: 0,
        vip_level: String::new(),
        is_vip: false,
        is_svip: false,
    }
}

// ───────────────────────── reading responses ─────────────────────────

/// The first of `ks` naming a non-empty string or a number, as text; empty
/// when none does.
pub open spec fn qs_str(v: Json, ks: Seq<Seq<char>>) -> Seq<char>
    decreases ks.len(),
{
    if ks.len() == 0 {
        Seq::empty()
    } else {
        match get_spec(v, ks[0]) {
            Some(Json::Str(s)) => if s@.len() > 0 {
                s@
            } else {
                qs_str(v, ks.drop_first())
            },
            Some(Json::Num(n)) => number_text(n),
            _ => qs_str(v, ks.drop_first()),
        }
    }
}

/// The text under the first of `keys` that holds a non-empty string or a number.
pub fn json_str(v: &Json, keys: &[&str]) -> (r: String)
    ensures
        r@ == qs_str(*v, key_views(keys@)),
{
    let ghost kv = key_views(keys@);
    let n = keys.len();
    let mut i: usize = 0;
    assert(kv.subrange(0, n as int) =~= kv);
    while i < n
        invariant
            n == keys@.len(),
            kv == key_views(keys@),
            i <= n,
            qs_str(*v, kv) == qs_str(*v, kv.subrange(i as int, n as int)),
        decreases n - i,
    {
        let ghost sub = kv.subrange(i as int, n as int);
        assert(sub[0] == keys@[i as int]@);
        assert(sub.drop_first() =~= kv.subrange(i + 1, n as int));
        match v.get(keys[i]) {
            Some(Json::Str(s)) => {
                if !str_is_empty(s.as_str()) {
                    return s.clone();
                }
            },
            Some(Json::Num(num)) => {
                return number_string(num);
            },
            _ => {},
        }
        i = i + 1;
    }
    String::new()
}

/// The first of `ks` naming an unsigned integer or a string that reads as one;
/// 0 when none does.
pub open spec fn qs_u64(v: Json, ks: Seq<Seq<char>>) -> u64
    decreases ks.len(),
{
    if ks.len() == 0 {
        0
    } else {
        match get_spec(v, ks[0]) {
            Some(Json::Num(n)) => match u64_of(Json::Num(n)) {
                Some(u) => u,
                None => qs_u64(v, ks.drop_first()),
            },
            Some(Json::Str(s)) => match parse_u64_spec(s@) {
                Some(u) => u,
                None => qs_u64(v, ks.drop_first()),
            },
            _ => qs_u64(v, ks.drop_first()),
        }
    }
}

/// The unsigned integer under the first of `keys` that holds one, as a number
/// or as text.
pub fn json_u64(v: &Json, keys: &[&str]) -> (r: u64)
    ensures
        r == qs_u64(*v, key_views(keys@)),
{
    let ghost kv = key_views(keys@);
    let n = keys.len();
    let mut i: usize = 0;
    assert(kv.subrange(0, n as int) =~= kv);
    while i < n
        invariant
            n == keys@.len(),
            kv == key_views(keys@),
            i <= n,
            qs_u64(*v, kv) == qs_u64(*v, kv.subrange(i as int, n as int)),
        decreases n - i,
    {
        let ghost sub = kv.subrange(i as int, n as int);
        assert(sub[0] == keys@[i as int]@);
        assert(sub.drop_first() =~= kv.subrange(i + 1, n as int));
        match v.get(keys[i]) {
            Some(x) => {
                match x {
                    Json::Num(_) => {
                        match x.as_u64() {
                            Some(u) => {
                                return u;
                            },
                            None => {},
                        }
                    },
                    Json::Str(s) => {
                        let cs = chars_of(s.as_str());
                        match parse_u64(&cs) {
                            Some(u) => {
                                return u;
                            },
                            None => {},
                        }
                    },
                    _ => {},
                }
            },
            None => {},
        }
        i = i + 1;
    }
    0
}

/// The first string found in a value, looking through arrays in order.
pub open spec fn first_url_spec(j: Json) -> Seq<char>
    decreases j,
{
    match j {
        Json::Str(s) => s@,
        Json::Arr(a) => first_url_list(a@),
        _ => Seq::empty(),
    }
}

/// The first string found in a list of values.
pub open spec fn first_url_list(items: Seq<Json>) -> Seq<char>
    decreases items,
{
    if items.len() == 0 {
        Seq::empty()
    } else {
        let h = first_url_spec(items[0]);
        if h.len() > 0 {
            h
        } else {
            first_url_list(items.subrange(1, items.len() as int))
        }
    }
}

/// The first string found in a value, looking through arrays in order.
pub fn qishui_first_url(value: &Json) -> (r: String)
    ensures
        r@ == first_url_spec(*value),
    decreases value,
{
    match value {
        Json::Str(s) => s.clone(),
        Json::Arr(a) => {
            let n = a.len();
            let mut i: usize = 0;
            assert(a@.subrange(0, n as int) =~= a@);
            while i < n
                invariant
                    n == a@.len(),
                    i <= n,
                    *value == Json::Arr(*a),
                    first_url_list(a@) == first_url_list(a@.subrange(i as int, n as int)),
                decreases n - i,
            {
                let ghost sub = a@.subrange(i as int, n as int);
                assert(sub[0] == a@[i as int]);
                assert(sub.subrange(1, sub.len() as int) =~= a@.subrange(i + 1, n as int));
                proof {
                    vstd::std_specs::vec::axiom_vec_index_decreases(*a, i as int);
                    assert(decreases_to!(*value => (*value)->Arr_0));
                    assert(decreases_to!((*value)->Arr_0 => (*value)->Arr_0[i as int]));
                }
                let s = qishui_first_url(&a[i]);
                if !str_is_empty(s.as_str()) {
                    return s;
                }
                i = i + 1;
            }
            String::new()
        },
        _ => String::new(),
    }
}

/// The cover text of an image object: the first of `urls`, `url_list` and `url`
/// that is present, by its first string.
pub open spec fn image_cover_spec(v: Json) -> Seq<char> {
    match get_spec(v, "urls"@) {
        Some(x) => first_url_spec(x),
        None => match get_spec(v, "url_list"@) {
            Some(x) => first_url_spec(x),
            None => match get_spec(v, "url"@) {
                Some(x) => first_url_spec(x),
                None => Seq::empty(),
            },
        },
    }
}

/// An optional string, empty where absent.
pub open spec fn str_or_empty(o: Option<Seq<char>>) -> Seq<char> {
    match o {
        Some(s) => s,
        None => Seq::empty(),
    }
}

/// The image URL of an image object `{urls, uri, template_prefix}`.
pub open spec fn image_obj_spec(v: Json, suffix: Seq<char>) -> Seq<char> {
    let cover = image_cover_spec(v);
    let uri = str_or_empty(ostr(get_spec(v, "uri"@)));
    let out1 = if cover.len() > 0 && uri.len() > 0 && !has_sub(cover, uri) {
        cover + uri
    } else {
        cover
    };
    let out2 = if out1.len() == 0 && has_prefix(uri, "http"@) {
        uri
    } else {
        out1
    };
    let tpl = str_or_empty(ostr(get_spec(v, "template_prefix"@)));
    if !has_prefix(out2, "http"@) {
        Seq::empty()
    } else if out2.contains('~') {
        out2
    } else if tpl.len() > 0 {
        out2 + "~"@ + tpl + "-image.jpeg"@
    } else if suffix.len() > 0 {
        out2 + suffix
    } else {
        out2
    }
}

/// The image URL a value stands for: a `http` string (with `suffix` where it
/// names no template yet), the first image of an array, or an image object.
pub open spec fn image_url_spec(v: Json, suffix: Seq<char>) -> Seq<char>
    decreases v,
{
    match v {
        Json::Null => Seq::empty(),
        Json::Str(s) => if !has_prefix(s@, "http"@) {
            Seq::empty()
        } else if suffix.len() > 0 && !s@.contains('~') {
            s@ + suffix
        } else {
            s@
        },
        Json::Arr(a) => image_url_list(a@, suffix),
        Json::Obj(_) => image_obj_spec(v, suffix),
        _ => Seq::empty(),
    }
}

/// The first image URL of a list of values.
pub open spec fn image_url_list(items: Seq<Json>, suffix: Seq<char>) -> Seq<char>
    decreases items,
{
    if items.len() == 0 {
        Seq::empty()
    } else {
        let h = image_url_spec(items[0], suffix);
        if h.len() > 0 {
            h
        } else {
            image_url_list(items.subrange(1, items.len() as int), suffix)
        }
    }
}

fn opt_str_or_empty(o: Option<&Json>) -> (r: Vec<char>)
    ensures
        r@ == str_or_empty(ostr(deref_opt(o))),
{
    match o {
        Some(x) => match x.as_str() {
            Some(s) => chars_of(s.as_str()),
            None => Vec::new(),
        },
        None => Vec::new(),
    }
}

fn image_obj(v: &Json, suffix: &str) -> (r: String)
    ensures
        r@ == image_obj_spec(*v, suffix@),
{
    let cover: String = match v.get("urls") {
        Some(x) => qishui_first_url(x),
        None => match v.get("url_list") {
            Some(x) => qishui_first_url(x),
            None => match v.get("url") {
                Some(x) => qishui_first_url(x),
                None => String::new(),
            },
        },
    };
    let uri = opt_str_or_empty(v.get("uri"));
    let mut out = chars_of(cover.as_str());
    if out.len() > 0 && uri.len() > 0 && !contains_sub(&out, &uri) {
        append_vec(&mut out, &uri);
    }
    let http = chars_of("http");
    if out.len() == 0 && starts_with(&uri, &http) {
        out = uri;
    }
    if !starts_with(&out, &http) {
        return String::new();
    }
    if contains_char(&out, '~') {
        return string_from_chars(&out);
    }
    let tpl = opt_str_or_empty(v.get("template_prefix"));
    if tpl.len() > 0 {
        proof {
            reveal_strlit("~");
        }
        out.push('~');
        crate::text::append_vec(&mut out, &tpl);
        append_str(&mut out, "-image.jpeg");
        assert(out@ =~= image_obj_spec(*v, suffix@));
    } else if !str_is_empty(suffix) {
        append_str(&mut out, suffix);
    }
    string_from_chars(&out)
}

/// The image URL a value stands for (see `image_url_spec`).
pub fn qishui_image_url(value: &Json, suffix: &str) -> (r: String)
    ensures
        r@ == image_url_spec(*value, suffix@),
    decreases value,
{
    match value {
        Json::Null => String::new(),
        Json::Str(s) => {
            let sv = chars_of(s.as_str());
            let http = chars_of("http");
            if !starts_with(&sv, &http) {
                return String::new();
            }
            if !str_is_empty(suffix) && !contains_char(&sv, '~') {
                let mut out = sv;
                append_str(&mut out, suffix);
                return string_from_chars(&out);
            }
            s.clone()
        },
        Json::Arr(a) => {
            let n = a.len();
            let mut i: usize = 0;
            assert(a@.subrange(0, n as int) =~= a@);
            while i < n
                invariant
                    n == a@.len(),
                    i <= n,
                    *value == Json::Arr(*a),
                    image_url_list(a@, suffix@) == image_url_list(a@.subrange(i as int, n as int), suffix@),
                decreases n - i,
            {
                let ghost sub = a@.subrange(i as int, n as int);
                assert(sub[0] == a@[i as int]);
                assert(sub.subrange(1, sub.len() as int) =~= a@.subrange(i + 1, n as int));
                proof {
                    vstd::std_specs::vec::axiom_vec_index_decreases(*a, i as int);
                    assert(decreases_to!(*value => (*value)->Arr_0));
                    assert(decreases_to!((*value)->Arr_0 => (*value)->Arr_0[i as int]));
                }
                let u = qishui_image_url(&a[i], suffix);
                if !str_is_empty(u.as_str()) {
                    return u;
                }
                i = i + 1;
            }
            String::new()
        },
        Json::Obj(_) => image_obj(value, suffix),
        _ => String::new(),
    }
}

/// The image under the first of `ks` that gives one.
pub open spec fn pick_image_spec(obj: Json, ks: Seq<Seq<char>>, suffix: Seq<char>) -> Seq<char>
    decreases ks.len(),
{
    if ks.len() == 0 {
        Seq::empty()
    } else {
        let u = match get_spec(obj, ks[0]) {
            Some(v) => image_url_spec(v, suffix),
            None => Seq::empty(),
        };
        if u.len() > 0 {
            u
        } else {
            pick_image_spec(obj, ks.drop_first(), suffix)
        }
    }
}

/// The image under the first of `keys` that gives one.
pub fn qishui_pick_image(obj: &Json, keys: &[&str], suffix: &str) -> (r: String)
    ensures
        r@ == pick_image_spec(*obj, key_views(keys@), suffix@),
{
    let ghost kv = key_views(keys@);
    let n = keys.len();
    let mut i: usize = 0;
    assert(kv.subrange(0, n as int) =~= kv);
    while i < n
        invariant
            n == keys@.len(),
            kv == key_views(keys@),
            i <= n,
            pick_image_spec(*obj, kv, suffix@) == pick_image_spec(*obj, kv.subrange(i as int, n as int), suffix@),
        decreases n - i,
    {
        let ghost sub = kv.subrange(i as int, n as int);
        assert(sub[0] == keys@[i as int]@);
        assert(sub.drop_first() =~= kv.subrange(i + 1, n as int));
        match obj.get(keys[i]) {
            Some(v) => {
                let u = qishui_image_url(v, suffix);
                if !str_is_empty(u.as_str()) {
                    return u;
                }
            },
            None => {},
        }
        i = i + 1;
    }
    String::new()
}

// ───────────────────────── media lists ─────────────────────────

/// The keys under which a response may list its media, in the order tried.
pub open spec fn media_list_keys() -> Seq<Seq<char>> {
    seq![
        "media_resources"@, "media_list"@, "related_media"@, "medias"@, "media"@, "tracks"@,
        "track_list"@, "songs"@, "items"@, "list"@, "result"@, "song_list"@,
        "recommend_media_list"@,
    ]
}

/// The first of `ks` under which `data` holds a non-empty array.
pub open spec fn first_nonempty_list(data: Json, ks: Seq<Seq<char>>) -> Option<Seq<Json>>
    decreases ks.len(),
{
    if ks.len() == 0 {
        None
    } else {
        match oarr(get_spec(data, ks[0])) {
            Some(a) => if a.len() > 0 {
                Some(a)
            } else {
                first_nonempty_list(data, ks.drop_first())
            },
            None => first_nonempty_list(data, ks.drop_first()),
        }
    }
}

/// The `data` arrays of a list of search groups, one after another.
pub open spec fn group_items(groups: Seq<Json>) -> Seq<Json>
    decreases groups.len(),
{
    if groups.len() == 0 {
        Seq::empty()
    } else {
        group_items(groups.drop_last()) + match oarr(get_spec(groups.last(), "data"@)) {
            Some(a) => a,
            None => Seq::empty(),
        }
    }
}

/// The media items of a response: under `data` (or the response itself), the
/// first non-empty list among the media keys, else the items of its search
/// result groups.
pub open spec fn extract_media_spec(json: Json) -> Seq<Json> {
    let data = or_json(get_spec(json, "data"@), json);
    match first_nonempty_list(data, media_list_keys()) {
        Some(a) => a,
        None => match oarr(get_spec(data, "result_groups"@)) {
            Some(groups) => group_items(groups),
            None => Seq::empty(),
        },
    }
}

fn push_all<'a>(out: &mut Vec<&'a Json>, a: &'a Vec<Json>)
    ensures
        derefs(final(out)@) == derefs(old(out)@) + a@,
{
    let ghost start = derefs(out@);
    let mut i: usize = 0;
    while i < a.len()
        invariant
            i <= a@.len(),
            derefs(out@) == start + a@.subrange(0, i as int),
        decreases a.len() - i,
    {
        let e = &a[i];
        let ghost before = out@;
        out.push(e);
        assert(derefs(out@) =~= derefs(before).push(*e));
        i = i + 1;
        assert(start + a@.subrange(0, i as int) =~= (start + a@.subrange(0, i - 1)).push(*e));
    }
    assert(a@.subrange(0, a@.len() as int) =~= a@);
}

/// The media items of a luna response (see `extract_media_spec`).
pub fn qishui_extract_media<'a>(json: &'a Json) -> (r: Vec<&'a Json>)
    ensures
        derefs(r@) == extract_media_spec(*json),
{
    let data: &Json = match json.get("data") {
        Some(d) => d,
        None => json,
    };
    let keys: [&str; 13] = [
        "media_resources", "media_list", "related_media", "medias", "media", "tracks",
        "track_list", "songs", "items", "list", "result", "song_list", "recommend_media_list",
    ];
    let ghost kv = key_views(keys@);
    assert(kv =~= media_list_keys());
    let mut i: usize = 0;
    assert(kv.subrange(0, 13) =~= kv);
    while i < 13
        invariant
            i <= 13,
            keys@.len() == 13,
            kv == key_views(keys@),
            kv == media_list_keys(),
            *data == or_json(get_spec(*json, "data"@), *json),
            first_nonempty_list(*data, kv) == first_nonempty_list(*data, kv.subrange(i as int, 13)),
        decreases 13 - i,
    {
        let ghost sub = kv.subrange(i as int, 13);
        assert(sub[0] == keys@[i as int]@);
        assert(sub.drop_first() =~= kv.subrange(i + 1, 13));
        match data.get(keys[i]) {
            Some(v) => match v.as_array() {
                Some(a) => {
                    if a.len() > 0 {
                        let mut out: Vec<&'a Json> = Vec::new();
                        push_all(&mut out, a);
                        assert(derefs(out@) =~= a@);
                        return out;
                    }
                },
                None => {},
            },
            None => {},
        }
        i = i + 1;
    }
    let mut out: Vec<&'a Json> = Vec::new();
    assert(derefs(out@) =~= Seq::<Json>::empty());
    match data.get("result_groups") {
        Some(v) => match v.as_array() {
            Some(groups) => {
                let mut g: usize = 0;
                while g < groups.len()
                    invariant
                        g <= groups@.len(),
                        derefs(out@) == group_items(groups@.subrange(0, g as int)),
                    decreases groups.len() - g,
                {
                    let ghost pre = groups@.subrange(0, g + 1);
                    assert(pre.drop_last() =~= groups@.subrange(0, g as int));
                    match groups[g].get("data") {
                        Some(d) => match d.as_array() {
                            Some(a) => push_all(&mut out, a),
                            None => {
                                assert(derefs(out@) =~= derefs(out@) + Seq::<Json>::empty());
                            },
                        },
                        None => {
                            assert(derefs(out@) =~= derefs(out@) + Seq::<Json>::empty());
                        },
                    }
                    g = g + 1;
                }
                assert(groups@.subrange(0, groups@.len() as int) =~= groups@);
            },
            None => {},
        },
        None => {},
    }
    out
}

// ───────────────────────── media items ─────────────────────────

/// Where the parts of a media item sit: its media, track, base info, display
/// info and related info, each looked up in the nearest object that has it.
pub struct MediaParts {
    pub media: Json,
    pub track: Json,
    pub base: Json,
    pub display: Option<Json>,
    pub related: Option<Json>,
}

/// The parts of a media item.
pub open spec fn media_parts(raw: Json) -> MediaParts {
    let entity = or_json(or_opt(get_spec(raw, "entity"@), get_spec(raw, "data"@)), raw);
    let media = or_json(or_opt(get_spec(entity, "media"@), get_spec(raw, "media"@)), entity);
    let wrapper = or_opt(
        get_spec(entity, "track_wrapper"@),
        or_opt(get_spec(media, "track_wrapper"@), get_spec(raw, "track_wrapper"@)),
    );
    let track = or_json(
        or_opt(
            oget(wrapper, "track"@),
            or_opt(
                get_spec(media, "track_entity"@),
                or_opt(
                    get_spec(raw, "track_entity"@),
                    or_opt(get_spec(media, "track"@), get_spec(raw, "track"@)),
                ),
            ),
        ),
        media,
    );
    let base = or_json(
        or_opt(
            get_spec(track, "base_info"@),
            or_opt(get_spec(media, "base_info"@), get_spec(raw, "base_info"@)),
        ),
        track,
    );
    let display = or_opt(
        get_spec(track, "display_info"@),
        or_opt(get_spec(media, "display_info"@), get_spec(raw, "display_info"@)),
    );
    let related = or_opt(
        get_spec(track, "related_info"@),
        or_opt(get_spec(media, "related_info"@), get_spec(raw, "related_info"@)),
    );
    MediaParts { media, track, base, display, related }
}

fn get_or<'a>(v: &'a Json, key: &str, other: Option<&'a Json>) -> (r: Option<&'a Json>)
    ensures
        deref_opt(r) == or_opt(get_spec(*v, key@), deref_opt(other)),
{
    match v.get(key) {
        Some(x) => Some(x),
        None => other,
    }
}

fn opt_get<'a>(v: Option<&'a Json>, key: &str) -> (r: Option<&'a Json>)
    ensures
        deref_opt(r) == oget(deref_opt(v), key@),
{
    match v {
        Some(x) => x.get(key),
        None => None,
    }
}

fn arr_at<'a>(v: &'a Json, key: &str) -> (r: Option<&'a Vec<Json>>)
    ensures
        match r {
            Some(a) => oarr(get_spec(*v, key@)) == Some(a@),
            None => oarr(get_spec(*v, key@)) is None,
        },
{
    match v.get(key) {
        Some(x) => x.as_array(),
        None => None,
    }
}

fn or_ref<'a>(a: Option<&'a Json>, d: &'a Json) -> (r: &'a Json)
    ensures
        *r == or_json(deref_opt(a), *d),
{
    match a {
        Some(x) => x,
        None => d,
    }
}

fn media_parts_exec<'a>(raw: &'a Json) -> (r: (&'a Json, &'a Json, &'a Json, Option<&'a Json>, Option<&'a Json>))
    ensures
        ({
            let p = media_parts(*raw);
            *r.0 == p.media && *r.1 == p.track && *r.2 == p.base && deref_opt(r.3) == p.display
                && deref_opt(r.4) == p.related
        }),
{
    let entity = or_ref(get_or(raw, "entity", raw.get("data")), raw);
    let media = or_ref(get_or(entity, "media", raw.get("media")), entity);
    let wrapper = get_or(entity, "track_wrapper", get_or(media, "track_wrapper", raw.get("track_wrapper")));
    let track = or_ref(
        match opt_get(wrapper, "track") {
            Some(t) => Some(t),
            None => get_or(
                media,
                "track_entity",
                get_or(raw, "track_entity", get_or(media, "track", raw.get("track"))),
            ),
        },
        media,
    );
    let base = or_ref(get_or(track, "base_info", get_or(media, "base_info", raw.get("base_info"))), track);
    let display = get_or(track, "display_info", get_or(media, "display_info", raw.get("display_info")));
    let related = get_or(track, "related_info", get_or(media, "related_info", raw.get("related_info")));
    (media, track, base, display, related)
}

/// The first non-empty text among a few candidates.
pub open spec fn first_nonempty(a: Seq<char>, b: Seq<char>, c: Seq<char>, d: Seq<char>) -> Seq<char> {
    if a.len() > 0 {
        a
    } else if b.len() > 0 {
        b
    } else if c.len() > 0 {
        c
    } else {
        d
    }
}

/// An optional text, `None` where it is empty.
pub open spec fn nonempty_opt(s: Seq<char>) -> Option<Seq<char>> {
    if s.len() > 0 {
        Some(s)
    } else {
        None
    }
}

/// The artist named by one item of an artist list.
pub open spec fn link_artist(item: Json) -> ArtistView {
    ArtistView {
        id: nonempty_opt(qs_str(item, seq!["id"@])),
        mid: None,
        name: qs_str(
            item,
            seq!["name"@, "display_name"@, "simple_display_name"@, "title"@, "artist_name"@],
        ),
        pic_url: nonempty_opt(pick_image_spec(item, seq!["url_avatar"@, "avatar"@, "pic_url"@], Seq::empty())),
        music_size: None,
    }
}

/// The names of a list of artists.
pub open spec fn artist_names(a: Seq<ArtistView>) -> Seq<Seq<char>> {
    Seq::new(a.len(), |i: int| a[i].name)
}

/// The artists of an artist list: each named item once, by the first item of
/// that name, in order.
pub open spec fn link_artists(links: Seq<Json>) -> Seq<ArtistView>
    decreases links.len(),
{
    if links.len() == 0 {
        Seq::empty()
    } else {
        let prev = link_artists(links.drop_last());
        let a = link_artist(links.last());
        if a.name.len() == 0 || artist_names(prev).contains(a.name) {
            prev
        } else {
            prev.push(a)
        }
    }
}

/// The artist list of a media item.
pub open spec fn artist_links_spec(p: MediaParts) -> Option<Seq<Json>> {
    let from_related = match p.related {
        Some(r) => oarr(or_opt(get_spec(r, "artist_links"@), get_spec(r, "artists"@))),
        None => None,
    };
    match from_related {
        Some(a) => Some(a),
        None => match oarr(get_spec(p.base, "artists"@)) {
            Some(a) => Some(a),
            None => match oarr(get_spec(p.track, "artists"@)) {
                Some(a) => Some(a),
                None => oarr(get_spec(p.media, "artists"@)),
            },
        },
    }
}

/// The album object of a media item.
pub open spec fn album_link_spec(p: MediaParts) -> Option<Json> {
    let from_related = match p.related {
        Some(r) => or_opt(get_spec(r, "album_link"@), get_spec(r, "album"@)),
        None => None,
    };
    or_opt(
        from_related,
        or_opt(
            get_spec(p.base, "album"@),
            or_opt(oget(p.display, "album"@), or_opt(get_spec(p.track, "album"@), get_spec(p.media, "album"@))),
        ),
    )
}

/// The cover of the first source that has one.
pub open spec fn cover_from(srcs: Seq<Option<Json>>) -> Seq<char>
    decreases srcs.len(),
{
    if srcs.len() == 0 {
        Seq::empty()
    } else {
        let c = match srcs[0] {
            Some(s) => pick_image_spec(s, seq!["cover_url"@, "url_cover"@, "cover"@], "~c5_375x375.jpg"@),
            None => Seq::empty(),
        };
        if c.len() > 0 {
            c
        } else {
            cover_from(srcs.drop_first())
        }
    }
}

/// The larger of two numbers.
pub open spec fn max_u64(a: u64, b: u64) -> u64 {
    if a >= b {
        a
    } else {
        b
    }
}

/// A duration in milliseconds: values below ten thousand are taken as seconds.
pub open spec fn as_millis_spec(d: u64) -> int {
    if 0 < d < 10000 {
        d * 1000
    } else {
        d as int
    }
}

/// A luna media item as a song: `None` without an id or a name.
pub open spec fn map_media_spec(raw: Json) -> Option<SongView> {
    let p = media_parts(raw);
    let id = first_nonempty(
        qs_str(p.base, seq!["id"@]),
        qs_str(p.track, seq!["id"@]),
        qs_str(p.media, seq!["id"@]),
        qs_str(raw, seq!["id"@, "media_id"@, "item_id"@, "song_id"@]),
    );
    let name = first_nonempty(
        qs_str(p.base, seq!["name"@, "title"@]),
        qs_str(p.track, seq!["name"@, "title"@]),
        qs_str(p.media, seq!["name"@, "title"@]),
        qs_str(raw, seq!["name"@, "title"@]),
    );
    if id.len() == 0 || name.len() == 0 {
        None
    } else {
        let artists = match artist_links_spec(p) {
            Some(links) => link_artists(links),
            None => Seq::empty(),
        };
        let artist = if artists.len() == 0 {
            qs_str(p.base, seq!["author"@])
        } else {
            crate::text::join_sep(artist_names(artists), " / "@)
        };
        let album_link = album_link_spec(p);
        let album = match album_link {
            Some(a) => qs_str(a, seq!["name"@, "title"@]),
            None => Seq::empty(),
        };
        let cover = cover_from(seq![p.display, Some(p.base), album_link, Some(p.track), Some(p.media), Some(raw)]);
        let d = max_u64(
            max_u64(
                max_u64(qs_u64(p.base, seq!["duration_ms"@, "duration"@]), qs_u64(p.track, seq!["duration_ms"@, "duration"@])),
                qs_u64(p.media, seq!["duration_ms"@, "duration"@]),
            ),
            qs_u64(raw, seq!["duration_ms"@, "duration"@]),
        );
        let vip = obool(oget(get_spec(p.track, "label_info"@), "only_vip_playable"@)) == Some(true);
        Some(SongView {
            provider: "qishui"@,
            id,
            content_id: None,
            name,
            artist,
            artists,
            album,
            cover,
            duration: as_millis_spec(d) as u64,
            fee: if vip { 1 } else { 0 },
            playable: true,
        })
    }
}

fn opt_string(s: String) -> (r: Option<String>)
    ensures
        ov(r) == nonempty_opt(s@),
{
    if str_is_empty(s.as_str()) {
        None
    } else {
        Some(s)
    }
}

fn name_taken(a: &Vec<Artist>, name: &String) -> (b: bool)
    ensures
        b == artist_names(artist_views(a@)).contains(name@),
{
    let mut i: usize = 0;
    while i < a.len()
        invariant
            i <= a@.len(),
            forall|j: int| 0 <= j < i ==> artist_names(artist_views(a@))[j] != name@,
        decreases a.len() - i,
    {
        if a[i].name == *name {
            assert(artist_names(artist_views(a@))[i as int] == name@);
            return true;
        }
        i = i + 1;
    }
    false
}

fn link_artists_exec(links: &Vec<Json>) -> (r: Vec<Artist>)
    ensures
        artist_views(r@) == link_artists(links@),
{
    let mut out: Vec<Artist> = Vec::new();
    let mut i: usize = 0;
    while i < links.len()
        invariant
            i <= links@.len(),
            artist_views(out@) == link_artists(links@.subrange(0, i as int)),
        decreases links.len() - i,
    {
        let ghost pre = links@.subrange(0, i + 1);
        assert(pre.drop_last() =~= links@.subrange(0, i as int));
        let item = &links[i];
        let k_name: [&str; 5] = ["name", "display_name", "simple_display_name", "title", "artist_name"];
        let k_id: [&str; 1] = ["id"];
        let k_pic: [&str; 3] = ["url_avatar", "avatar", "pic_url"];
        assert(key_views(k_name@) =~= seq!["name"@, "display_name"@, "simple_display_name"@, "title"@, "artist_name"@]);
        assert(key_views(k_id@) =~= seq!["id"@]);
        assert(key_views(k_pic@) =~= seq!["url_avatar"@, "avatar"@, "pic_url"@]);
        proof {
            reveal_strlit("");
            assert(""@ =~= Seq::<char>::empty());
        }
        let an = json_str(item, &k_name);
        assert(an@ == link_artist(links@[i as int]).name);
        if !str_is_empty(an.as_str()) && !name_taken(&out, &an) {
            let aid = json_str(item, &k_id);
            let pic = qishui_pick_image(item, &k_pic, "");
            let ghost before = artist_views(out@);
            let a = Artist { id: opt_string(aid), mid: None, name: an, pic_url: opt_string(pic), music_size: None };
            let ghost la = link_artist(links@[i as int]);
            assert(a@.id == la.id);
            assert(a@.name == la.name);
            assert(a@.pic_url == la.pic_url);
            assert(a@ == la);
            out.push(a);
            assert(artist_views(out@) =~= before.push(a@));
        }
        i = i + 1;
    }
    assert(links@.subrange(0, links@.len() as int) =~= links@);
    out
}

fn artist_names_exec(a: &Vec<Artist>) -> (r: Vec<String>)
    ensures
        crate::text::strs(r@) == artist_names(artist_views(a@)),
{
    let mut out: Vec<String> = Vec::new();
    let mut i: usize = 0;
    while i < a.len()
        invariant
            i <= a@.len(),
            crate::text::strs(out@) == artist_names(artist_views(a@)).subrange(0, i as int),
        decreases a.len() - i,
    {
        assert(artist_names(artist_views(a@))[i as int] == a@[i as int].name@);
        let nm = copy_string(&a[i].name);
        let ghost before = crate::text::strs(out@);
        out.push(nm);
        assert(crate::text::strs(out@) =~= before.push(nm@));
        i = i + 1;
        assert(crate::text::strs(out@) =~= artist_names(artist_views(a@)).subrange(0, i as int));
    }
    assert(artist_names(artist_views(a@)).subrange(0, a@.len() as int) =~= artist_names(artist_views(a@)));
    out
}

fn first_nonempty_exec(a: String, b: String, c: String, d: String) -> (r: String)
    ensures
        r@ == first_nonempty(a@, b@, c@, d@),
{
    if !str_is_empty(a.as_str()) {
        a
    } else if !str_is_empty(b.as_str()) {
        b
    } else if !str_is_empty(c.as_str()) {
        c
    } else {
        d
    }
}

fn cover_of(src: Option<&Json>) -> (r: String)
    ensures
        r@ == match deref_opt(src) {
            Some(s) => pick_image_spec(s, seq!["cover_url"@, "url_cover"@, "cover"@], "~c5_375x375.jpg"@),
            None => Seq::empty(),
        },
{
    match src {
        Some(s) => {
            let keys: [&str; 3] = ["cover_url", "url_cover", "cover"];
            assert(key_views(keys@) =~= seq!["cover_url"@, "url_cover"@, "cover"@]);
            qishui_pick_image(s, &keys, "~c5_375x375.jpg")
        },
        None => String::new(),
    }
}

/// Maps a luna media item to a song (see `map_media_spec`).
#[verifier::rlimit(50)]
pub fn qishui_map_media(raw: &Json) -> (r: Option<Song>)
    ensures
        match r {
            Some(s) => map_media_spec(*raw) == Some(s@),
            None => map_media_spec(*raw) is None,
        },
{
    let (media, track, base, display, related) = media_parts_exec(raw);
    let ghost p = media_parts(*raw);
    let k_id: [&str; 1] = ["id"];
    let k_raw_id: [&str; 4] = ["id", "media_id", "item_id", "song_id"];
    let k_name: [&str; 2] = ["name", "title"];
    assert(key_views(k_id@) =~= seq!["id"@]);
    assert(key_views(k_raw_id@) =~= seq!["id"@, "media_id"@, "item_id"@, "song_id"@]);
    assert(key_views(k_name@) =~= seq!["name"@, "title"@]);
    let id = first_nonempty_exec(json_str(base, &k_id), json_str(track, &k_id), json_str(media, &k_id), json_str(raw, &k_raw_id));
    let name = first_nonempty_exec(json_str(base, &k_name), json_str(track, &k_name), json_str(media, &k_name), json_str(raw, &k_name));
    if str_is_empty(id.as_str()) || str_is_empty(name.as_str()) {
        return None;
    }
    let links: Option<&Vec<Json>> = {
        let from_related = match related {
            Some(r) => match get_or(r, "artist_links", r.get("artists")) {
                Some(x) => x.as_array(),
                None => None,
            },
            None => None,
        };
        match from_related {
            Some(a) => Some(a),
            None => match arr_at(base, "artists") {
                Some(a) => Some(a),
                None => match arr_at(track, "artists") {
                    Some(a) => Some(a),
                    None => arr_at(media, "artists"),
                },
            },
        }
    };
    assert(match links {
        Some(l) => artist_links_spec(p) == Some(l@),
        None => artist_links_spec(p) is None,
    });
    let artists: Vec<Artist> = match links {
        Some(l) => link_artists_exec(l),
        None => Vec::new(),
    };
    let artist = if artists.len() == 0 {
        let k_author: [&str; 1] = ["author"];
        assert(key_views(k_author@) =~= seq!["author"@]);
        json_str(base, &k_author)
    } else {
        let names = artist_names_exec(&artists);
        crate::text::join_strings(&names, " / ")
    };
    let album_link: Option<&Json> = {
        let from_related = match related {
            Some(r) => get_or(r, "album_link", r.get("album")),
            None => None,
        };
        match from_related {
            Some(x) => Some(x),
            None => get_or(base, "album", match opt_get(display, "album") {
                Some(x) => Some(x),
                None => get_or(track, "album", media.get("album")),
            }),
        }
    };
    assert(deref_opt(album_link) == album_link_spec(p));
    let album = match album_link {
        Some(a) => json_str(a, &k_name),
        None => String::new(),
    };
    let mut cover = cover_of(display);
    if str_is_empty(cover.as_str()) {
        cover = cover_of(Some(base));
    }
    if str_is_empty(cover.as_str()) {
        cover = cover_of(album_link);
    }
    if str_is_empty(cover.as_str()) {
        cover = cover_of(Some(track));
    }
    if str_is_empty(cover.as_str()) {
        cover = cover_of(Some(media));
    }
    if str_is_empty(cover.as_str()) {
        cover = cover_of(Some(raw));
    }
    proof {
        let srcs = seq![p.display, Some(p.base), album_link_spec(p), Some(p.track), Some(p.media), Some(*raw)];
        assert(srcs.drop_first().drop_first().drop_first().drop_first().drop_first().drop_first().len() == 0);
        reveal_with_fuel(cover_from, 7);
    }
    let k_dur: [&str; 2] = ["duration_ms", "duration"];
    assert(key_views(k_dur@) =~= seq!["duration_ms"@, "duration"@]);
    let d1 = json_u64(base, &k_dur);
    let d2 = json_u64(track, &k_dur);
    let d3 = json_u64(media, &k_dur);
    let d4 = json_u64(raw, &k_dur);
    let mut d = if d1 >= d2 { d1 } else { d2 };
    d = if d >= d3 { d } else { d3 };
    d = if d >= d4 { d } else { d4 };
    if d > 0 && d < 10000 {
        d = d * 1000;
    }
    let vip = match opt_get(track.get("label_info"), "only_vip_playable") {
        Some(v) => match v.as_bool() {
            Some(b) => b,
            None => false,
        },
        None => false,
    };
    proof {
        let sp = map_media_spec(*raw);
        assert(sp is Some);
        let v = sp->0;
        assert(v.id == id@);
        assert(v.name == name@);
        assert(v.artists == artist_views(artists@));
        assert(v.artist == artist@);
        assert(v.album == album@);
        assert(v.cover == cover@);
        assert(v.duration == d);
        assert(v.fee == if vip { 1i32 } else { 0i32 });
    }
    let song = Song {
        provider: str_to_string("qishui"),
        id,
        content_id: None,
        name,
        artist,
        artists,
        album,
        cover,
        duration: d,
        fee: if vip { 1 } else { 0 },
        playable: true,
    };
    Some(song)
}

// ───────────────────────── profile ─────────────────────────

/// A loosely typed flag: a boolean, a positive integer, or a text other than
/// empty, `0`, `false`, `none` and `normal` (after trimming, in any case).
pub open spec fn truthy_spec(v: Option<Json>) -> bool {
    match v {
        Some(Json::Bool(b)) => b,
        Some(Json::Num(n)) => match i64_of(Json::Num(n)) {
            Some(i) => i > 0,
            None => false,
        },
        Some(Json::Str(t)) => {
            let l = crate::text::ascii_lower_seq(crate::text::trim(t@));
            l.len() > 0 && l != "0"@ && l != "false"@ && l != "none"@ && l != "normal"@
        },
        _ => false,
    }
}

/// Reads a loosely typed flag (see `truthy_spec`).
pub fn json_truthy(value: Option<&Json>) -> (b: bool)
    ensures
        b == truthy_spec(deref_opt(value)),
{
    match value {
        Some(v) => match v {
            Json::Bool(f) => *f,
            Json::Num(_) => match v.as_i64() {
                Some(i) => i > 0,
                None => false,
            },
            Json::Str(t) => {
                let cs = chars_of(t.as_str());
                let trimmed = crate::text::trim_vec(&cs);
                let l = crate::text::ascii_lower_vec(&trimmed);
                let ls = string_from_chars(&l);
                let x = ls.as_str();
                l.len() > 0 && !crate::text::str_eq(x, "0") && !crate::text::str_eq(x, "false")
                    && !crate::text::str_eq(x, "none") && !crate::text::str_eq(x, "normal")
            },
            _ => false,
        },
        None => false,
    }
}

/// Some container has some key whose flag is set.
pub open spec fn any_truthy(cs: Seq<Json>, ks: Seq<Seq<char>>) -> bool {
    exists|i: int, j: int| 0 <= i < cs.len() && 0 <= j < ks.len() && truthy_spec(get_spec(cs[i], ks[j]))
}

/// The first container with a non-empty VIP level text.
pub open spec fn level_from(cs: Seq<Json>) -> Seq<char>
    decreases cs.len(),
{
    if cs.len() == 0 {
        Seq::empty()
    } else {
        let l = qs_str(cs[0], seq!["vip_stage"@, "vip_level"@, "vip_type_name"@]);
        if l.len() > 0 {
            l
        } else {
            level_from(cs.drop_first())
        }
    }
}

/// The objects in which a profile may keep its membership flags.
pub open spec fn vip_containers(me: Json) -> Seq<Json> {
    seq![
        me,
        or_json(get_spec(me, "vip_info"@), Json::Null),
        or_json(get_spec(me, "vip"@), Json::Null),
        or_json(get_spec(me, "vip_status"@), Json::Null),
        or_json(get_spec(me, "member_info"@), Json::Null),
    ]
}

/// The keys of a super-membership flag.
pub open spec fn svip_keys() -> Seq<Seq<char>> {
    seq!["is_svip"@, "is_super_vip"@, "is_luxury_vip"@, "svip"@, "is_svip_valid"@]
}

/// The keys of a membership flag.
pub open spec fn vip_keys() -> Seq<Seq<char>> {
    seq!["is_vip"@, "vip"@, "is_member"@, "member"@, "vip_valid"@]
}

/// The login state shown by a `/luna/pc/me` response.
pub open spec fn profile_spec(json: Json) -> LoginInfoView {
    let me = or_json(or_opt(get_spec(json, "my_info"@), oget(get_spec(json, "data"@), "my_info"@)), json);
    let user_id = qs_str(me, seq!["id"@]);
    let nick0 = qs_str(me, seq!["nickname"@]);
    let nickname = if nick0.len() > 0 {
        nick0
    } else {
        qs_str(me, seq!["public_name"@])
    };
    let avatar = pick_image_spec(
        me,
        seq!["larger_avatar_url"@, "medium_avatar_url"@, "avatar_url"@, "avatar"@],
        Seq::empty(),
    );
    let cs = vip_containers(me);
    let level0 = level_from(cs);
    let stage = crate::text::ascii_lower_seq(level0);
    let svip = any_truthy(cs, svip_keys()) || has_sub(stage, "svip"@) || has_sub(stage, "super"@);
    let vip = any_truthy(cs, vip_keys()) || has_sub(stage, "vip"@) || svip;
    let level = if level0.len() > 0 {
        level0
    } else if svip {
        "svip"@
    } else if vip {
        "vip"@
    } else {
        "none"@
    };
    LoginInfoView {
        provider: "qishui"@,
        logged_in: user_id.len() > 0 || nickname.len() > 0,
        user_id,
        nickname,
        avatar,
        vip_type: if svip {
            2
        } else if vip {
            1
        } else {
            0
        },
        vip_level: level,
        is_vip: vip,
        is_svip: svip,
    }
}

fn any_truthy_exec(cs: &Vec<&Json>, keys: &[&str]) -> (b: bool)
    ensures
        b == any_truthy(derefs(cs@), key_views(keys@)),
{
    let ghost dc = derefs(cs@);
    let ghost kv = key_views(keys@);
    let mut i: usize = 0;
    while i < cs.len()
        invariant
            i <= cs@.len(),
            dc == derefs(cs@),
            kv == key_views(keys@),
            forall|a: int, j: int| 0 <= a < i && 0 <= j < kv.len() ==> !truthy_spec(get_spec(dc[a], kv[j])),
        decreases cs.len() - i,
    {
        let mut j: usize = 0;
        while j < keys.len()
            invariant
                i < cs@.len(),
                j <= keys@.len(),
                dc == derefs(cs@),
                kv == key_views(keys@),
                forall|a: int, k: int| 0 <= a < i && 0 <= k < kv.len() ==> !truthy_spec(get_spec(dc[a], kv[k])),
                forall|k: int| 0 <= k < j ==> !truthy_spec(get_spec(dc[i as int], kv[k])),
            decreases keys.len() - j,
        {
            assert(dc[i as int] == *cs@[i as int]);
            assert(kv[j as int] == keys@[j as int]@);
            if json_truthy(cs[i].get(keys[j])) {
                return true;
            }
            j = j + 1;
        }
        i = i + 1;
    }
    false
}

/// The login state shown by a `/luna/pc/me` response (see `profile_spec`).
#[verifier::rlimit(40)]
pub fn qishui_profile_from(json: &Json) -> (r: LoginInfo)
    ensures
        r@ == profile_spec(*json),
{
    let me: &Json = match json.get("my_info") {
        Some(m) => m,
        None => match opt_get(json.get("data"), "my_info") {
            Some(m) => m,
            None => json,
        },
    };
    let k_id: [&str; 1] = ["id"];
    let k_nick: [&str; 1] = ["nickname"];
    let k_pub: [&str; 1] = ["public_name"];
    let k_av: [&str; 4] = ["larger_avatar_url", "medium_avatar_url", "avatar_url", "avatar"];
    let k_level: [&str; 3] = ["vip_stage", "vip_level", "vip_type_name"];
    let k_svip: [&str; 5] = ["is_svip", "is_super_vip", "is_luxury_vip", "svip", "is_svip_valid"];
    let k_vip: [&str; 5] = ["is_vip", "vip", "is_member", "member", "vip_valid"];
    assert(key_views(k_id@) =~= seq!["id"@]);
    assert(key_views(k_nick@) =~= seq!["nickname"@]);
    assert(key_views(k_pub@) =~= seq!["public_name"@]);
    assert(key_views(k_av@) =~= seq!["larger_avatar_url"@, "medium_avatar_url"@, "avatar_url"@, "avatar"@]);
    assert(key_views(k_level@) =~= seq!["vip_stage"@, "vip_level"@, "vip_type_name"@]);
    assert(key_views(k_svip@) =~= svip_keys());
    assert(key_views(k_vip@) =~= vip_keys());
    proof {
        reveal_strlit("");
        assert(""@ =~= Seq::<char>::empty());
    }
    let user_id = json_str(me, &k_id);
    let mut nickname = json_str(me, &k_nick);
    if str_is_empty(nickname.as_str()) {
        nickname = json_str(me, &k_pub);
    }
    let avatar = qishui_pick_image(me, &k_av, "");
    let null = Json::Null;
    let cs: Vec<&Json> = vec![
        me,
        or_ref(me.get("vip_info"), &null),
        or_ref(me.get("vip"), &null),
        or_ref(me.get("vip_status"), &null),
        or_ref(me.get("member_info"), &null),
    ];
    let ghost cv = vip_containers(*me);
    assert(derefs(cs@) =~= cv);
    let mut level = String::new();
    let mut i: usize = 0;
    assert(cv.subrange(0, 5) =~= cv);
    while i < 5
        invariant
            i <= 5,
            cs@.len() == 5,
            derefs(cs@) == cv,
            key_views(k_level@) == seq!["vip_stage"@, "vip_level"@, "vip_type_name"@],
            level@.len() == 0 ==> level_from(cv) == level_from(cv.subrange(i as int, 5)),
            level@.len() > 0 ==> level_from(cv) == level@,
        decreases 5 - i,
    {
        let ghost sub = cv.subrange(i as int, 5);
        assert(sub[0] == *cs@[i as int]);
        assert(sub.drop_first() =~= cv.subrange(i + 1, 5));
        if str_is_empty(level.as_str()) {
            level = json_str(cs[i], &k_level);
        }
        i = i + 1;
    }
    assert(cv.subrange(5, 5) =~= Seq::<Json>::empty());
    assert(level@ == level_from(cv));
    let svip_flag = any_truthy_exec(&cs, &k_svip);
    let vip_flag = any_truthy_exec(&cs, &k_vip);
    let lv = chars_of(level.as_str());
    let stage = crate::text::ascii_lower_vec(&lv);
    let is_svip = svip_flag || contains_sub(&stage, &chars_of("svip")) || contains_sub(&stage, &chars_of("super"));
    let is_vip = vip_flag || contains_sub(&stage, &chars_of("vip")) || is_svip;
    if str_is_empty(level.as_str()) {
        level = if is_svip {
            str_to_string("svip")
        } else if is_vip {
            str_to_string("vip")
        } else {
            str_to_string("none")
        };
    }
    let logged_in = !str_is_empty(user_id.as_str()) || !str_is_empty(nickname.as_str());
    proof {
        let sp = profile_spec(*json);
        assert(*me == or_json(or_opt(get_spec(*json, "my_info"@), oget(get_spec(*json, "data"@), "my_info"@)), *json));
        assert(sp.user_id == user_id@);
        assert(sp.nickname == nickname@);
        assert(sp.avatar == avatar@);
        assert(sp.is_svip == is_svip);
        assert(sp.is_vip == is_vip);
        assert(sp.vip_level == level@);
    }
    LoginInfo {
        provider: str_to_string("qishui"),
        logged_in,
        user_id,
        nickname,
        avatar,
        vip_type: if is_svip {
            2
        } else if is_vip {
            1
        } else {
            0
        },
        vip_level: level,
        is_vip,
        is_svip,
    }
}

/// What `qishui_status` and the login overview report: the fetched profile,
/// else the one kept from an earlier start, else what the cookie alone shows;
/// nothing for a cookie without a login.
pub fn qishui_login_status(cookie: &str, fetched: Option<LoginInfo>, cached: Option<LoginInfo>) -> (r: Option<LoginInfo>)
    ensures
        match r {
            Some(i) => cookie@.len() > 0 && has_login_spec(cookie@) && i@ == match fetched {
                Some(f) => f@,
                None => match cached {
                    Some(c) => c@,
                    None => status_info_spec(cookie@),
                },
            },
            None => cookie@.len() == 0 || !has_login_spec(cookie@),
        },
{
    if str_is_empty(cookie) || !qishui_cookie_has_login(cookie) {
        return None;
    }
    match fetched {
        Some(f) => Some(f),
        None => match cached {
            Some(c) => Some(c),
            None => Some(qishui_status_info(cookie)),
        },
    }
}

// ───────────────────────── songs and playlists ─────────────────────────

/// The songs of a list of media items, skipping those without an id or a name.
pub open spec fn media_songs(items: Seq<Json>) -> Seq<SongView>
    decreases items.len(),
{
    if items.len() == 0 {
        Seq::empty()
    } else {
        let prev = media_songs(items.drop_last());
        match map_media_spec(items.last()) {
            Some(s) => prev.push(s),
            None => prev,
        }
    }
}

/// Maps media items to songs.
pub fn qishui_songs_of(items: &Vec<&Json>) -> (r: Vec<Song>)
    ensures
        super::models::song_views(r@) == media_songs(derefs(items@)),
{
    let ghost d = derefs(items@);
    let mut out: Vec<Song> = Vec::new();
    let mut i: usize = 0;
    while i < items.len()
        invariant
            i <= items@.len(),
            d == derefs(items@),
            super::models::song_views(out@) == media_songs(d.subrange(0, i as int)),
        decreases items.len() - i,
    {
        let ghost pre = d.subrange(0, i + 1);
        assert(pre.drop_last() =~= d.subrange(0, i as int));
        assert(pre.last() == *items@[i as int]);
        match qishui_map_media(items[i]) {
            Some(song) => {
                let ghost before = super::models::song_views(out@);
                out.push(song);
                assert(super::models::song_views(out@) =~= before.push(song@));
            },
            None => {},
        }
        i = i + 1;
    }
    assert(d.subrange(0, d.len() as int) =~= d);
    out
}

/// The songs of a luna response's media list.
pub fn qishui_media_songs(json: &Json) -> (r: Vec<Song>)
    ensures
        super::models::song_views(r@) == media_songs(extract_media_spec(*json)),
{
    let raw = qishui_extract_media(json);
    qishui_songs_of(&raw)
}

/// The first `n` items of a list (all where it has fewer).
pub open spec fn take<A>(s: Seq<A>, n: int) -> Seq<A> {
    if s.len() <= n {
        s
    } else {
        s.subrange(0, n)
    }
}

/// `limit.unwrap_or(default).clamp(lo, hi)`.
pub open spec fn clamp_limit(limit: Option<u32>, default: u32, lo: u32, hi: u32) -> u32 {
    let l = match limit {
        Some(x) => x,
        None => default,
    };
    if l < lo {
        lo
    } else if l > hi {
        hi
    } else {
        l
    }
}

/// `limit.unwrap_or(default).clamp(lo, hi)`.
pub fn clamp_limit_exec(limit: Option<u32>, default: u32, lo: u32, hi: u32) -> (r: u32)
    requires
        lo <= hi,
    ensures
        r == clamp_limit(limit, default, lo, hi),
{
    let l = match limit {
        Some(x) => x,
        None => default,
    };
    if l < lo {
        lo
    } else if l > hi {
        hi
    } else {
        l
    }
}

fn truncate_songs(v: &mut Vec<Song>, n: usize)
    ensures
        super::models::song_views(final(v)@) == take(super::models::song_views(old(v)@), n as int),
{
    if v.len() > n {
        v.truncate(n);
        assert(super::models::song_views(v@) =~= super::models::song_views(old(v)@).subrange(0, n as int));
    }
}

/// The songs of a listening-mode feed response, at most `limit` of them
/// (40 by default, clamped to 1..=100).
pub fn qishui_feed_songs(json: &Json, limit: Option<u32>) -> (r: Vec<Song>)
    ensures
        super::models::song_views(r@) == take(
            match oarr(get_spec(*json, "items"@)) {
                Some(a) => media_songs(a),
                None => Seq::empty(),
            },
            clamp_limit(limit, 40, 1, 100) as int,
        ),
{
    let n = clamp_limit_exec(limit, 40, 1, 100);
    let mut songs: Vec<Song> = match arr_at(json, "items") {
        Some(a) => {
            let mut refs: Vec<&Json> = Vec::new();
            push_all(&mut refs, a);
            assert(derefs(refs@) =~= a@);
            qishui_songs_of(&refs)
        },
        None => Vec::new(),
    };
    truncate_songs(&mut songs, n as usize);
    songs
}

/// The playlist cards of a collection response (album cards are left out).
pub open spec fn collection_cards_spec(body: Json) -> Seq<Json> {
    match oarr(get_spec(body, "mixed_collections"@)) {
        Some(items) => playlist_children(items),
        None => Seq::empty(),
    }
}

/// The `playlist` objects of a list of collection items.
pub open spec fn playlist_children(items: Seq<Json>) -> Seq<Json>
    decreases items.len(),
{
    if items.len() == 0 {
        Seq::empty()
    } else {
        let prev = playlist_children(items.drop_last());
        match get_spec(items.last(), "playlist"@) {
            Some(p) => if p is Obj {
                prev.push(p)
            } else {
                prev
            },
            None => prev,
        }
    }
}

/// The playlist cards of a collection response.
pub fn qishui_collection_cards<'a>(body: &'a Json) -> (r: Vec<&'a Json>)
    ensures
        derefs(r@) == collection_cards_spec(*body),
{
    let mut out: Vec<&'a Json> = Vec::new();
    match arr_at(body, "mixed_collections") {
        Some(items) => {
            let mut i: usize = 0;
            while i < items.len()
                invariant
                    i <= items@.len(),
                    derefs(out@) == playlist_children(items@.subrange(0, i as int)),
                decreases items.len() - i,
            {
                let ghost pre = items@.subrange(0, i + 1);
                assert(pre.drop_last() =~= items@.subrange(0, i as int));
                match items[i].get("playlist") {
                    Some(p) => {
                        if p.is_object() {
                            let ghost before = derefs(out@);
                            out.push(p);
                            assert(derefs(out@) =~= before.push(*p));
                        }
                    },
                    None => {},
                }
                i = i + 1;
            }
            assert(items@.subrange(0, items@.len() as int) =~= items@);
        },
        None => {},
    }
    assert(derefs(out@) =~= collection_cards_spec(*body));
    out
}

/// A playlist node (a collection card or a search entity) as a playlist;
/// `None` without an id.
pub open spec fn playlist_node_spec(node: Json) -> Option<PlaylistView> {
    let id = qs_str(node, seq!["id"@, "playlist_id"@]);
    if id.len() == 0 {
        None
    } else {
        let n0 = qs_str(node, seq!["title"@, "public_title"@, "name"@]);
        let c0 = qs_u64(node, seq!["count_tracks"@, "count_media"@, "song_count"@, "count"@, "total"@]) as u32;
        let cr0 = qs_str(or_json(get_spec(node, "owner"@), Json::Null), seq!["nickname"@, "public_name"@]);
        Some(PlaylistView {
            provider: "qishui"@,
            id,
            name: if n0.len() > 0 { n0 } else { "未命名歌单"@ },
            cover: pick_image_spec(node, seq!["url_cover"@, "cover_url"@, "cover"@], "~c5_300x300.jpg"@),
            track_count: if c0 == 0 { visible_count(node) } else { c0 },
            creator: if cr0.len() > 0 {
                cr0
            } else {
                qs_str(node, seq!["creator_name"@, "artist_name"@, "author_name"@])
            },
            subscribed: true,
        })
    }
}

/// `stats.count_visible`, as a track count.
pub open spec fn visible_count(node: Json) -> u32 {
    match ou64(oget(get_spec(node, "stats"@), "count_visible"@)) {
        Some(u) => u as u32,
        None => 0,
    }
}

fn visible_count_exec(node: &Json) -> (r: u32)
    ensures
        r == visible_count(*node),
{
    match opt_get(node.get("stats"), "count_visible") {
        Some(v) => match v.as_u64() {
            Some(u) => #[verifier::truncate] (u as u32),
            None => 0,
        },
        None => 0,
    }
}

/// Maps a playlist node to a playlist (see `playlist_node_spec`).
pub fn qishui_map_playlist_node(node: &Json) -> (r: Option<Playlist>)
    ensures
        match r {
            Some(p) => playlist_node_spec(*node) == Some(p@),
            None => playlist_node_spec(*node) is None,
        },
{
    let k_id: [&str; 2] = ["id", "playlist_id"];
    let k_name: [&str; 3] = ["title", "public_title", "name"];
    let k_cover: [&str; 3] = ["url_cover", "cover_url", "cover"];
    let k_count: [&str; 5] = ["count_tracks", "count_media", "song_count", "count", "total"];
    let k_owner: [&str; 2] = ["nickname", "public_name"];
    let k_creator: [&str; 3] = ["creator_name", "artist_name", "author_name"];
    assert(key_views(k_id@) =~= seq!["id"@, "playlist_id"@]);
    assert(key_views(k_name@) =~= seq!["title"@, "public_title"@, "name"@]);
    assert(key_views(k_cover@) =~= seq!["url_cover"@, "cover_url"@, "cover"@]);
    assert(key_views(k_count@) =~= seq!["count_tracks"@, "count_media"@, "song_count"@, "count"@, "total"@]);
    assert(key_views(k_owner@) =~= seq!["nickname"@, "public_name"@]);
    assert(key_views(k_creator@) =~= seq!["creator_name"@, "artist_name"@, "author_name"@]);
    let id = json_str(node, &k_id);
    if str_is_empty(id.as_str()) {
        return None;
    }
    let mut name = json_str(node, &k_name);
    if str_is_empty(name.as_str()) {
        name = str_to_string("未命名歌单");
    }
    let cover = qishui_pick_image(node, &k_cover, "~c5_300x300.jpg");
    let c0 = json_u64(node, &k_count);
    let mut track_count: u32 = #[verifier::truncate] (c0 as u32);
    if track_count == 0 {
        track_count = visible_count_exec(node);
    }
    let null = Json::Null;
    let owner = or_ref(node.get("owner"), &null);
    let mut creator = json_str(owner, &k_owner);
    if str_is_empty(creator.as_str()) {
        creator = json_str(node, &k_creator);
    }
    Some(Playlist {
        provider: str_to_string("qishui"),
        id,
        name,
        cover,
        track_count,
        creator,
        subscribed: true,
    })
}

/// One of the user's own playlists as a playlist; `None` without an id.
pub open spec fn created_playlist_spec(pl: Json) -> Option<PlaylistView> {
    let id = qs_str(pl, seq!["id"@]);
    if id.len() == 0 {
        None
    } else {
        let n0 = qs_str(pl, seq!["title"@, "public_title"@, "name"@]);
        let c0 = qs_u64(pl, seq!["count_tracks"@]) as u32;
        Some(PlaylistView {
            provider: "qishui"@,
            id,
            name: if n0.len() > 0 { n0 } else { "未命名歌单"@ },
            cover: pick_image_spec(pl, seq!["url_cover"@, "cover_url"@, "cover"@], "~c5_300x300.jpg"@),
            track_count: if c0 == 0 { visible_count(pl) } else { c0 },
            creator: str_or_empty(ostr(oget(get_spec(pl, "owner"@), "nickname"@))),
            subscribed: false,
        })
    }
}

/// Maps one of the user's own playlists (see `created_playlist_spec`).
pub fn qishui_created_playlist(pl: &Json) -> (r: Option<Playlist>)
    ensures
        match r {
            Some(p) => created_playlist_spec(*pl) == Some(p@),
            None => created_playlist_spec(*pl) is None,
        },
{
    let k_id: [&str; 1] = ["id"];
    let k_name: [&str; 3] = ["title", "public_title", "name"];
    let k_cover: [&str; 3] = ["url_cover", "cover_url", "cover"];
    let k_count: [&str; 1] = ["count_tracks"];
    assert(key_views(k_id@) =~= seq!["id"@]);
    assert(key_views(k_name@) =~= seq!["title"@, "public_title"@, "name"@]);
    assert(key_views(k_cover@) =~= seq!["url_cover"@, "cover_url"@, "cover"@]);
    assert(key_views(k_count@) =~= seq!["count_tracks"@]);
    let id = json_str(pl, &k_id);
    if str_is_empty(id.as_str()) {
        return None;
    }
    let mut name = json_str(pl, &k_name);
    if str_is_empty(name.as_str()) {
        name = str_to_string("未命名歌单");
    }
    let cover = qishui_pick_image(pl, &k_cover, "~c5_300x300.jpg");
    let c0 = json_u64(pl, &k_count);
    let mut track_count: u32 = #[verifier::truncate] (c0 as u32);
    if track_count == 0 {
        track_count = visible_count_exec(pl);
    }
    let creator = string_from_chars(&opt_str_or_empty(opt_get(pl.get("owner"), "nickname")));
    Some(Playlist {
        provider: str_to_string("qishui"),
        id,
        name,
        cover,
        track_count,
        creator,
        subscribed: false,
    })
}

// ───────────────────────── the user's playlists ─────────────────────────

/// The user id of a `/luna/pc/me` response (`my_info.id` as a string).
pub open spec fn me_user_id(me: Json) -> Seq<char> {
    str_or_empty(ostr(oget(get_spec(me, "my_info"@), "id"@)))
}

/// The user id of a `/luna/pc/me` response.
pub fn qishui_me_user_id(me: &Json) -> (r: String)
    ensures
        r@ == me_user_id(*me),
{
    string_from_chars(&opt_str_or_empty(opt_get(me.get("my_info"), "id")))
}

/// The ids of a list of playlists.
pub open spec fn playlist_ids(ps: Seq<PlaylistView>) -> Seq<Seq<char>> {
    Seq::new(ps.len(), |i: int| ps[i].id)
}

/// `ps` appended to `out`, skipping any whose id is already there.
pub open spec fn add_unique(out: Seq<PlaylistView>, ps: Seq<PlaylistView>) -> Seq<PlaylistView>
    decreases ps.len(),
{
    if ps.len() == 0 {
        out
    } else {
        let prev = add_unique(out, ps.drop_last());
        if playlist_ids(prev).contains(ps.last().id) {
            prev
        } else {
            prev.push(ps.last())
        }
    }
}

/// The user's own playlists of a `/luna/pc/user/playlist` response.
pub open spec fn created_list(items: Seq<Json>) -> Seq<PlaylistView>
    decreases items.len(),
{
    if items.len() == 0 {
        Seq::empty()
    } else {
        let prev = created_list(items.drop_last());
        match created_playlist_spec(items.last()) {
            Some(p) => prev.push(p),
            None => prev,
        }
    }
}

/// The collected playlists of a collection response.
pub open spec fn collected_list(cards: Seq<Json>) -> Seq<PlaylistView>
    decreases cards.len(),
{
    if cards.len() == 0 {
        Seq::empty()
    } else {
        let prev = collected_list(cards.drop_last());
        match playlist_node_spec(cards.last()) {
            Some(p) => prev.push(p),
            None => prev,
        }
    }
}

/// The user's playlists: the own ones, then the collected ones, each id once.
pub open spec fn user_playlists_spec(created: Json, mixed: Option<Json>) -> Seq<PlaylistView> {
    let own = match oarr(get_spec(created, "playlists"@)) {
        Some(a) => created_list(a),
        None => Seq::empty(),
    };
    let first = add_unique(Seq::empty(), own);
    match mixed {
        Some(m) => add_unique(first, collected_list(collection_cards_spec(or_json(get_spec(m, "data"@), m)))),
        None => first,
    }
}

fn id_seen(out: &Vec<Playlist>, id: &String) -> (b: bool)
    ensures
        b == playlist_ids(super::models::playlist_views(out@)).contains(id@),
{
    let mut i: usize = 0;
    while i < out.len()
        invariant
            i <= out@.len(),
            forall|j: int| 0 <= j < i ==> playlist_ids(super::models::playlist_views(out@))[j] != id@,
        decreases out.len() - i,
    {
        if out[i].id == *id {
            assert(playlist_ids(super::models::playlist_views(out@))[i as int] == id@);
            return true;
        }
        i = i + 1;
    }
    false
}

fn push_unique(out: &mut Vec<Playlist>, p: Playlist)
    ensures
        super::models::playlist_views(final(out)@) == if playlist_ids(super::models::playlist_views(old(out)@)).contains(p@.id) {
            super::models::playlist_views(old(out)@)
        } else {
            super::models::playlist_views(old(out)@).push(p@)
        },
{
    if !id_seen(out, &p.id) {
        let ghost before = super::models::playlist_views(out@);
        out.push(p);
        assert(super::models::playlist_views(out@) =~= before.push(p@));
    }
}

/// The user's playlists (see `user_playlists_spec`): the own playlists of the
/// `created` response, then those of the collection response `mixed` where it
/// came back, each id once.
pub fn qishui_user_playlists(created: &Json, mixed: Option<&Json>) -> (r: Vec<Playlist>)
    ensures
        super::models::playlist_views(r@) == user_playlists_spec(*created, deref_opt(mixed)),
{
    let mut out: Vec<Playlist> = Vec::new();
    let ghost own = match oarr(get_spec(*created, "playlists"@)) {
        Some(a) => created_list(a),
        None => Seq::empty(),
    };
    match arr_at(created, "playlists") {
        Some(list) => {
            let ghost mine: Seq<PlaylistView> = Seq::empty();
            let mut i: usize = 0;
            while i < list.len()
                invariant
                    i <= list@.len(),
                    super::models::playlist_views(out@) == add_unique(Seq::empty(), created_list(list@.subrange(0, i as int))),
                decreases list.len() - i,
            {
                let ghost pre = list@.subrange(0, i + 1);
                assert(pre.drop_last() =~= list@.subrange(0, i as int));
                let ghost sub = list@.subrange(0, i as int);
                match qishui_created_playlist(&list[i]) {
                    Some(p) => {
                        assert(created_list(pre) == created_list(sub).push(p@));
                        assert(created_list(pre).drop_last() =~= created_list(sub));
                        push_unique(&mut out, p);
                    },
                    None => {},
                }
                i = i + 1;
            }
            assert(list@.subrange(0, list@.len() as int) =~= list@);
        },
        None => {},
    }
    let ghost first = super::models::playlist_views(out@);
    assert(first == add_unique(Seq::empty(), own));
    match mixed {
        Some(m) => {
            let body: &Json = match m.get("data") {
                Some(d) => d,
                None => m,
            };
            let cards = qishui_collection_cards(body);
            let ghost dc = derefs(cards@);
            let mut j: usize = 0;
            while j < cards.len()
                invariant
                    j <= cards@.len(),
                    dc == derefs(cards@),
                    super::models::playlist_views(out@) == add_unique(first, collected_list(dc.subrange(0, j as int))),
                decreases cards.len() - j,
            {
                let ghost pre = dc.subrange(0, j + 1);
                assert(pre.drop_last() =~= dc.subrange(0, j as int));
                assert(pre.last() == *cards@[j as int]);
                let ghost sub = dc.subrange(0, j as int);
                match qishui_map_playlist_node(cards[j]) {
                    Some(p) => {
                        assert(collected_list(pre) == collected_list(sub).push(p@));
                        assert(collected_list(pre).drop_last() =~= collected_list(sub));
                        push_unique(&mut out, p);
                    },
                    None => {},
                }
                j = j + 1;
            }
            assert(dc.subrange(0, dc.len() as int) =~= dc);
        },
        None => {},
    }
    out
}

/// The positions whose cover is filled from the playlist's first track: the
/// first ten without a cover.
pub open spec fn cover_fill_spec(ps: Seq<PlaylistView>) -> Seq<usize>
    decreases ps.len(),
{
    if ps.len() == 0 {
        Seq::empty()
    } else {
        let prev = cover_fill_spec(ps.drop_last());
        if prev.len() < 10 && ps.last().cover.len() == 0 {
            prev.push((ps.len() - 1) as usize)
        } else {
            prev
        }
    }
}

/// The playlists whose empty cover is looked up, at most ten, in order.
pub fn qishui_cover_fill_targets(ps: &Vec<Playlist>) -> (r: Vec<usize>)
    ensures
        r@ == cover_fill_spec(super::models::playlist_views(ps@)),
{
    let ghost pv = super::models::playlist_views(ps@);
    let mut out: Vec<usize> = Vec::new();
    let mut i: usize = 0;
    while i < ps.len()
        invariant
            i <= ps@.len(),
            pv == super::models::playlist_views(ps@),
            out@ == cover_fill_spec(pv.subrange(0, i as int)),
        decreases ps.len() - i,
    {
        let ghost pre = pv.subrange(0, i + 1);
        assert(pre.drop_last() =~= pv.subrange(0, i as int));
        if out.len() < 10 && str_is_empty(ps[i].cover.as_str()) {
            out.push(i);
        }
        i = i + 1;
    }
    assert(pv.subrange(0, pv.len() as int) =~= pv);
    out
}

/// The cover a playlist detail response gives its first track, if any.
pub open spec fn first_track_cover(detail: Json) -> Option<Seq<char>> {
    let raw = extract_media_spec(detail);
    if raw.len() == 0 {
        None
    } else {
        match map_media_spec(raw[0]) {
            Some(s) => if s.cover.len() > 0 {
                Some(s.cover)
            } else {
                None
            },
            None => None,
        }
    }
}

/// Fills the cover of playlist `i` from the first track of its detail.
pub fn qishui_fill_cover(ps: &mut Vec<Playlist>, i: usize, detail: &Json)
    requires
        i < old(ps)@.len(),
    ensures
        super::models::playlist_views(final(ps)@) == match first_track_cover(*detail) {
            Some(c) => super::models::playlist_views(old(ps)@).update(i as int, PlaylistView { cover: c, ..old(ps)@[i as int]@ }),
            None => super::models::playlist_views(old(ps)@),
        },
{
    let raw = qishui_extract_media(detail);
    if raw.len() > 0 {
        assert(derefs(raw@)[0] == *raw@[0]);
        match qishui_map_media(raw[0]) {
            Some(song) => {
                if !str_is_empty(song.cover.as_str()) {
                    let ghost before = super::models::playlist_views(ps@);
                    let old_p = &ps[i];
                    let p = Playlist {
                        provider: old_p.provider.clone(),
                        id: old_p.id.clone(),
                        name: old_p.name.clone(),
                        cover: song.cover,
                        track_count: old_p.track_count,
                        creator: old_p.creator.clone(),
                        subscribed: old_p.subscribed,
                    };
                    ps.set(i, p);
                    assert(super::models::playlist_views(ps@) =~= before.update(i as int, p@));
                }
            },
            None => {},
        }
    }
}

/// The summary of a playlist detail response holding `n_songs` songs.
pub open spec fn playlist_meta_spec(json: Json, id: Seq<char>, n_songs: nat) -> PlaylistView {
    let data = or_json(get_spec(json, "data"@), json);
    let n0 = qs_str(data, seq!["title"@, "name"@, "public_title"@]);
    PlaylistView {
        provider: "qishui"@,
        id,
        name: if n0.len() > 0 { n0 } else { "汽水歌单"@ },
        cover: pick_image_spec(data, seq!["url_cover"@, "cover_url"@, "cover"@], "~c5_300x300.jpg"@),
        track_count: n_songs as u32,
        creator: Seq::empty(),
        subscribed: false,
    }
}

/// The summary of a playlist detail response holding `n_songs` songs.
pub fn qishui_playlist_meta(json: &Json, id: &str, n_songs: usize) -> (r: Playlist)
    ensures
        r@ == playlist_meta_spec(*json, id@, n_songs as nat),
{
    let data: &Json = match json.get("data") {
        Some(d) => d,
        None => json,
    };
    let k_name: [&str; 3] = ["title", "name", "public_title"];
    let k_cover: [&str; 3] = ["url_cover", "cover_url", "cover"];
    assert(key_views(k_name@) =~= seq!["title"@, "name"@, "public_title"@]);
    assert(key_views(k_cover@) =~= seq!["url_cover"@, "cover_url"@, "cover"@]);
    let mut name = json_str(data, &k_name);
    if str_is_empty(name.as_str()) {
        name = str_to_string("汽水歌单");
    }
    let cover = qishui_pick_image(data, &k_cover, "~c5_300x300.jpg");
    Playlist {
        provider: str_to_string("qishui"),
        id: str_to_string(id),
        name,
        cover,
        track_count: #[verifier::truncate] (n_songs as u32),
        creator: String::new(),
        subscribed: false,
    }
}

// ───────────────────────── search ─────────────────────────

/// The entities of one kind in a search response's result groups.
pub open spec fn search_entities_spec(json: Json, kind: Seq<char>) -> Seq<Json> {
    let groups = match oarr(or_opt(get_spec(json, "result_groups"@), oget(get_spec(json, "data"@), "result_groups"@))) {
        Some(g) => g,
        None => Seq::empty(),
    };
    entities_in_groups(groups, kind)
}

/// The entities of one kind in a list of result groups.
pub open spec fn entities_in_groups(groups: Seq<Json>, kind: Seq<char>) -> Seq<Json>
    decreases groups.len(),
{
    if groups.len() == 0 {
        Seq::empty()
    } else {
        entities_in_groups(groups.drop_last(), kind) + match oarr(get_spec(groups.last(), "data"@)) {
            Some(items) => entities_in_items(items, kind),
            None => Seq::empty(),
        }
    }
}

/// The entities of one kind in the items of a result group.
pub open spec fn entities_in_items(items: Seq<Json>, kind: Seq<char>) -> Seq<Json>
    decreases items.len(),
{
    if items.len() == 0 {
        Seq::empty()
    } else {
        let prev = entities_in_items(items.drop_last(), kind);
        match oget(get_spec(items.last(), "entity"@), kind) {
            Some(e) => prev.push(e),
            None => prev,
        }
    }
}

fn entities_of_items<'a>(out: &mut Vec<&'a Json>, items: &'a Vec<Json>, kind: &str)
    ensures
        derefs(final(out)@) == derefs(old(out)@) + entities_in_items(items@, kind@),
{
    let ghost start = derefs(out@);
    let mut i: usize = 0;
    while i < items.len()
        invariant
            i <= items@.len(),
            derefs(out@) == start + entities_in_items(items@.subrange(0, i as int), kind@),
        decreases items.len() - i,
    {
        let ghost pre = items@.subrange(0, i + 1);
        assert(pre.drop_last() =~= items@.subrange(0, i as int));
        match opt_get(items[i].get("entity"), kind) {
            Some(e) => {
                let ghost before = derefs(out@);
                out.push(e);
                assert(derefs(out@) =~= before.push(*e));
                assert(start + entities_in_items(pre, kind@) =~= (start + entities_in_items(items@.subrange(0, i as int), kind@)).push(*e));
            },
            None => {},
        }
        i = i + 1;
    }
    assert(items@.subrange(0, items@.len() as int) =~= items@);
}

/// The entities of one kind in a search response (see `search_entities_spec`).
pub fn qishui_search_entities<'a>(json: &'a Json, kind: &str) -> (r: Vec<&'a Json>)
    ensures
        derefs(r@) == search_entities_spec(*json, kind@),
{
    let mut out: Vec<&'a Json> = Vec::new();
    let groups: Option<&'a Json> = get_or(json, "result_groups", opt_get(json.get("data"), "result_groups"));
    match groups {
        Some(gv) => match gv.as_array() {
            Some(gs) => {
                let mut g: usize = 0;
                while g < gs.len()
                    invariant
                        g <= gs@.len(),
                        derefs(out@) == entities_in_groups(gs@.subrange(0, g as int), kind@),
                    decreases gs.len() - g,
                {
                    let ghost pre = gs@.subrange(0, g + 1);
                    assert(pre.drop_last() =~= gs@.subrange(0, g as int));
                    match arr_at(&gs[g], "data") {
                        Some(items) => entities_of_items(&mut out, items, kind),
                        None => {
                            assert(derefs(out@) =~= derefs(out@) + Seq::<Json>::empty());
                        },
                    }
                    g = g + 1;
                }
                assert(gs@.subrange(0, gs@.len() as int) =~= gs@);
            },
            None => {
                assert(derefs(out@) =~= Seq::<Json>::empty());
            },
        },
        None => {
            assert(derefs(out@) =~= Seq::<Json>::empty());
        },
    }
    out
}

/// An artist entity of a search response; `None` without a name.
pub open spec fn search_artist_spec(a: Json) -> Option<ArtistView> {
    let name = qs_str(a, seq!["name"@, "display_name"@]);
    if name.len() == 0 {
        None
    } else {
        let tracks = qs_u64(a, seq!["count_tracks"@]) as i64;
        Some(ArtistView {
            id: nonempty_opt(qs_str(a, seq!["id"@])),
            mid: None,
            name,
            pic_url: nonempty_opt(pick_image_spec(a, seq!["url_avatar"@, "avatar"@], Seq::empty())),
            music_size: if tracks > 0 { Some(tracks) } else { None },
        })
    }
}

/// Maps an artist entity of a search response (see `search_artist_spec`).
pub fn qishui_search_artist(a: &Json) -> (r: Option<Artist>)
    ensures
        match r {
            Some(x) => search_artist_spec(*a) == Some(x@),
            None => search_artist_spec(*a) is None,
        },
{
    let k_id: [&str; 1] = ["id"];
    let k_name: [&str; 2] = ["name", "display_name"];
    let k_pic: [&str; 2] = ["url_avatar", "avatar"];
    let k_tracks: [&str; 1] = ["count_tracks"];
    assert(key_views(k_id@) =~= seq!["id"@]);
    assert(key_views(k_name@) =~= seq!["name"@, "display_name"@]);
    assert(key_views(k_pic@) =~= seq!["url_avatar"@, "avatar"@]);
    assert(key_views(k_tracks@) =~= seq!["count_tracks"@]);
    proof {
        reveal_strlit("");
        assert(""@ =~= Seq::<char>::empty());
    }
    let id = json_str(a, &k_id);
    let name = json_str(a, &k_name);
    if str_is_empty(name.as_str()) {
        return None;
    }
    let pic = qishui_pick_image(a, &k_pic, "");
    let t = json_u64(a, &k_tracks);
    let tracks: i64 = #[verifier::truncate] (t as i64);
    Some(Artist {
        id: opt_string(id),
        mid: None,
        name,
        pic_url: opt_string(pic),
        music_size: if tracks > 0 { Some(tracks) } else { None },
    })
}

/// The artists of an artist search response.
pub open spec fn search_artists_spec(es: Seq<Json>) -> Seq<ArtistView>
    decreases es.len(),
{
    if es.len() == 0 {
        Seq::empty()
    } else {
        let prev = search_artists_spec(es.drop_last());
        match search_artist_spec(es.last()) {
            Some(a) => prev.push(a),
            None => prev,
        }
    }
}

/// The artists of an artist search response.
pub fn qishui_search_artists(json: &Json) -> (r: Vec<Artist>)
    ensures
        artist_views(r@) == search_artists_spec(search_entities_spec(*json, "artist"@)),
{
    let es = qishui_search_entities(json, "artist");
    let ghost d = derefs(es@);
    let mut out: Vec<Artist> = Vec::new();
    let mut i: usize = 0;
    while i < es.len()
        invariant
            i <= es@.len(),
            d == derefs(es@),
            artist_views(out@) == search_artists_spec(d.subrange(0, i as int)),
        decreases es.len() - i,
    {
        let ghost pre = d.subrange(0, i + 1);
        assert(pre.drop_last() =~= d.subrange(0, i as int));
        assert(pre.last() == *es@[i as int]);
        match qishui_search_artist(es[i]) {
            Some(a) => {
                let ghost before = artist_views(out@);
                out.push(a);
                assert(artist_views(out@) =~= before.push(a@));
            },
            None => {},
        }
        i = i + 1;
    }
    assert(d.subrange(0, d.len() as int) =~= d);
    out
}

/// The playlists of a playlist search response.
pub fn qishui_search_playlists(json: &Json) -> (r: Vec<Playlist>)
    ensures
        super::models::playlist_views(r@) == collected_list(search_entities_spec(*json, "playlist"@)),
{
    let es = qishui_search_entities(json, "playlist");
    let ghost d = derefs(es@);
    let mut out: Vec<Playlist> = Vec::new();
    let mut i: usize = 0;
    while i < es.len()
        invariant
            i <= es@.len(),
            d == derefs(es@),
            super::models::playlist_views(out@) == collected_list(d.subrange(0, i as int)),
        decreases es.len() - i,
    {
        let ghost pre = d.subrange(0, i + 1);
        assert(pre.drop_last() =~= d.subrange(0, i as int));
        assert(pre.last() == *es@[i as int]);
        match qishui_map_playlist_node(es[i]) {
            Some(p) => {
                let ghost before = super::models::playlist_views(out@);
                out.push(p);
                assert(super::models::playlist_views(out@) =~= before.push(p@));
            },
            None => {},
        }
        i = i + 1;
    }
    assert(d.subrange(0, d.len() as int) =~= d);
    out
}

/// A public catalogue item as a song; `None` without an id or a title.
/// Catalogue songs carry no playback address.
pub open spec fn public_item_spec(raw: Json) -> Option<SongView> {
    let id = qs_str(raw, seq!["item_id"@, "id"@, "song_id"@, "music_id"@]);
    let name = qs_str(raw, seq!["title"@, "name"@, "song_name"@]);
    if id.len() == 0 || name.len() == 0 {
        None
    } else {
        let author = or_opt(get_spec(raw, "author_info"@), or_opt(get_spec(raw, "author"@), get_spec(raw, "artist"@)));
        let artist = match author {
            Some(a) => qs_str(a, seq!["name"@]),
            None => Seq::empty(),
        };
        let album = match or_opt(get_spec(raw, "album_info"@), get_spec(raw, "album"@)) {
            Some(a) => qs_str(a, seq!["name"@]),
            None => Seq::empty(),
        };
        let d = qs_u64(raw, seq!["duration"@, "duration_ms"@]);
        let vip = obool(oget(get_spec(raw, "qishui_label_info"@), "only_vip_playable"@)) == Some(true);
        Some(SongView {
            provider: "qishui"@,
            id,
            content_id: None,
            name,
            artist,
            artists: if artist.len() > 0 {
                seq![ArtistView { id: None, mid: None, name: artist, pic_url: None, music_size: None }]
            } else {
                Seq::empty()
            },
            album,
            cover: qs_str(raw, seq!["cover_url"@, "cover"@, "artwork"@]),
            duration: if d > 10000 { (d / 1000) as u64 } else { d },
            fee: if vip { 1 } else { 0 },
            playable: false,
        })
    }
}

/// Maps a public catalogue item (see `public_item_spec`).
pub fn qishui_map_public_item(raw: &Json) -> (r: Option<Song>)
    ensures
        match r {
            Some(s) => public_item_spec(*raw) == Some(s@),
            None => public_item_spec(*raw) is None,
        },
{
    let k_id: [&str; 4] = ["item_id", "id", "song_id", "music_id"];
    let k_title: [&str; 3] = ["title", "name", "song_name"];
    let k_name: [&str; 1] = ["name"];
    let k_cover: [&str; 3] = ["cover_url", "cover", "artwork"];
    let k_dur: [&str; 2] = ["duration", "duration_ms"];
    assert(key_views(k_id@) =~= seq!["item_id"@, "id"@, "song_id"@, "music_id"@]);
    assert(key_views(k_title@) =~= seq!["title"@, "name"@, "song_name"@]);
    assert(key_views(k_name@) =~= seq!["name"@]);
    assert(key_views(k_cover@) =~= seq!["cover_url"@, "cover"@, "artwork"@]);
    assert(key_views(k_dur@) =~= seq!["duration"@, "duration_ms"@]);
    let id = json_str(raw, &k_id);
    let name = json_str(raw, &k_title);
    if str_is_empty(id.as_str()) || str_is_empty(name.as_str()) {
        return None;
    }
    let author = get_or(raw, "author_info", get_or(raw, "author", raw.get("artist")));
    let artist = match author {
        Some(a) => json_str(a, &k_name),
        None => String::new(),
    };
    let album = match get_or(raw, "album_info", raw.get("album")) {
        Some(a) => json_str(a, &k_name),
        None => String::new(),
    };
    let cover = json_str(raw, &k_cover);
    let d = json_u64(raw, &k_dur);
    let duration = if d > 10000 { d / 1000 } else { d };
    let vip = match opt_get(raw.get("qishui_label_info"), "only_vip_playable") {
        Some(v) => match v.as_bool() {
            Some(b) => b,
            None => false,
        },
        None => false,
    };
    let mut artists: Vec<Artist> = Vec::new();
    if !str_is_empty(artist.as_str()) {
        artists.push(Artist { id: None, mid: None, name: artist.clone(), pic_url: None, music_size: None });
    }
    let ghost av = artist_views(artists@);
    assert(av =~= if artist@.len() > 0 {
        seq![ArtistView { id: None, mid: None, name: artist@, pic_url: None, music_size: None }]
    } else {
        Seq::empty()
    });
    Some(Song {
        provider: str_to_string("qishui"),
        id,
        content_id: None,
        name,
        artist,
        artists,
        album,
        cover,
        duration,
        fee: if vip { 1 } else { 0 },
        playable: false,
    })
}

/// How many catalogue items the public search asks for: three times the
/// limit, clamped to 36..=100.
pub open spec fn public_request_limit_spec(limit: u32) -> u32 {
    let t = if limit as int * 3 > u32::MAX { u32::MAX } else { (limit * 3) as u32 };
    if t < 36 {
        36
    } else if t > 100 {
        100
    } else {
        t
    }
}

/// How many catalogue items the public search asks for.
pub fn qishui_public_request_limit(limit: u32) -> (r: u32)
    ensures
        r == public_request_limit_spec(limit),
{
    let t: u32 = if limit > 0x5555_5555u32 {
        u32::MAX
    } else {
        limit * 3
    };
    if t < 36 {
        36
    } else if t > 100 {
        100
    } else {
        t
    }
}

/// The public catalogue songs of a search response, at most `limit`.
pub open spec fn public_songs(items: Seq<Json>) -> Seq<SongView>
    decreases items.len(),
{
    if items.len() == 0 {
        Seq::empty()
    } else {
        let prev = public_songs(items.drop_last());
        match public_item_spec(items.last()) {
            Some(s) => prev.push(s),
            None => prev,
        }
    }
}

/// The songs of a public catalogue search response, at most `limit` of them.
pub fn qishui_public_songs(json: &Json, limit: u32) -> (r: Vec<Song>)
    ensures
        super::models::song_views(r@) == take(
            match oarr(oget(get_spec(*json, "data"@), "list"@)) {
                Some(a) => public_songs(a),
                None => Seq::empty(),
            },
            limit as int,
        ),
{
    let mut out: Vec<Song> = Vec::new();
    match opt_get(json.get("data"), "list") {
        Some(lv) => match lv.as_array() {
            Some(list) => {
                let mut i: usize = 0;
                while i < list.len()
                    invariant
                        i <= list@.len(),
                        super::models::song_views(out@) == public_songs(list@.subrange(0, i as int)),
                    decreases list.len() - i,
                {
                    let ghost pre = list@.subrange(0, i + 1);
                    assert(pre.drop_last() =~= list@.subrange(0, i as int));
                    match qishui_map_public_item(&list[i]) {
                        Some(song) => {
                            let ghost before = super::models::song_views(out@);
                            out.push(song);
                            assert(super::models::song_views(out@) =~= before.push(song@));
                        },
                        None => {},
                    }
                    i = i + 1;
                }
                assert(list@.subrange(0, list@.len() as int) =~= list@);
            },
            None => {},
        },
        None => {},
    }
    truncate_songs(&mut out, limit as usize);
    out
}

// ───────────────────────── listening modes ─────────────────────────

/// A listening mode of the feed.
pub struct FeedMode {
    pub name: String,
    pub block: String,
    pub scene_mode_id: i64,
    pub sub_queue_type: String,
    pub cover: String,
}

/// What a listening mode is, in contracts.
pub struct FeedModeView {
    pub name: Seq<char>,
    pub block: Seq<char>,
    pub scene_mode_id: i64,
    pub sub_queue_type: Seq<char>,
    pub cover: Seq<char>,
}

impl View for FeedMode {
    type V = FeedModeView;

    open spec fn view(&self) -> FeedModeView {
        FeedModeView {
            name: self.name@,
            block: self.block@,
            scene_mode_id: self.scene_mode_id,
            sub_queue_type: self.sub_queue_type@,
            cover: self.cover@,
        }
    }
}

/// The views of a list of listening modes.
pub open spec fn feed_mode_views(v: Seq<FeedMode>) -> Seq<FeedModeView> {
    Seq::new(v.len(), |i: int| v[i]@)
}

/// One mode item of a block titled `block`; `None` without a name.
pub open spec fn feed_mode_spec(m: Json, block: Seq<char>) -> Option<FeedModeView> {
    let entity = or_json(oget(get_spec(m, "entity"@), "feed_scene_mode"@), Json::Null);
    let name = qs_str(m, seq!["text"@]);
    if name.len() == 0 {
        None
    } else {
        Some(FeedModeView {
            name,
            block,
            scene_mode_id: match oi64(get_spec(entity, "scene_mode_id"@)) {
                Some(i) => i,
                None => -1i64,
            },
            sub_queue_type: qs_str(entity, seq!["sub_queue_type"@]),
            cover: pick_image_spec(m, seq!["url_info"@], "~c5_300x300.jpg"@),
        })
    }
}

/// The modes of the items of one block.
pub open spec fn block_modes(items: Seq<Json>, block: Seq<char>) -> Seq<FeedModeView>
    decreases items.len(),
{
    if items.len() == 0 {
        Seq::empty()
    } else {
        let prev = block_modes(items.drop_last(), block);
        match feed_mode_spec(items.last(), block) {
            Some(f) => prev.push(f),
            None => prev,
        }
    }
}

/// The modes of a list of blocks, block after block.
pub open spec fn feed_modes_spec(blocks: Seq<Json>) -> Seq<FeedModeView>
    decreases blocks.len(),
{
    if blocks.len() == 0 {
        Seq::empty()
    } else {
        let b = blocks.last();
        feed_modes_spec(blocks.drop_last()) + match oarr(get_spec(b, "feed_mode"@)) {
            Some(items) => block_modes(items, qs_str(b, seq!["title"@])),
            None => Seq::empty(),
        }
    }
}

fn feed_mode_exec(m: &Json, block: &String) -> (r: Option<FeedMode>)
    ensures
        match r {
            Some(f) => feed_mode_spec(*m, block@) == Some(f@),
            None => feed_mode_spec(*m, block@) is None,
        },
{
    let k_text: [&str; 1] = ["text"];
    let k_sub: [&str; 1] = ["sub_queue_type"];
    let k_url: [&str; 1] = ["url_info"];
    assert(key_views(k_text@) =~= seq!["text"@]);
    assert(key_views(k_sub@) =~= seq!["sub_queue_type"@]);
    assert(key_views(k_url@) =~= seq!["url_info"@]);
    let null = Json::Null;
    let entity = or_ref(opt_get(m.get("entity"), "feed_scene_mode"), &null);
    let name = json_str(m, &k_text);
    if str_is_empty(name.as_str()) {
        return None;
    }
    let scene = match entity.get("scene_mode_id") {
        Some(v) => match v.as_i64() {
            Some(i) => i,
            None => -1,
        },
        None => -1,
    };
    let sub = json_str(entity, &k_sub);
    let cover = qishui_pick_image(m, &k_url, "~c5_300x300.jpg");
    Some(FeedMode { name, block: block.clone(), scene_mode_id: scene, sub_queue_type: sub, cover })
}

/// The listening modes of a `/luna/pc/feed/mode` response.
pub fn qishui_feed_modes(json: &Json) -> (r: Vec<FeedMode>)
    ensures
        feed_mode_views(r@) == match oarr(get_spec(*json, "feed_mode_block"@)) {
            Some(blocks) => feed_modes_spec(blocks),
            None => Seq::empty(),
        },
{
    let mut out: Vec<FeedMode> = Vec::new();
    let k_title: [&str; 1] = ["title"];
    assert(key_views(k_title@) =~= seq!["title"@]);
    match arr_at(json, "feed_mode_block") {
        Some(blocks) => {
            let mut b: usize = 0;
            while b < blocks.len()
                invariant
                    b <= blocks@.len(),
                    key_views(k_title@) == seq!["title"@],
                    feed_mode_views(out@) == feed_modes_spec(blocks@.subrange(0, b as int)),
                decreases blocks.len() - b,
            {
                let ghost pre = blocks@.subrange(0, b + 1);
                assert(pre.drop_last() =~= blocks@.subrange(0, b as int));
                let block = &blocks[b];
                let title = json_str(block, &k_title);
                let ghost start = feed_mode_views(out@);
                match arr_at(block, "feed_mode") {
                    Some(items) => {
                        let mut i: usize = 0;
                        while i < items.len()
                            invariant
                                i <= items@.len(),
                                feed_mode_views(out@) == start + block_modes(items@.subrange(0, i as int), title@),
                            decreases items.len() - i,
                        {
                            let ghost ipre = items@.subrange(0, i + 1);
                            assert(ipre.drop_last() =~= items@.subrange(0, i as int));
                            match feed_mode_exec(&items[i], &title) {
                                Some(f) => {
                                    let ghost before = feed_mode_views(out@);
                                    out.push(f);
                                    assert(feed_mode_views(out@) =~= before.push(f@));
                                    assert(start + block_modes(ipre, title@) =~= (start + block_modes(items@.subrange(0, i as int), title@)).push(f@));
                                },
                                None => {},
                            }
                            i = i + 1;
                        }
                        assert(items@.subrange(0, items@.len() as int) =~= items@);
                    },
                    None => {
                        assert(start + Seq::<FeedModeView>::empty() =~= start);
                    },
                }
                b = b + 1;
            }
            assert(blocks@.subrange(0, blocks@.len() as int) =~= blocks@);
        },
        None => {},
    }
    out
}

// ───────────────────────── QR login ─────────────────────────

/// A QR code to scan.
pub struct QrCode {
    pub token: String,
    pub qrcode_url: String,
    pub expire_time: i64,
}

fn str_at_or(v: &Json, key: &str, default: &str) -> (r: String)
    ensures
        r@ == match ostr(get_spec(*v, key@)) {
            Some(s) => s,
            None => default@,
        },
{
    match v.get(key) {
        Some(x) => match x.as_str() {
            Some(s) => s.clone(),
            None => str_to_string(default),
        },
        None => str_to_string(default),
    }
}

fn i64_at_or(v: &Json, key: &str, default: i64) -> (r: i64)
    ensures
        r == match oi64(get_spec(*v, key@)) {
            Some(i) => i,
            None => default,
        },
{
    match v.get(key) {
        Some(x) => match x.as_i64() {
            Some(i) => i,
            None => default,
        },
        None => default,
    }
}

fn bool_at(v: &Json, key: &str) -> (r: bool)
    ensures
        r == (obool(get_spec(*v, key@)) == Some(true)),
{
    match v.get(key) {
        Some(x) => match x.as_bool() {
            Some(b) => b,
            None => false,
        },
        None => false,
    }
}

/// An optional text, or a default.
pub open spec fn text_or(o: Option<Seq<char>>, d: Seq<char>) -> Seq<char> {
    match o {
        Some(s) => s,
        None => d,
    }
}

/// What the sign-in page answers when asked for a QR code: the code, or the
/// page's error (`QISHUI_QR_CREATE_FAILED` when it names none), or an error
/// when the token or the scan URL is missing.
pub fn qishui_qr_get(val: &Json) -> (r: Result<QrCode, String>)
    ensures
        obool(get_spec(*val, "ok"@)) != Some(true) ==> r is Err
            && r->Err_0@ == text_or(ostr(get_spec(*val, "error"@)), "QISHUI_QR_CREATE_FAILED"@),
        obool(get_spec(*val, "ok"@)) == Some(true) ==> ({
            let token = text_or(ostr(get_spec(*val, "token"@)), Seq::empty());
            let url = text_or(ostr(get_spec(*val, "scan_url"@)), Seq::empty());
            if token.len() == 0 || url.len() == 0 {
                r is Err && r->Err_0@ == "汽水音乐二维码数据不完整"@
            } else {
                r is Ok && r->Ok_0.token@ == token && r->Ok_0.qrcode_url@ == url
                    && r->Ok_0.expire_time == match oi64(get_spec(*val, "expire_time"@)) {
                    Some(i) => i,
                    None => 0,
                }
            }
        }),
{
    proof {
        reveal_strlit("");
        assert(""@ =~= Seq::<char>::empty());
    }
    if !bool_at(val, "ok") {
        return Err(str_at_or(val, "error", "QISHUI_QR_CREATE_FAILED"));
    }
    let token = str_at_or(val, "token", "");
    let scan_url = str_at_or(val, "scan_url", "");
    let expire_time = i64_at_or(val, "expire_time", 0);
    if str_is_empty(token.as_str()) || str_is_empty(scan_url.as_str()) {
        return Err(str_to_string("汽水音乐二维码数据不完整"));
    }
    Ok(QrCode { token, qrcode_url: scan_url, expire_time })
}

/// The token a QR check polls: the one given, else the one kept from the last
/// QR code; an error when there is neither.
pub fn qishui_qr_token(token: &str, kept: &str) -> (r: Result<String, String>)
    ensures
        match r {
            Ok(t) => t@ == (if token@.len() > 0 { token@ } else { kept@ }) && t@.len() > 0,
            Err(e) => token@.len() == 0 && kept@.len() == 0 && e@ == "请先获取二维码"@,
        },
{
    let t = if str_is_empty(token) {
        str_to_string(kept)
    } else {
        str_to_string(token)
    };
    if str_is_empty(t.as_str()) {
        return Err(str_to_string("请先获取二维码"));
    }
    Ok(t)
}

/// The scan state of a QR code that is not confirmed yet: `expired` and
/// `rate_limited` by error code, else `scanned`, `waiting` or `mfa` by status,
/// else the status as it came.
pub open spec fn qr_status_spec(error_code: i64, status: Seq<char>) -> Seq<char> {
    if error_code == 2 {
        "expired"@
    } else if error_code == 7 {
        "rate_limited"@
    } else if status == "2"@ {
        "scanned"@
    } else if status.len() == 0 || status == "1"@ {
        "waiting"@
    } else if status == "mfa"@ {
        "mfa"@
    } else {
        status
    }
}

/// The scan state of a QR code that is not confirmed yet.
pub fn qishui_qr_status(error_code: i64, status: &str) -> (r: String)
    ensures
        r@ == qr_status_spec(error_code, status@),
{
    if error_code == 2 {
        str_to_string("expired")
    } else if error_code == 7 {
        str_to_string("rate_limited")
    } else if crate::text::str_eq(status, "2") {
        str_to_string("scanned")
    } else if str_is_empty(status) || crate::text::str_eq(status, "1") {
        str_to_string("waiting")
    } else if crate::text::str_eq(status, "mfa") {
        str_to_string("mfa")
    } else {
        str_to_string(status)
    }
}

/// The login cookie after a confirmed scan: the web view's cookie string where
/// it carries a login, else that string with the page's session cookie added
/// where the two together carry one.
pub open spec fn qr_cookie_spec(cookie: Seq<char>, session: Option<Seq<char>>) -> Option<Seq<char>> {
    if has_login_spec(cookie) {
        Some(cookie)
    } else {
        match session {
            Some(sc) => {
                let merged = if sc.len() == 0 {
                    cookie
                } else {
                    cookie + "; "@ + sc
                };
                if has_login_spec(merged) {
                    Some(merged)
                } else {
                    None
                }
            },
            None => None,
        }
    }
}

/// The login cookie after a confirmed scan (see `qr_cookie_spec`).
pub fn qishui_qr_cookie(cookie: &str, session: Option<&str>) -> (r: Option<String>)
    ensures
        match r {
            Some(c) => qr_cookie_spec(cookie@, match session {
                Some(s) => Some(s@),
                None => None,
            }) == Some(c@),
            None => qr_cookie_spec(cookie@, match session {
                Some(s) => Some(s@),
                None => None,
            }) is None,
        },
{
    if qishui_cookie_has_login(cookie) {
        return Some(str_to_string(cookie));
    }
    match session {
        Some(sc) => {
            let merged = if str_is_empty(sc) {
                str_to_string(cookie)
            } else {
                crate::text::concat3(cookie, "; ", sc)
            };
            if qishui_cookie_has_login(merged.as_str()) {
                Some(merged)
            } else {
                None
            }
        },
        None => None,
    }
}

/// The answer to a QR check.
pub struct QrCheckReply {
    pub status: String,
    pub logged_in: bool,
    pub ok: bool,
    pub error_code: Option<i64>,
    pub message: String,
    /// The login cookie to save, where the login went through.
    pub cookie: Option<String>,
}

/// The answer to a QR check, from what the sign-in page reported (`val`) and,
/// for a confirmed scan, the login window's cookies (`None` where they could
/// not be read).
pub fn qishui_qr_check(val: &Json, cookies: Option<&Vec<super::WebCookie>>) -> (r: QrCheckReply)
    ensures
        obool(get_spec(*val, "confirmed"@)) != Some(true) ==> {
            let code = match oi64(get_spec(*val, "errorCode"@)) {
                Some(i) => i,
                None => 0,
            };
            &&& r.status@ == qr_status_spec(code, text_or(ostr(get_spec(*val, "status"@)), "waiting"@))
            &&& !r.logged_in && !r.ok && r.error_code == Some(code) && r.cookie is None
            &&& r.message@ == text_or(ostr(get_spec(*val, "message"@)), Seq::empty())
        },
        obool(get_spec(*val, "confirmed"@)) == Some(true) ==> r.status@ == "confirmed"@ && match cookies {
            None => !r.logged_in && !r.ok && r.error_code is None && r.cookie is None
                && r.message@ == "登录确认但 cookie 读取失败"@,
            Some(cs) => match qr_cookie_spec(
                super::cookie_string_spec(cs@, super::MusicProvider::Qishui),
                ostr(get_spec(*val, "session_cookie"@)),
            ) {
                Some(c) => r.logged_in && r.ok && r.error_code == Some(0i64) && r.cookie is Some
                    && r.cookie->0@ == c && r.message@ == "登录成功"@,
                None => !r.logged_in && !r.ok && r.error_code == Some(0i64) && r.cookie is None
                    && r.message@ == "登录成功但未能获取到完整 Cookie"@,
            },
        },
{
    proof {
        reveal_strlit("");
        assert(""@ =~= Seq::<char>::empty());
    }
    if !bool_at(val, "confirmed") {
        let code = i64_at_or(val, "errorCode", 0);
        let status = str_at_or(val, "status", "waiting");
        let message = str_at_or(val, "message", "");
        return QrCheckReply {
            status: qishui_qr_status(code, status.as_str()),
            logged_in: false,
            ok: false,
            error_code: Some(code),
            message,
            cookie: None,
        };
    }
    match cookies {
        None => QrCheckReply {
            status: str_to_string("confirmed"),
            logged_in: false,
            ok: false,
            error_code: None,
            message: str_to_string("登录确认但 cookie 读取失败"),
            cookie: None,
        },
        Some(cs) => {
            let cookie_str = super::build_cookie_from_webview(cs, super::MusicProvider::Qishui);
            let session: Option<&str> = match val.get("session_cookie") {
                Some(x) => match x.as_str() {
                    Some(sc) => Some(sc.as_str()),
                    None => None,
                },
                None => None,
            };
            match qishui_qr_cookie(cookie_str.as_str(), session) {
                Some(c) => QrCheckReply {
                    status: str_to_string("confirmed"),
                    logged_in: true,
                    ok: true,
                    error_code: Some(0),
                    message: str_to_string("登录成功"),
                    cookie: Some(c),
                },
                None => QrCheckReply {
                    status: str_to_string("confirmed"),
                    logged_in: false,
                    ok: false,
                    error_code: Some(0),
                    message: str_to_string("登录成功但未能获取到完整 Cookie"),
                    cookie: None,
                },
            }
        },
    }
}

// ───────────────────────── playback ─────────────────────────

/// Where a Qishui song can be played.
pub struct QishuiSongUrl {
    pub url: Option<String>,
    pub backup_url: Option<String>,
    pub playable: bool,
    pub trial: bool,
    pub level: String,
    pub br: u64,
    pub duration: Option<u64>,
    pub reason: Option<String>,
    pub message: String,
}

/// The answer for a song without an id.
pub fn qishui_missing_id_reply() -> (r: QishuiSongUrl)
    ensures
        r.url is None && r.backup_url is None && r.duration is None && !r.playable && !r.trial,
        r.level@.len() == 0 && r.br == 0,
        r.reason is Some && r.reason->0@ == "missing_id"@,
        r.message@ == "缺少汽水歌曲 id"@,
{
    QishuiSongUrl {
        url: None,
        backup_url: None,
        playable: false,
        trial: false,
        level: String::new(),
        br: 0,
        duration: None,
        reason: Some(str_to_string("missing_id")),
        message: str_to_string("缺少汽水歌曲 id"),
    }
}

/// `s` with every `\` turned into `/`.
pub open spec fn slashes(s: Seq<char>) -> Seq<char> {
    Seq::new(s.len(), |i: int| if s[i] == '\\' { '/' } else { s[i] })
}

/// The answer for a song decrypted to a local file: a `file://` URL of it.
pub fn qishui_decrypted_reply(path: &str, level: &str, duration: u64) -> (r: QishuiSongUrl)
    ensures
        r.url is Some && r.url->0@ == "file://"@ + slashes(path@),
        r.backup_url is None && r.playable && !r.trial && r.level@ == level@ && r.br == 0 && r.duration == Some(duration),
        r.reason is None && r.message@.len() == 0,
{
    let p = chars_of(path);
    let mut v = chars_of("file://");
    let ghost start = v@;
    let mut i: usize = 0;
    while i < p.len()
        invariant
            i <= p@.len(),
            v@ == start + slashes(p@).subrange(0, i as int),
        decreases p.len() - i,
    {
        let c = if p[i] == '\\' {
            '/'
        } else {
            p[i]
        };
        v.push(c);
        i = i + 1;
        assert(v@ =~= start + slashes(p@).subrange(0, i as int));
    }
    assert(slashes(p@).subrange(0, p@.len() as int) =~= slashes(p@));
    QishuiSongUrl {
        url: Some(string_from_chars(&v)),
        backup_url: None,
        playable: true,
        trial: false,
        level: str_to_string(level),
        br: 0,
        duration: Some(duration),
        reason: None,
        message: String::new(),
    }
}

/// The first entry of `list` whose `video_meta.quality` is `q`.
pub open spec fn pick_quality(list: Seq<Json>, q: Seq<char>) -> Option<Json>
    decreases list.len(),
{
    if list.len() == 0 {
        None
    } else if ostr(oget(get_spec(list[0], "video_meta"@), "quality"@)) == Some(q) {
        Some(list[0])
    } else {
        pick_quality(list.drop_first(), q)
    }
}

/// The stream chosen for a wanted quality: the best one asked for where the
/// wish names one, else the best there is, else the first.
pub open spec fn choose_stream(list: Seq<Json>, want: Seq<char>) -> Option<Json> {
    let asked = if has_sub(want, "lossless"@) || has_sub(want, "hires"@) || has_sub(want, "highest"@)
        || has_sub(want, "jymaster"@) {
        pick_quality(list, "highest"@)
    } else if has_sub(want, "higher"@) || has_sub(want, "exhigh"@) {
        pick_quality(list, "higher"@)
    } else {
        None
    };
    or_opt(
        asked,
        or_opt(
            pick_quality(list, "highest"@),
            or_opt(pick_quality(list, "higher"@), or_opt(pick_quality(list, "medium"@), if list.len() > 0 {
                Some(list[0])
            } else {
                None
            })),
        ),
    )
}

fn pick_quality_exec<'a>(list: &'a Vec<Json>, q: &str) -> (r: Option<&'a Json>)
    ensures
        deref_opt(r) == pick_quality(list@, q@),
{
    let n = list.len();
    let mut i: usize = 0;
    assert(list@.subrange(0, n as int) =~= list@);
    while i < n
        invariant
            n == list@.len(),
            i <= n,
            pick_quality(list@, q@) == pick_quality(list@.subrange(i as int, n as int), q@),
        decreases n - i,
    {
        let ghost sub = list@.subrange(i as int, n as int);
        assert(sub[0] == list@[i as int]);
        assert(sub.drop_first() =~= list@.subrange(i + 1, n as int));
        let hit = match opt_get(list[i].get("video_meta"), "quality") {
            Some(x) => match x.as_str() {
                Some(s) => crate::text::str_eq(s.as_str(), q),
                None => false,
            },
            None => false,
        };
        if hit {
            return Some(&list[i]);
        }
        i = i + 1;
    }
    None
}

/// Where a SEO track response (`json`, with its video model `model` already
/// read) lets a song be played, for a wanted quality.
pub open spec fn seo_reply_ok(json: Json, model: Json, want: Seq<char>, r: QishuiSongUrl) -> bool {
    let list = text_list(oarr(get_spec(model, "video_list"@)));
    match choose_stream(list, want) {
        None => r.url is None && r.backup_url is None && r.duration is None && !r.playable && !r.trial
            && r.level@.len() == 0 && r.br == 0 && r.reason is Some && r.reason->0@ == "source_unavailable"@
            && r.message@ == "汽水 SEO 接口未返回音频地址"@,
        Some(chosen) => {
            let url = qs_str(chosen, seq!["main_url"@]);
            let backup = qs_str(chosen, seq!["backup_url"@]);
            let meta = or_json(get_spec(chosen, "video_meta"@), Json::Null);
            let track = or_json(oget(get_spec(json, "seo_track"@), "track"@), Json::Null);
            let vip = obool(oget(get_spec(track, "label_info"@), "only_vip_playable"@)) == Some(true);
            let audition = match ou64(oget(get_spec(track, "audition_info"@), "duration_ms"@)) {
                Some(u) => u,
                None => 0,
            };
            let trial = vip && audition > 0;
            &&& r.trial == trial
            &&& r.level@ == qs_str(meta, seq!["quality"@])
            &&& r.br == qs_u64(meta, seq!["bitrate"@])
            &&& if url.len() == 0 {
                r.url is None && r.backup_url is None && r.duration is None && !r.playable && r.reason is Some
                    && r.reason->0@ == "source_unavailable"@ && r.message@ == "汽水 SEO 接口未返回音频地址"@
            } else {
                &&& r.url is Some && r.url->0@ == url && r.playable && r.reason is None
                &&& ov(r.backup_url) == nonempty_opt(backup)
                &&& r.duration == Some(qs_u64(track, seq!["duration_ms"@, "duration"@]))
                &&& r.message@ == if trial { "VIP 歌曲仅 30 秒试听"@ } else { Seq::empty() }
            }
        },
    }
}

/// An optional list, empty where absent.
pub open spec fn text_list(o: Option<Seq<Json>>) -> Seq<Json> {
    match o {
        Some(a) => a,
        None => Seq::empty(),
    }
}

/// Where a SEO track response lets a song be played (see `seo_reply_ok`).
/// `model` is the response's `track_player.video_model`, read as JSON where
/// it came as text; `quality` is the wanted quality.
#[verifier::rlimit(40)]
pub fn qishui_seo_reply(json: &Json, model: &Json, quality: Option<&str>) -> (r: QishuiSongUrl)
    ensures
        seo_reply_ok(*json, *model, crate::text::spec_to_lowercase(match quality {
            Some(q) => q@,
            None => Seq::empty(),
        }), r),
{
    let empty: Vec<Json> = Vec::new();
    let list: &Vec<Json> = match arr_at(model, "video_list") {
        Some(a) => a,
        None => &empty,
    };
    assert(list@ == text_list(oarr(get_spec(*model, "video_list"@))));
    let wq = match quality {
        Some(q) => crate::text::str_to_lowercase(q),
        None => crate::text::str_to_lowercase(""),
    };
    proof {
        reveal_strlit("");
        assert(""@ =~= Seq::<char>::empty());
    }
    let w = chars_of(wq.as_str());
    let asked: Option<&Json> = if contains_sub(&w, &chars_of("lossless")) || contains_sub(&w, &chars_of("hires"))
        || contains_sub(&w, &chars_of("highest")) || contains_sub(&w, &chars_of("jymaster")) {
        pick_quality_exec(list, "highest")
    } else if contains_sub(&w, &chars_of("higher")) || contains_sub(&w, &chars_of("exhigh")) {
        pick_quality_exec(list, "higher")
    } else {
        None
    };
    let chosen: Option<&Json> = match asked {
        Some(c) => Some(c),
        None => match pick_quality_exec(list, "highest") {
            Some(c) => Some(c),
            None => match pick_quality_exec(list, "higher") {
                Some(c) => Some(c),
                None => match pick_quality_exec(list, "medium") {
                    Some(c) => Some(c),
                    None => if list.len() > 0 {
                        Some(&list[0])
                    } else {
                        None
                    },
                },
            },
        },
    };
    assert(deref_opt(chosen) == choose_stream(list@, wq@));
    let chosen = match chosen {
        Some(c) => c,
        None => {
            return QishuiSongUrl {
                url: None,
                backup_url: None,
                playable: false,
                trial: false,
                level: String::new(),
                br: 0,
                duration: None,
                reason: Some(str_to_string("source_unavailable")),
                message: str_to_string("汽水 SEO 接口未返回音频地址"),
            };
        },
    };
    let k_main: [&str; 1] = ["main_url"];
    let k_backup: [&str; 1] = ["backup_url"];
    let k_quality: [&str; 1] = ["quality"];
    let k_bitrate: [&str; 1] = ["bitrate"];
    let k_dur: [&str; 2] = ["duration_ms", "duration"];
    assert(key_views(k_main@) =~= seq!["main_url"@]);
    assert(key_views(k_backup@) =~= seq!["backup_url"@]);
    assert(key_views(k_quality@) =~= seq!["quality"@]);
    assert(key_views(k_bitrate@) =~= seq!["bitrate"@]);
    assert(key_views(k_dur@) =~= seq!["duration_ms"@, "duration"@]);
    let url = json_str(chosen, &k_main);
    let backup = json_str(chosen, &k_backup);
    let null = Json::Null;
    let meta = or_ref(chosen.get("video_meta"), &null);
    let level = json_str(meta, &k_quality);
    let br = json_u64(meta, &k_bitrate);
    let track = or_ref(opt_get(json.get("seo_track"), "track"), &null);
    let vip = match opt_get(track.get("label_info"), "only_vip_playable") {
        Some(v) => match v.as_bool() {
            Some(b) => b,
            None => false,
        },
        None => false,
    };
    let full = json_u64(track, &k_dur);
    let audition = match opt_get(track.get("audition_info"), "duration_ms") {
        Some(v) => match v.as_u64() {
            Some(u) => u,
            None => 0,
        },
        None => 0,
    };
    let trial = vip && audition > 0;
    if str_is_empty(url.as_str()) {
        return QishuiSongUrl {
            url: None,
            backup_url: None,
            playable: false,
            trial,
            level,
            br,
            duration: None,
            reason: Some(str_to_string("source_unavailable")),
            message: str_to_string("汽水 SEO 接口未返回音频地址"),
        };
    }
    QishuiSongUrl {
        url: Some(url),
        backup_url: opt_string(backup),
        playable: true,
        trial,
        level,
        br,
        duration: Some(full),
        reason: None,
        message: if trial {
            str_to_string("VIP 歌曲仅 30 秒试听")
        } else {
            String::new()
        },
    }
}

/// Where the SEO response keeps its video model.
pub enum SeoModel<'a> {
    /// As JSON.
    Inline(&'a Json),
    /// As JSON text, to be read first.
    Text(&'a String),
    /// Nowhere.
    Missing,
}

/// Where the SEO response keeps its video model (`track_player.video_model`).
pub fn qishui_seo_video_model<'a>(json: &'a Json) -> (r: SeoModel<'a>)
    ensures
        match r {
            SeoModel::Inline(m) => oget(get_spec(*json, "track_player"@), "video_model"@) == Some(*m) && !(*m is Str),
            SeoModel::Text(t) => oget(get_spec(*json, "track_player"@), "video_model"@) == Some(Json::Str(*t)),
            SeoModel::Missing => oget(get_spec(*json, "track_player"@), "video_model"@) is None,
        },
{
    match opt_get(json.get("track_player"), "video_model") {
        Some(m) => match m {
            Json::Str(t) => SeoModel::Text(t),
            _ => SeoModel::Inline(m),
        },
        None => SeoModel::Missing,
    }
}

// ───────────────────────── requests ─────────────────────────

/// The views of a list of string pairs.
pub open spec fn param_views(v: Seq<(String, String)>) -> Seq<(Seq<char>, Seq<char>)> {
    Seq::new(v.len(), |i: int| (v[i].0@, v[i].1@))
}

fn push_pair(out: &mut Vec<(String, String)>, k: &str, v: &String)
    ensures
        param_views(final(out)@) == param_views(old(out)@).push((k@, v@)),
{
    let ghost before = param_views(out@);
    out.push((str_to_string(k), v.clone()));
    assert(param_views(out@) =~= before.push((k@, v@)));
}

fn push_pair_str(out: &mut Vec<(String, String)>, k: &str, v: &str)
    ensures
        param_views(final(out)@) == param_views(old(out)@).push((k@, v@)),
{
    let vs = str_to_string(v);
    push_pair(out, k, &vs);
}

/// The query parameters of the luna PC interface at time `now` (milliseconds
/// since the epoch), which stands for the device and install ids.
pub open spec fn pc_params_spec(now: u128) -> Seq<(Seq<char>, Seq<char>)> {
    let dev = crate::text::decimal(now as nat);
    let iid = crate::text::decimal((now + 1) as nat);
    seq![
        ("aid"@, "386088"@),
        ("app_name"@, "luna_pc"@),
        ("region"@, "cn"@),
        ("geo_region"@, "cn"@),
        ("os_region"@, "cn"@),
        ("sim_region"@, ""@),
        ("device_id"@, dev),
        ("cdid"@, ""@),
        ("iid"@, iid),
        ("version_name"@, "3.3.0"@),
        ("version_code"@, "30030000"@),
        ("channel"@, "official"@),
        ("build_mode"@, "master"@),
        ("network_carrier"@, ""@),
        ("ac"@, "wifi"@),
        ("tz_name"@, "Asia/Shanghai"@),
        ("resolution"@, ""@),
        ("device_platform"@, "windows"@),
        ("device_type"@, "Windows"@),
        ("os_version"@, "Windows 11"@),
        ("fp"@, dev),
    ]
}

/// The query parameters of the luna PC interface at time `now`.
pub fn qishui_pc_params(now: u128) -> (r: Vec<(String, String)>)
    requires
        now < u128::MAX,
    ensures
        param_views(r@) == pc_params_spec(now),
{
    let mut dv: Vec<char> = Vec::new();
    crate::text::push_decimal_u128(&mut dv, now);
    let device_id = string_from_chars(&dv);
    let mut iv: Vec<char> = Vec::new();
    crate::text::push_decimal_u128(&mut iv, now + 1);
    let iid = string_from_chars(&iv);
    let mut out: Vec<(String, String)> = Vec::new();
    push_pair_str(&mut out, "aid", "386088");
    push_pair_str(&mut out, "app_name", "luna_pc");
    push_pair_str(&mut out, "region", "cn");
    push_pair_str(&mut out, "geo_region", "cn");
    push_pair_str(&mut out, "os_region", "cn");
    push_pair_str(&mut out, "sim_region", "");
    push_pair(&mut out, "device_id", &device_id);
    push_pair_str(&mut out, "cdid", "");
    push_pair(&mut out, "iid", &iid);
    push_pair_str(&mut out, "version_name", "3.3.0");
    push_pair_str(&mut out, "version_code", "30030000");
    push_pair_str(&mut out, "channel", "official");
    push_pair_str(&mut out, "build_mode", "master");
    push_pair_str(&mut out, "network_carrier", "");
    push_pair_str(&mut out, "ac", "wifi");
    push_pair_str(&mut out, "tz_name", "Asia/Shanghai");
    push_pair_str(&mut out, "resolution", "");
    push_pair_str(&mut out, "device_platform", "windows");
    push_pair_str(&mut out, "device_type", "Windows");
    push_pair_str(&mut out, "os_version", "Windows 11");
    push_pair(&mut out, "fp", &device_id);
    assert(param_views(out@) =~= pc_params_spec(now));
    out
}

/// `[mm:ss.cc]` of a time in milliseconds (negative times count as zero).
pub open spec fn lrc_ts_spec(ms: i64) -> Seq<char> {
    let m: int = if ms < 0 { 0 } else { ms as int };
    "["@ + crate::text::pad2((m / 60000) as nat) + ":"@ + crate::text::pad2(((m % 60000) / 1000) as nat) + "."@
        + crate::text::pad2(((m % 1000) / 10) as nat) + "]"@
}

/// The LRC time tag of a time in milliseconds.
pub fn qishui_lrc_ts(ms: i64) -> (r: String)
    ensures
        r@ == lrc_ts_spec(ms),
{
    let m: u64 = if ms < 0 {
        0
    } else {
        ms as u64
    };
    let mut v: Vec<char> = Vec::new();
    v.push('[');
    crate::text::push_pad2(&mut v, m / 60000);
    v.push(':');
    crate::text::push_pad2(&mut v, (m % 60000) / 1000);
    v.push('.');
    crate::text::push_pad2(&mut v, (m % 1000) / 10);
    v.push(']');
    proof {
        reveal_strlit("[");
        reveal_strlit(":");
        reveal_strlit(".");
        reveal_strlit("]");
    }
    assert(v@ =~= lrc_ts_spec(ms));
    string_from_chars(&v)
}

/// The error by which the front end knows that the signing helper is missing.
pub const QISHUI_DEPS_MISSING: &'static str = "QISHUI_DEPS_MISSING";

/// The error of a missing signing helper.
pub fn qishui_deps_missing_err() -> (r: String)
    ensures
        r@ == QISHUI_DEPS_MISSING@ + ": 需下载 Node 包（node.exe + bdms.node + metasecml.dll）"@,
{
    crate::text::concat2(QISHUI_DEPS_MISSING, ": 需下载 Node 包（node.exe + bdms.node + metasecml.dll）")
}

/// A path without the extended-length prefix `\\?\`, which Node cannot load from.
pub open spec fn clean_path_spec(p: Seq<char>) -> Seq<char> {
    if has_prefix(p, "\\\\?\\"@) {
        p.subrange(4, p.len() as int)
    } else {
        p
    }
}

/// Drops the extended-length prefix `\\?\` of a path.
pub fn qishui_clean_path(p: &str) -> (r: String)
    ensures
        r@ == clean_path_spec(p@),
{
    let v = chars_of(p);
    let pre = chars_of("\\\\?\\");
    proof {
        reveal_strlit("\\\\?\\");
    }
    if starts_with(&v, &pre) {
        let rest = crate::text::slice_vec(&v, 4, v.len());
        return string_from_chars(&rest);
    }
    str_to_string(p)
}

/// Whether the signing helper is there, and where each part came from.
pub struct QishuiDepsStatus {
    pub ready: bool,
    pub node_ready: bool,
    pub bdms_ready: bool,
    pub node_source: String,
    pub bdms_source: String,
    pub downloading: bool,
}

/// The helper's state from where Node and the signing module were found
/// (`None` where not found) and whether a download runs.
pub fn qishui_deps_status(node_source: Option<&str>, bdms_source: Option<&str>, downloading: bool) -> (r: QishuiDepsStatus)
    ensures
        r.ready == (node_source is Some && bdms_source is Some),
        r.node_ready == node_source is Some,
        r.bdms_ready == bdms_source is Some,
        r.node_source@ == match node_source {
            Some(s) => s@,
            None => Seq::empty(),
        },
        r.bdms_source@ == match bdms_source {
            Some(s) => s@,
            None => Seq::empty(),
        },
        r.downloading == downloading,
{
    QishuiDepsStatus {
        ready: node_source.is_some() && bdms_source.is_some(),
        node_ready: node_source.is_some(),
        bdms_ready: bdms_source.is_some(),
        node_source: match node_source {
            Some(s) => str_to_string(s),
            None => String::new(),
        },
        bdms_source: match bdms_source {
            Some(s) => str_to_string(s),
            None => String::new(),
        },
        downloading,
    }
}

/// Starting a helper download: refused while another one runs.
pub fn qishui_deps_download_begin(downloading: bool) -> (r: Result<(), String>)
    ensures
        downloading <==> r is Err,
        r is Err ==> r->Err_0@ == "Node 包正在下载中，请稍候"@,
{
    if downloading {
        Err(str_to_string("Node 包正在下载中，请稍候"))
    } else {
        Ok(())
    }
}

/// The files taken from the helper archive, by bare file name.
pub open spec fn deps_file_spec(name: Seq<char>) -> bool {
    name == "node.exe"@ || name == "bdms.node"@ || name == "metasecml.dll"@
}

/// Whether an archive entry with this bare file name is extracted.
pub fn qishui_deps_wanted(name: &str) -> (b: bool)
    ensures
        b == deps_file_spec(name@),
{
    crate::text::str_eq(name, "node.exe") || crate::text::str_eq(name, "bdms.node")
        || crate::text::str_eq(name, "metasecml.dll")
}

/// A cached Node of more than 1 MiB is not downloaded again.
pub fn qishui_deps_skip_download(node_from_cache: bool, cached_size: Option<u64>) -> (b: bool)
    ensures
        b == (node_from_cache && match cached_size {
            Some(n) => n > 1024 * 1024,
            None => false,
        }),
{
    node_from_cache && match cached_size {
        Some(n) => n > 1024 * 1024,
        None => false,
    }
}

/// The end of an install: the first failure, or a failure when the archive
/// held none of the wanted files.
pub fn qishui_deps_install_outcome(failed: Option<String>, extracted: usize) -> (r: Result<(), String>)
    ensures
        match failed {
            Some(e) => r == Err::<(), String>(e),
            None => if extracted == 0 {
                r is Err && r->Err_0@ == "Node 包里没有 node.exe / bdms.node / metasecml.dll"@
            } else {
                r is Ok
            },
        },
{
    match failed {
        Some(e) => Err(e),
        None => if extracted == 0 {
            Err(str_to_string("Node 包里没有 node.exe / bdms.node / metasecml.dll"))
        } else {
            Ok(())
        },
    }
}

/// A decrypted track: its file, quality level and duration.
pub struct DecryptedTrack {
    pub path: String,
    pub level: String,
    pub duration: u64,
}

/// What the decryption helper printed: the file it wrote, or its error.
pub fn qishui_decrypt_result(parsed: &Json) -> (r: Result<DecryptedTrack, String>)
    ensures
        obool(get_spec(*parsed, "ok"@)) != Some(true) ==> r is Err && r->Err_0@ == text_or(
            ostr(get_spec(*parsed, "error"@)),
            "解密失败"@,
        ),
        obool(get_spec(*parsed, "ok"@)) == Some(true) ==> {
            let path = text_or(ostr(get_spec(*parsed, "path"@)), Seq::empty());
            if path.len() == 0 {
                r is Err && r->Err_0@ == "解密未返回文件路径"@
            } else {
                r is Ok && r->Ok_0.path@ == path && r->Ok_0.level@ == text_or(
                    ostr(get_spec(*parsed, "level"@)),
                    Seq::empty(),
                ) && r->Ok_0.duration == match ou64(get_spec(*parsed, "duration"@)) {
                    Some(u) => u,
                    None => 0,
                }
            }
        },
{
    proof {
        reveal_strlit("");
        assert(""@ =~= Seq::<char>::empty());
    }
    if !bool_at(parsed, "ok") {
        return Err(str_at_or(parsed, "error", "解密失败"));
    }
    let path = str_at_or(parsed, "path", "");
    if str_is_empty(path.as_str()) {
        return Err(str_to_string("解密未返回文件路径"));
    }
    let level = str_at_or(parsed, "level", "");
    let duration = match parsed.get("duration") {
        Some(v) => match v.as_u64() {
            Some(u) => u,
            None => 0,
        },
        None => 0,
    };
    Ok(DecryptedTrack { path, level, duration })
}

/// What the signing helper printed: the response body where the request
/// answered 200, else an error with the status and the start of the body.
pub fn qishui_signed_body(parsed: &Json) -> (r: Result<String, String>)
    ensures
        ({
            let status = match oi64(get_spec(*parsed, "status"@)) {
                Some(i) => i,
                None => 0,
            };
            let body = text_or(ostr(get_spec(*parsed, "body"@)), Seq::empty());
            if status != 200 {
                r is Err && r->Err_0@ == "汽水接口 HTTP "@ + crate::text::signed_decimal(status as int) + ": "@
                    + body.subrange(0, clip_count(body, 160) as int)
            } else {
                r is Ok && r->Ok_0@ == body
            }
        }),
{
    proof {
        reveal_strlit("");
        assert(""@ =~= Seq::<char>::empty());
    }
    let status = i64_at_or(parsed, "status", 0);
    let body = str_at_or(parsed, "body", "");
    if status != 200 {
        let mut v = chars_of("汽水接口 HTTP ");
        crate::text::push_i64(&mut v, status);
        append_str(&mut v, ": ");
        let c = clip(body.as_str(), 160);
        append_str(&mut v, c.as_str());
        return Err(string_from_chars(&v));
    }
    Ok(body)
}

/// The error of a luna request that did not answer with success.
pub fn qishui_http_error(status: u16, text: &str) -> (r: String)
    ensures
        r@ == "汽水接口 HTTP "@ + crate::text::decimal(status as nat) + ": "@ + text@.subrange(0, clip_count(text@, 200) as int),
{
    let mut v = chars_of("汽水接口 HTTP ");
    crate::text::push_decimal(&mut v, status as u64);
    append_str(&mut v, ": ");
    let c = clip(text, 200);
    append_str(&mut v, c.as_str());
    string_from_chars(&v)
}

/// A character that `urlencoding::encode` keeps as it is.
pub open spec fn url_safe(c: char) -> bool {
    ('0' <= c && c <= '9') || ('A' <= c && c <= 'Z') || ('a' <= c && c <= 'z') || c == '-' || c == '.'
        || c == '_' || c == '~'
}

/// What `urlencoding::encode` gives for a text.
pub uninterp spec fn spec_urlencode(s: Seq<char>) -> Seq<char>;

/// `urlencoding::encode`: percent-encodes every byte of the UTF-8 text except
/// ASCII letters, digits and `-`, `.`, `_`, `~`.  The contract names the
/// result and states only that a text made of those characters comes back
/// unchanged.
#[verifier::external_body]
fn url_encode(s: &str) -> (r: String)
    ensures
        r@ == spec_urlencode(s@),
        (forall|i: int| 0 <= i < s@.len() ==> url_safe(#[trigger] s@[i])) ==> r@ == s@,
{
    urlencoding::encode(s).into_owned()
}

/// `k=v` for each parameter, the value percent-encoded, joined with `&`.
pub open spec fn query_spec(ps: Seq<(Seq<char>, Seq<char>)>) -> Seq<char> {
    crate::text::join_sep(Seq::new(ps.len(), |i: int| ps[i].0 + "="@ + spec_urlencode(ps[i].1)), "&"@)
}

/// Builds a query string.
pub fn qishui_query_string(params: &Vec<(String, String)>) -> (r: String)
    ensures
        r@ == query_spec(param_views(params@)),
{
    let ghost pv = param_views(params@);
    let mut parts: Vec<String> = Vec::new();
    let mut i: usize = 0;
    while i < params.len()
        invariant
            i <= params@.len(),
            pv == param_views(params@),
            crate::text::strs(parts@) == Seq::new(i as nat, |j: int| pv[j].0 + "="@ + spec_urlencode(pv[j].1)),
        decreases params.len() - i,
    {
        let mut v = chars_of(params[i].0.as_str());
        append_str(&mut v, "=");
        let e = url_encode(params[i].1.as_str());
        append_str(&mut v, e.as_str());
        let ghost before = crate::text::strs(parts@);
        let st = string_from_chars(&v);
        parts.push(st);
        assert(crate::text::strs(parts@) =~= before.push(st@));
        i = i + 1;
        assert(crate::text::strs(parts@) =~= Seq::new(i as nat, |j: int| pv[j].0 + "="@ + spec_urlencode(pv[j].1)));
    }
    assert(crate::text::strs(parts@) =~= Seq::new(pv.len(), |j: int| pv[j].0 + "="@ + spec_urlencode(pv[j].1)));
    crate::text::join_strings(&parts, "&")
}

/// The query parameters of a signed luna request at time `now`.
pub open spec fn signed_params_spec(now: u128) -> Seq<(Seq<char>, Seq<char>)> {
    let dev = crate::text::decimal(now as nat);
    let iid = crate::text::decimal((now + 1) as nat);
    seq![
        ("aid"@, "386088"@),
        ("app_name"@, "luna_pc"@),
        ("region"@, "cn"@),
        ("geo_region"@, "cn"@),
        ("os_region"@, "cn"@),
        ("device_id"@, dev),
        ("iid"@, iid),
        ("version_name"@, "3.7.0"@),
        ("version_code"@, "30080000"@),
        ("channel"@, "official"@),
        ("build_mode"@, "master"@),
        ("ac"@, "wifi"@),
        ("tz_name"@, "Asia/Shanghai"@),
        ("device_platform"@, "windows"@),
        ("device_type"@, "Windows"@),
        ("os_version"@, "Windows 11"@),
        ("fp"@, dev),
    ]
}

/// The query parameters of a signed luna request at time `now`.
pub fn qishui_signed_params(now: u128) -> (r: Vec<(String, String)>)
    requires
        now < u128::MAX,
    ensures
        param_views(r@) == signed_params_spec(now),
{
    let mut dv: Vec<char> = Vec::new();
    crate::text::push_decimal_u128(&mut dv, now);
    let device_id = string_from_chars(&dv);
    let mut iv: Vec<char> = Vec::new();
    crate::text::push_decimal_u128(&mut iv, now + 1);
    let iid = string_from_chars(&iv);
    let mut out: Vec<(String, String)> = Vec::new();
    push_pair_str(&mut out, "aid", "386088");
    push_pair_str(&mut out, "app_name", "luna_pc");
    push_pair_str(&mut out, "region", "cn");
    push_pair_str(&mut out, "geo_region", "cn");
    push_pair_str(&mut out, "os_region", "cn");
    push_pair(&mut out, "device_id", &device_id);
    push_pair(&mut out, "iid", &iid);
    push_pair_str(&mut out, "version_name", "3.7.0");
    push_pair_str(&mut out, "version_code", "30080000");
    push_pair_str(&mut out, "channel", "official");
    push_pair_str(&mut out, "build_mode", "master");
    push_pair_str(&mut out, "ac", "wifi");
    push_pair_str(&mut out, "tz_name", "Asia/Shanghai");
    push_pair_str(&mut out, "device_platform", "windows");
    push_pair_str(&mut out, "device_type", "Windows");
    push_pair_str(&mut out, "os_version", "Windows 11");
    push_pair(&mut out, "fp", &device_id);
    assert(param_views(out@) =~= signed_params_spec(now));
    out
}

/// The URL of a signed luna request for `path` at time `now`.
pub fn qishui_signed_url(path: &str, now: u128) -> (r: String)
    requires
        now < u128::MAX,
    ensures
        r@ == "https://api.qishui.com"@ + path@ + "?"@ + query_spec(signed_params_spec(now)),
{
    let params = qishui_signed_params(now);
    let q = qishui_query_string(&params);
    let mut v = chars_of("https://api.qishui.com");
    append_str(&mut v, path);
    append_str(&mut v, "?");
    append_str(&mut v, q.as_str());
    string_from_chars(&v)
}

fn jstr(s: &str) -> (r: Json)
    ensures
        str_of(r) == Some(s@),
{
    Json::Str(str_to_string(s))
}

/// The headers of a signed luna request with `cookie`.
pub fn qishui_signed_headers(cookie: &str) -> (r: Json)
    ensures
        crate::json::str_entries(r) == Some(seq![
            ("user-agent"@, Some("LunaPC/3.7.0(30080000)"@)),
            ("accept"@, Some("application/json, text/plain, */*"@)),
            ("content-type"@, Some("application/json; charset=utf-8"@)),
            ("x-luna-background-type"@, Some("foreground"@)),
            ("x-luna-is-background-req"@, Some("0"@)),
            ("x-luna-is-local-user"@, Some("1"@)),
            ("cookie"@, Some(cookie@)),
        ]),
{
    let es: Vec<(String, Json)> = vec![
        (str_to_string("user-agent"), jstr("LunaPC/3.7.0(30080000)")),
        (str_to_string("accept"), jstr("application/json, text/plain, */*")),
        (str_to_string("content-type"), jstr("application/json; charset=utf-8")),
        (str_to_string("x-luna-background-type"), jstr("foreground")),
        (str_to_string("x-luna-is-background-req"), jstr("0")),
        (str_to_string("x-luna-is-local-user"), jstr("1")),
        (str_to_string("cookie"), jstr(cookie)),
    ];
    let r = Json::Obj(es);
    assert(crate::json::str_entries(r)->0 =~= seq![
        ("user-agent"@, Some("LunaPC/3.7.0(30080000)"@)),
        ("accept"@, Some("application/json, text/plain, */*"@)),
        ("content-type"@, Some("application/json; charset=utf-8"@)),
        ("x-luna-background-type"@, Some("foreground"@)),
        ("x-luna-is-background-req"@, Some("0"@)),
        ("x-luna-is-local-user"@, Some("1"@)),
        ("cookie"@, Some(cookie@)),
    ]);
    r
}

/// The body of a `track_v2` request for a track.
pub fn qishui_track_v2_body(track_id: &str) -> (r: Json)
    ensures
        crate::json::str_entries(r) == Some(seq![
            ("track_id"@, Some(track_id@)),
            ("media_type"@, Some("track"@)),
            ("queue_type"@, Some("favorite_track_playlist"@)),
            ("scene_name"@, Some("library"@)),
        ]),
{
    let es: Vec<(String, Json)> = vec![
        (str_to_string("track_id"), jstr(track_id)),
        (str_to_string("media_type"), jstr("track")),
        (str_to_string("queue_type"), jstr("favorite_track_playlist")),
        (str_to_string("scene_name"), jstr("library")),
    ];
    let r = Json::Obj(es);
    assert(crate::json::str_entries(r)->0 =~= seq![
        ("track_id"@, Some(track_id@)),
        ("media_type"@, Some("track"@)),
        ("queue_type"@, Some("favorite_track_playlist"@)),
        ("scene_name"@, Some("library"@)),
    ]);
    r
}

/// Where the signing helper may be bundled with the application: under the
/// resource directory, its `_up_` and its `_up_/_up_/src-tauri`, each in
/// `resources/qishui-auth` and in `qishui-auth`.
pub open spec fn resource_paths_spec(rd: Seq<char>, name: Seq<char>) -> Seq<Seq<char>> {
    let j = |a: Seq<char>, b: Seq<char>| crate::text::spec_path_join(a, b);
    let bases = seq![rd, j(rd, "_up_"@), j(j(j(rd, "_up_"@), "_up_"@), "src-tauri"@)];
    Seq::new(6, |i: int| {
        let b = bases[i / 2];
        if i % 2 == 0 {
            j(j(j(b, "resources"@), "qishui-auth"@), name)
        } else {
            j(j(b, "qishui-auth"@), name)
        }
    })
}

/// Where the signing helper's file `name` may be bundled, from the resource
/// directory (already cleaned of its extended-length prefix).
pub fn qishui_resource_paths(resource_dir: &str, name: &str) -> (r: Vec<String>)
    ensures
        crate::text::strs(r@) == resource_paths_spec(resource_dir@, name@),
{
    let up = crate::text::path_join(resource_dir, "_up_");
    let up2 = crate::text::path_join(up.as_str(), "_up_");
    let tauri = crate::text::path_join(up2.as_str(), "src-tauri");
    let bases: Vec<String> = vec![str_to_string(resource_dir), up, tauri];
    let mut out: Vec<String> = Vec::new();
    let mut i: usize = 0;
    while i < 3
        invariant
            i <= 3,
            bases@.len() == 3,
            bases@[0]@ == resource_dir@,
            bases@[1]@ == crate::text::spec_path_join(resource_dir@, "_up_"@),
            bases@[2]@ == crate::text::spec_path_join(crate::text::spec_path_join(crate::text::spec_path_join(resource_dir@, "_up_"@), "_up_"@), "src-tauri"@),
            crate::text::strs(out@) == resource_paths_spec(resource_dir@, name@).subrange(0, 2 * i as int),
        decreases 3 - i,
    {
        let b = &bases[i];
        let r1 = crate::text::path_join(b.as_str(), "resources");
        let r2 = crate::text::path_join(r1.as_str(), "qishui-auth");
        let p1 = crate::text::path_join(r2.as_str(), name);
        let q1 = crate::text::path_join(b.as_str(), "qishui-auth");
        let p2 = crate::text::path_join(q1.as_str(), name);
        let ghost before = crate::text::strs(out@);
        out.push(p1);
        out.push(p2);
        assert(crate::text::strs(out@) =~= before.push(p1@).push(p2@));
        i = i + 1;
        assert(crate::text::strs(out@) =~= resource_paths_spec(resource_dir@, name@).subrange(0, 2 * i as int));
    }
    assert(resource_paths_spec(resource_dir@, name@).subrange(0, 6) =~= resource_paths_spec(resource_dir@, name@));
    out
}

/// The cache of the downloaded signing helper under the local data
/// directory (`.` where there is none).
pub fn qishui_deps_cache_dir(local_data: Option<&str>) -> (r: String)
    ensures
        r@ == crate::text::spec_path_join(crate::text::spec_path_join(match local_data {
            Some(d) => d@,
            None => "."@,
        }, "NexBox"@), "qishui-node"@),
{
    let base = crate::hardware_report::data_dir(local_data);
    crate::text::path_join(base.as_str(), "qishui-node")
}

// ───────────────────────── lyrics ─────────────────────────

/// Whether `regex::Regex::new` accepts a pattern.
pub uninterp spec fn spec_regex_valid(pattern: Seq<char>) -> bool;

/// The groups of the first match of a pattern in a text (`Regex::captures`),
/// `None` without a match.
pub uninterp spec fn spec_regex_captures(pattern: Seq<char>, text: Seq<char>) -> Option<Seq<Option<Seq<char>>>>;

/// The groups of every match of a pattern in a text, in order (`captures_iter`).
pub uninterp spec fn spec_regex_captures_all(pattern: Seq<char>, text: Seq<char>) -> Seq<Seq<Option<Seq<char>>>>;

/// A text with every match of a pattern replaced (`Regex::replace_all`).
pub uninterp spec fn spec_regex_replace_all(pattern: Seq<char>, text: Seq<char>, rep: Seq<char>) -> Seq<char>;

/// The views of a match's groups.
pub open spec fn group_views(v: Seq<Option<String>>) -> Seq<Option<Seq<char>>> {
    Seq::new(v.len(), |i: int| ov(v[i]))
}

/// `regex::Regex::new(pattern).is_ok()`.  The contract only names the result.
#[verifier::external_body]
fn regex_valid(pattern: &str) -> (r: bool)
    ensures
        r == spec_regex_valid(pattern@),
{
    regex::Regex::new(pattern).is_ok()
}

/// `regex::Regex::new`, then `Regex::captures`, each group as text.  The
/// contract only names the result; nothing is found with a pattern that does
/// not compile.
#[verifier::external_body]
fn regex_captures(pattern: &str, text: &str) -> (r: Option<Vec<Option<String>>>)
    ensures
        match r {
            Some(v) => spec_regex_valid(pattern@) && spec_regex_captures(pattern@, text@) == Some(group_views(v@)),
            None => !spec_regex_valid(pattern@) || spec_regex_captures(pattern@, text@) is None,
        },
{
    match regex::Regex::new(pattern) {
        Ok(re) => re.captures(text).map(|c| c.iter().map(|m| m.map(|x| x.as_str().to_string())).collect()),
        Err(_) => None,
    }
}

/// `regex::Regex::new`, then `Regex::captures_iter`, each match's groups as
/// text.  The contract only names the result; a pattern that does not
/// compile finds nothing.
#[verifier::external_body]
fn regex_captures_all(pattern: &str, text: &str) -> (r: Vec<Vec<Option<String>>>)
    ensures
        spec_regex_valid(pattern@) ==> Seq::new(r@.len(), |i: int| group_views(r@[i]@)) == spec_regex_captures_all(pattern@, text@),
{
    match regex::Regex::new(pattern) {
        Ok(re) => re.captures_iter(text).map(|c| c.iter().map(|m| m.map(|x| x.as_str().to_string())).collect()).collect(),
        Err(_) => Vec::new(),
    }
}

/// `regex::Regex::new`, then `Regex::replace_all`.  The contract only names
/// the result; a pattern that does not compile leaves the text as it is.
#[verifier::external_body]
fn regex_replace_all(pattern: &str, text: &str, rep: &str) -> (r: String)
    ensures
        spec_regex_valid(pattern@) ==> r@ == spec_regex_replace_all(pattern@, text@, rep@),
{
    match regex::Regex::new(pattern) {
        Ok(re) => re.replace_all(text, rep).into_owned(),
        Err(_) => text.to_string(),
    }
}

/// The pattern of a timed KRC line `[start,duration]body`.
pub const KRC_LINE: &'static str = "^\\[(\\d+),(\\d+)\\](.*)$";

/// The pattern of a timed word `<start,duration,0>text` (or with round brackets).
pub const KRC_WORD: &'static str = "([<(])(\\d+),(\\d+),(\\d+)[>)]([^<(]*)";

/// Group `i` of a match as text; empty where it did not take part.
pub open spec fn group_text(g: Seq<Option<Seq<char>>>, i: int) -> Seq<char> {
    if 0 <= i < g.len() {
        match g[i] {
            Some(t) => t,
            None => Seq::empty(),
        }
    } else {
        Seq::empty()
    }
}

/// A group read as a number, 0 where it does not read.
pub open spec fn group_num(g: Seq<Option<Seq<char>>>, i: int) -> i64 {
    match crate::text::parse_i64_spec(group_text(g, i)) {
        Some(n) => n,
        None => 0,
    }
}

/// The absolute start of a word: `<…>` words count from the line, `(…)` words
/// are absolute unless they start well before the line.
pub open spec fn word_start(round: bool, line_start: i64, raw_start: i64) -> i64 {
    if !round {
        line_start.wrapping_add(raw_start)
    } else {
        let floor: i64 = if line_start.wrapping_sub(500) >= 0 { line_start.wrapping_sub(500) } else { 0 };
        if raw_start >= floor {
            raw_start
        } else {
            line_start.wrapping_add(raw_start)
        }
    }
}

/// The text and the YRC words of a line's timed words.
pub open spec fn words_fold(ws: Seq<Seq<Option<Seq<char>>>>, line_start: i64) -> (Seq<char>, Seq<char>)
    decreases ws.len(),
{
    if ws.len() == 0 {
        (Seq::empty(), Seq::empty())
    } else {
        let prev = words_fold(ws.drop_last(), line_start);
        let w = ws.last();
        let word = group_text(w, 5);
        if word.len() == 0 {
            prev
        } else {
            let round = 1 < w.len() && w[1] is Some && w[1]->0 != "<"@;
            let abs = word_start(round, line_start, group_num(w, 2));
            (
                prev.0 + word,
                prev.1 + "("@ + crate::text::signed_decimal(abs as int) + ","@ + crate::text::signed_decimal(
                    group_num(w, 3) as int,
                ) + ",0)"@ + word,
            )
        }
    }
}

/// The LRC and YRC lines of one KRC line, `None` where it is no timed line or
/// has no text.
pub open spec fn krc_line_spec(raw: Seq<char>) -> Option<(Seq<char>, Seq<char>)> {
    match spec_regex_captures(KRC_LINE@, crate::text::trim(raw)) {
        None => None,
        Some(caps) => {
            let ls = group_num(caps, 1);
            let ld = group_num(caps, 2);
            let body = group_text(caps, 3);
            let (text, ybody) = words_fold(spec_regex_captures_all(KRC_WORD@, body), ls);
            let text2 = if text.len() == 0 { spec_regex_replace_all(KRC_WORD@, body, Seq::empty()) } else { text };
            let text3 = join_sep_words(text2);
            if text3.len() == 0 {
                None
            } else {
                Some((
                    lrc_ts_spec(ls) + text3 + "\n"@,
                    "["@ + crate::text::signed_decimal(ls as int) + ","@ + crate::text::signed_decimal(ld as int) + "]"@ + ybody + "\n"@,
                ))
            }
        },
    }
}

/// The words of a text joined by single spaces.
pub open spec fn join_sep_words(t: Seq<char>) -> Seq<char> {
    crate::text::join_sep(
        split_when_ws(t).filter(crate::optimization::nonempty_word()),
        " "@,
    )
}

/// Splits at whitespace.
pub open spec fn split_when_ws(t: Seq<char>) -> Seq<Seq<char>> {
    crate::text::split_when(t, crate::optimization::ws_sep())
}

/// The LRC and YRC texts of the lines of a KRC text, line after line.
pub open spec fn krc_fold(lines: Seq<Seq<char>>) -> (Seq<char>, Seq<char>)
    decreases lines.len(),
{
    if lines.len() == 0 {
        (Seq::empty(), Seq::empty())
    } else {
        let prev = krc_fold(lines.drop_last());
        match krc_line_spec(lines.last()) {
            Some((l, y)) => (prev.0 + l, prev.1 + y),
            None => prev,
        }
    }
}

/// The KRC text with `\r\n` and `\r` line ends made `\n`.
pub open spec fn normalized_newlines(input: Seq<char>) -> Seq<char> {
    crate::text::replace_all(crate::text::replace_all(input, "\r\n"@, "\n"@), "\r"@, "\n"@)
}

/// The LRC and YRC texts of a KRC text; both empty where a pattern does not
/// compile.
pub open spec fn krc_spec(input: Seq<char>) -> (Seq<char>, Seq<char>) {
    if !spec_regex_valid(KRC_LINE@) || !spec_regex_valid(KRC_WORD@) {
        (Seq::empty(), Seq::empty())
    } else {
        krc_fold(crate::text::split_when(normalized_newlines(input), crate::optimization::nl_sep()))
    }
}

fn group_text_exec(g: &Vec<Option<String>>, i: usize) -> (r: Vec<char>)
    ensures
        r@ == group_text(group_views(g@), i as int),
{
    if i < g.len() {
        match &g[i] {
            Some(t) => chars_of(t.as_str()),
            None => Vec::new(),
        }
    } else {
        Vec::new()
    }
}

fn group_num_exec(g: &Vec<Option<String>>, i: usize) -> (r: i64)
    ensures
        r == group_num(group_views(g@), i as int),
{
    let t = group_text_exec(g, i);
    match crate::text::parse_i64(&t) {
        Some(n) => n,
        None => 0,
    }
}

fn word_start_exec(round: bool, line_start: i64, raw_start: i64) -> (r: i64)
    ensures
        r == word_start(round, line_start, raw_start),
{
    if !round {
        line_start.wrapping_add(raw_start)
    } else {
        let f = line_start.wrapping_sub(500);
        let floor: i64 = if f >= 0 { f } else { 0 };
        if raw_start >= floor {
            raw_start
        } else {
            line_start.wrapping_add(raw_start)
        }
    }
}

fn words_fold_exec(ws: &Vec<Vec<Option<String>>>, line_start: i64) -> (r: (Vec<char>, Vec<char>))
    ensures
        (r.0@, r.1@) == words_fold(Seq::new(ws@.len(), |i: int| group_views(ws@[i]@)), line_start),
{
    let ghost wv = Seq::new(ws@.len(), |i: int| group_views(ws@[i]@));
    let mut text: Vec<char> = Vec::new();
    let mut ybody: Vec<char> = Vec::new();
    let mut i: usize = 0;
    while i < ws.len()
        invariant
            i <= ws@.len(),
            wv == Seq::new(ws@.len(), |k: int| group_views(ws@[k]@)),
            (text@, ybody@) == words_fold(wv.subrange(0, i as int), line_start),
        decreases ws.len() - i,
    {
        let ghost pre = wv.subrange(0, i + 1);
        assert(pre.drop_last() =~= wv.subrange(0, i as int));
        assert(pre.last() == group_views(ws@[i as int]@));
        let w = &ws[i];
        let word = group_text_exec(w, 5);
        if word.len() > 0 {
            let round = w.len() > 1 && match &w[1] {
                Some(b) => !str_eq_lit(b.as_str(), "<"),
                None => false,
            };
            proof {
                reveal_strlit("<");
            }
            assert(round == (1 < group_views(w@).len() && group_views(w@)[1] is Some && group_views(w@)[1]->0 != "<"@));
            let abs = word_start_exec(round, line_start, group_num_exec(w, 2));
            let dur = group_num_exec(w, 3);
            append_vec(&mut text, &word);
            ybody.push('(');
            crate::text::push_i64(&mut ybody, abs);
            ybody.push(',');
            crate::text::push_i64(&mut ybody, dur);
            append_str(&mut ybody, ",0)");
            append_vec(&mut ybody, &word);
            proof {
                reveal_strlit("(");
                reveal_strlit(",");
            }
        }
        i = i + 1;
    }
    assert(wv.subrange(0, wv.len() as int) =~= wv);
    (text, ybody)
}

fn str_eq_lit(a: &str, b: &str) -> (r: bool)
    ensures
        r == (a@ == b@),
{
    crate::text::str_eq(a, b)
}

fn krc_line_exec(raw: &Vec<char>) -> (r: Option<(Vec<char>, Vec<char>)>)
    requires
        spec_regex_valid(KRC_LINE@),
        spec_regex_valid(KRC_WORD@),
    ensures
        match r {
            Some((l, y)) => krc_line_spec(raw@) == Some((l@, y@)),
            None => krc_line_spec(raw@) is None,
        },
{
    let line = string_from_chars(&crate::text::trim_vec(raw));
    let caps = match regex_captures(KRC_LINE, line.as_str()) {
        Some(c) => c,
        None => {
            return None;
        },
    };
    let ls = group_num_exec(&caps, 1);
    let ld = group_num_exec(&caps, 2);
    let body = string_from_chars(&group_text_exec(&caps, 3));
    let words = regex_captures_all(KRC_WORD, body.as_str());
    let (text, ybody) = words_fold_exec(&words, ls);
    let text2: String = if text.len() == 0 {
        proof {
            reveal_strlit("");
            assert(""@ =~= Seq::<char>::empty());
        }
        regex_replace_all(KRC_WORD, body.as_str(), "")
    } else {
        string_from_chars(&text)
    };
    let ws = crate::optimization::words_exec(text2.as_str());
    let mut parts: Vec<String> = Vec::new();
    let mut k: usize = 0;
    while k < ws.len()
        invariant
            k <= ws@.len(),
            crate::text::strs(parts@) == crate::text::views(ws@).subrange(0, k as int),
        decreases ws.len() - k,
    {
        let p = string_from_chars(&ws[k]);
        assert(crate::text::views(ws@)[k as int] == ws@[k as int]@);
        let ghost before = crate::text::strs(parts@);
        parts.push(p);
        assert(crate::text::strs(parts@) =~= before.push(p@));
        k = k + 1;
        assert(crate::text::strs(parts@) =~= crate::text::views(ws@).subrange(0, k as int));
    }
    assert(crate::text::views(ws@).subrange(0, ws@.len() as int) =~= crate::text::views(ws@));
    let text3 = crate::text::join_strings(&parts, " ");
    if str_is_empty(text3.as_str()) {
        return None;
    }
    let ts = qishui_lrc_ts(ls);
    let mut l = chars_of(ts.as_str());
    append_str(&mut l, text3.as_str());
    l.push('\n');
    let mut y: Vec<char> = Vec::new();
    y.push('[');
    crate::text::push_i64(&mut y, ls);
    y.push(',');
    crate::text::push_i64(&mut y, ld);
    y.push(']');
    append_vec(&mut y, &ybody);
    y.push('\n');
    proof {
        reveal_strlit("\n");
        reveal_strlit("[");
        reveal_strlit(",");
        reveal_strlit("]");
    }
    assert(l@ =~= lrc_ts_spec(ls) + text3@ + "\n"@);
    Some((l, y))
}

/// Converts KRC lyrics (timed lines of timed words) into LRC lines and YRC
/// word timings (see `krc_spec`).
pub fn qishui_krc_to_lrc(input: &str) -> (r: (String, String))
    ensures
        (r.0@, r.1@) == krc_spec(input@),
{
    if !regex_valid(KRC_LINE) || !regex_valid(KRC_WORD) {
        return (String::new(), String::new());
    }
    proof {
        reveal_strlit("\r\n");
        reveal_strlit("\r");
    }
    let a = crate::text::replace_str(input, "\r\n", "\n");
    let normalized = crate::text::replace_str(a.as_str(), "\r", "\n");
    let v = chars_of(normalized.as_str());
    let kind = crate::text::SepKind::AnyOf(vec!['\n']);
    let lines = crate::text::split_vec(&v, &kind);
    assert(kind.pred() =~= crate::optimization::nl_sep()) by {
        assert forall|c: char| #[trigger] kind.pred()(c) == crate::optimization::nl_sep()(c) by {
            if c == '\n' {
                assert(seq!['\n'][0] == c);
            }
        }
    }
    let ghost lv = crate::text::views(lines@);
    let mut lrc: Vec<char> = Vec::new();
    let mut yrc: Vec<char> = Vec::new();
    let mut i: usize = 0;
    while i < lines.len()
        invariant
            i <= lines@.len(),
            lv == crate::text::views(lines@),
            spec_regex_valid(KRC_LINE@),
            spec_regex_valid(KRC_WORD@),
            (lrc@, yrc@) == krc_fold(lv.subrange(0, i as int)),
        decreases lines.len() - i,
    {
        let ghost pre = lv.subrange(0, i + 1);
        assert(pre.drop_last() =~= lv.subrange(0, i as int));
        assert(pre.last() == lines@[i as int]@);
        match krc_line_exec(&lines[i]) {
            Some((l, y)) => {
                append_vec(&mut lrc, &l);
                append_vec(&mut yrc, &y);
            },
            None => {},
        }
        i = i + 1;
    }
    assert(lv.subrange(0, lv.len() as int) =~= lv);
    (string_from_chars(&lrc), string_from_chars(&yrc))
}

/// The lyrics of a SEO track answer: its KRC `lyric.content` as LRC and YRC,
/// and its translation (`translation`, `tlyric` or `translated_lyric`) as LRC
/// where it gives any.
pub fn qishui_lyric(json: &Json) -> (r: super::models::Lyrics)
    ensures
        ({
            let node = or_json(get_spec(*json, "lyric"@), Json::Null);
            let k = krc_spec(qs_str(node, seq!["content"@]));
            let t = qs_str(node, seq!["translation"@, "tlyric"@, "translated_lyric"@]);
            &&& r.lyric@ == k.0
            &&& ov(r.yrc) == nonempty_opt(k.1)
            &&& r.roma is None
            &&& ov(r.translation) == if t.len() == 0 { None } else { nonempty_opt(krc_spec(t).0) }
        }),
{
    let null = Json::Null;
    let node = or_ref(json.get("lyric"), &null);
    let k_content: [&str; 1] = ["content"];
    let k_tr: [&str; 3] = ["translation", "tlyric", "translated_lyric"];
    assert(key_views(k_content@) =~= seq!["content"@]);
    assert(key_views(k_tr@) =~= seq!["translation"@, "tlyric"@, "translated_lyric"@]);
    let content = json_str(node, &k_content);
    let tr = json_str(node, &k_tr);
    let (lyric, yrc) = qishui_krc_to_lrc(content.as_str());
    let translation = if str_is_empty(tr.as_str()) {
        None
    } else {
        let (t, _) = qishui_krc_to_lrc(tr.as_str());
        opt_string(t)
    };
    super::models::Lyrics { lyric, translation, roma: None, yrc: opt_string(yrc) }
}

// ───────────────────────── laws ─────────────────────────

/// The UTF-8 length of a text.
pub open spec fn utf8_bytes(s: Seq<char>) -> nat
    decreases s.len(),
{
    if s.len() == 0 {
        0
    } else {
        utf8_len(s[0]) + utf8_bytes(s.drop_first())
    }
}

/// A clipped text is a start of the text that fits in the byte budget, and
/// all of the text when the whole of it fits.
pub proof fn law_clip_fits(s: Seq<char>, max: nat)
    ensures
        clip_count(s, max) <= s.len(),
        utf8_bytes(s.subrange(0, clip_count(s, max) as int)) <= max,
        utf8_bytes(s) <= max ==> clip_count(s, max) == s.len(),
    decreases s.len(),
{
    if s.len() > 0 {
        let rest = s.drop_first();
        if utf8_len(s[0]) <= max {
            let m2 = (max - utf8_len(s[0])) as nat;
            law_clip_fits(rest, m2);
            let k = clip_count(rest, m2);
            let pre = s.subrange(0, k as int + 1);
            assert(pre.drop_first() =~= rest.subrange(0, k as int));
            assert(pre[0] == s[0]);
        } else {
            assert(s.subrange(0, 0).len() == 0);
            assert(utf8_bytes(s) >= utf8_len(s[0]));
        }
    } else {
        assert(s.subrange(0, 0).len() == 0);
    }
}

/// The cookie that a confirmed QR login saves always carries a login.
pub proof fn law_qr_cookie_has_login(cookie: Seq<char>, session: Option<Seq<char>>)
    requires
        qr_cookie_spec(cookie, session) is Some,
    ensures
        has_login_spec(qr_cookie_spec(cookie, session)->0),
{
}

/// The ids of a list of playlists appear at most once.
pub open spec fn ids_unique(ps: Seq<PlaylistView>) -> bool {
    forall|i: int, j: int| 0 <= i < j < ps.len() ==> ps[i].id != ps[j].id
}

proof fn lemma_add_unique(out: Seq<PlaylistView>, ps: Seq<PlaylistView>)
    requires
        ids_unique(out),
    ensures
        ids_unique(add_unique(out, ps)),
    decreases ps.len(),
{
    if ps.len() > 0 {
        lemma_add_unique(out, ps.drop_last());
        let prev = add_unique(out, ps.drop_last());
        if !playlist_ids(prev).contains(ps.last().id) {
            assert forall|i: int| 0 <= i < prev.len() implies prev[i].id != ps.last().id by {
                assert(playlist_ids(prev)[i] == prev[i].id);
            }
            assert(ids_unique(prev.push(ps.last())));
        }
    }
}

/// The user's playlists list each playlist id once: an own playlist that is
/// also collected shows once, as the own one.
pub proof fn law_user_playlists_unique(created: Json, mixed: Option<Json>)
    ensures
        ids_unique(user_playlists_spec(created, mixed)),
{
    let own = match oarr(get_spec(created, "playlists"@)) {
        Some(a) => created_list(a),
        None => Seq::empty(),
    };
    lemma_add_unique(Seq::empty(), own);
    let first = add_unique(Seq::empty(), own);
    match mixed {
        Some(m) => {
            lemma_add_unique(first, collected_list(collection_cards_spec(or_json(get_spec(m, "data"@), m))));
        },
        None => {},
    }
}

/// At most ten playlists get their cover looked up, each one without a cover,
/// in order.
pub proof fn law_cover_fill_bounded(ps: Seq<PlaylistView>)
    requires
        ps.len() <= usize::MAX,
    ensures
        cover_fill_spec(ps).len() <= 10,
        forall|k: int| 0 <= k < cover_fill_spec(ps).len() ==> {
            let i = #[trigger] cover_fill_spec(ps)[k] as int;
            0 <= i < ps.len() && ps[i].cover.len() == 0
        },
        forall|a: int, b: int| 0 <= a < b < cover_fill_spec(ps).len() ==> cover_fill_spec(ps)[a] < cover_fill_spec(ps)[b],
    decreases ps.len(),
{
    if ps.len() > 0 {
        law_cover_fill_bounded(ps.drop_last());
        let prev = cover_fill_spec(ps.drop_last());
        assert forall|k: int| 0 <= k < prev.len() implies (prev[k] as int) < ps.len() - 1 && ps[prev[k] as int] == ps.drop_last()[prev[k] as int] by {
        }
        let cur = cover_fill_spec(ps);
        if prev.len() < 10 && ps.last().cover.len() == 0 {
            let last = (ps.len() - 1) as usize;
            assert(last as int == ps.len() - 1);
            assert(cur == prev.push(last));
            assert forall|k: int| 0 <= k < cur.len() implies {
                let i = #[trigger] cur[k] as int;
                0 <= i < ps.len() && ps[i].cover.len() == 0
            } by {
                if k < prev.len() {
                    assert(cur[k] == prev[k]);
                }
            }
            assert forall|a: int, b: int| 0 <= a < b < cur.len() implies cur[a] < cur[b] by {
                if b < prev.len() {
                    assert(cur[a] == prev[a] && cur[b] == prev[b]);
                } else {
                    assert(cur[a] == prev[a]);
                }
            }
        }
    }
}


/// The quality a stream entry names in its `video_meta`.
pub open spec fn stream_quality(e: Json) -> Option<Seq<char>> {
    ostr(oget(get_spec(e, "video_meta"@), "quality"@))
}

/// A wish that names the best quality: lossless, hi-res, highest or master.
pub open spec fn wants_best(want: Seq<char>) -> bool {
    has_sub(want, "lossless"@) || has_sub(want, "hires"@) || has_sub(want, "highest"@) || has_sub(want, "jymaster"@)
}

proof fn lemma_pick_quality_finds(list: Seq<Json>, q: Seq<char>, i: int)
    requires
        0 <= i < list.len(),
        stream_quality(list[i]) == Some(q),
    ensures
        pick_quality(list, q) matches Some(c) && stream_quality(c) == Some(q),
    decreases list.len(),
{
    if stream_quality(list[0]) != Some(q) {
        assert(list.drop_first()[i - 1] == list[i]);
        lemma_pick_quality_finds(list.drop_first(), q, i - 1);
    }
}

/// A wish for the best quality gets a `highest` stream whenever the list
/// holds one.
pub proof fn law_best_wish_gets_highest(list: Seq<Json>, want: Seq<char>, i: int)
    requires
        wants_best(want),
        0 <= i < list.len(),
        stream_quality(list[i]) == Some("highest"@),
    ensures
        choose_stream(list, want) matches Some(c) && stream_quality(c) == Some("highest"@),
{
    lemma_pick_quality_finds(list, "highest"@, i);
}

/// A wish for `higher` (or `exhigh`) that names none of the best qualities gets
/// a `higher` stream whenever the list holds one.
pub proof fn law_higher_wish_gets_higher(list: Seq<Json>, want: Seq<char>, i: int)
    requires
        !wants_best(want),
        has_sub(want, "higher"@) || has_sub(want, "exhigh"@),
        0 <= i < list.len(),
        stream_quality(list[i]) == Some("higher"@),
    ensures
        choose_stream(list, want) matches Some(c) && stream_quality(c) == Some("higher"@),
{
    lemma_pick_quality_finds(list, "higher"@, i);
}

/// Without a wish that names a quality, the best stream there is gets played:
/// a `highest` one whenever the list holds one.
pub proof fn law_no_wish_gets_best_there_is(list: Seq<Json>, want: Seq<char>, i: int)
    requires
        !wants_best(want),
        !(has_sub(want, "higher"@) || has_sub(want, "exhigh"@)),
        0 <= i < list.len(),
        stream_quality(list[i]) == Some("highest"@),
    ensures
        choose_stream(list, want) matches Some(c) && stream_quality(c) == Some("highest"@),
{
    lemma_pick_quality_finds(list, "highest"@, i);
}

/// Whatever the wish, a list that holds a stream is never answered with none.
pub proof fn law_some_stream_is_chosen(list: Seq<Json>, want: Seq<char>)
    requires
        list.len() > 0,
    ensures
        choose_stream(list, want) is Some,
{
}

/// A SEO reply to a wish for the best quality plays at level `highest`
/// whenever the video list holds a `highest` stream.
pub proof fn law_seo_best_wish_plays_highest(json: Json, model: Json, want: Seq<char>, r: QishuiSongUrl, i: int)
    requires
        seo_reply_ok(json, model, want, r),
        wants_best(want),
        0 <= i < text_list(oarr(get_spec(model, "video_list"@))).len(),
        stream_quality(text_list(oarr(get_spec(model, "video_list"@)))[i]) == Some("highest"@),
    ensures
        r.level@ == "highest"@,
{
    let list = text_list(oarr(get_spec(model, "video_list"@)));
    law_best_wish_gets_highest(list, want, i);
    let c = choose_stream(list, want)->Some_0;
    let meta = or_json(get_spec(c, "video_meta"@), Json::Null);
    reveal_strlit("highest");
    assert(get_spec(c, "video_meta"@) is Some);
    assert(meta == get_spec(c, "video_meta"@)->Some_0);
    assert(seq!["quality"@][0] == "quality"@);
    assert(seq!["quality"@].len() > 0);
    assert(qs_str(meta, seq!["quality"@]) == "highest"@);
}

} // verus!
