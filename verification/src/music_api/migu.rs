//! Migu Music: mapping its catalogue responses into songs and playlists, the
//! paging arithmetic of its playlist reads, its quality levels, and the
//! decoding of its obfuscated playback answers.

use vstd::prelude::*;
use crate::json::{
    Json, get_spec, oget, str_of, ostr, u64_of, ou64, i64_of, oi64, bool_of, obool, arr_of, oarr,
    number_text, number_string, deref_opt, or_json, or_opt, derefs, json_text, positive_spec,
};
use crate::text::{
    chars_of, string_from_chars, str_to_string, append_str, append_vec, has_prefix, starts_with,
    trim, trim_vec, copy_string, str_is_empty, str_eq, slice_vec, split_by, split_by_vec, views,
    parse_u64, parse_u64_spec, join_sep, strs, join_strings, strip_all_start, strip_all_end,
};
use super::key_views;
use super::models::{
    Artist, ArtistView, Song, SongView, Playlist, PlaylistView, LoginInfo, LoginInfoView,
    SongUrlResult, SongUrlView, artist_views, ov, song_views, playlist_views,
};
use super::qishui::{nonempty_opt, text_or, str_or_empty};

verus! {

/// The host that relative Migu image paths live on.
pub const IMG_PREFIX: &'static str = "https://d.musicapp.migu.cn";

/// The chart of hot songs.
pub const RANK_HOT: &'static str = "27186466";

/// The chart of new songs.
pub const RANK_NEW: &'static str = "27553319";

/// The chart of original songs.
pub const RANK_ORIGINAL: &'static str = "27553408";

// ───────────────────────── text ─────────────────────────

/// An image path made absolute: `//` gets `https:`, `/prod…` and other
/// relative paths get the image host, and `http://` becomes `https://`.
pub open spec fn pad_image_spec(url: Seq<char>) -> Seq<char> {
    let u = trim(url);
    if u.len() == 0 {
        Seq::empty()
    } else {
        let v = if has_prefix(u, "//"@) {
            "https://"@ + u.subrange(2, u.len() as int)
        } else if has_prefix(u, "/prod"@) {
            IMG_PREFIX@ + u
        } else if !has_prefix(u, "http"@) {
            IMG_PREFIX@ + "/"@ + u
        } else {
            u
        };
        if has_prefix(v, "http://"@) {
            "https://"@ + v.subrange(7, v.len() as int)
        } else {
            v
        }
    }
}

/// Makes an image path absolute (see `pad_image_spec`).
pub fn pad_image(url: &str) -> (r: String)
    ensures
        r@ == pad_image_spec(url@),
{
    let raw = chars_of(url);
    let u = trim_vec(&raw);
    if u.len() == 0 {
        return String::new();
    }
    let v: Vec<char> = if starts_with(&u, &chars_of("//")) {
        proof {
            reveal_strlit("//");
        }
        let mut out = chars_of("https://");
        let rest = slice_vec(&u, 2, u.len());
        append_vec(&mut out, &rest);
        out
    } else if starts_with(&u, &chars_of("/prod")) {
        let mut out = chars_of(IMG_PREFIX);
        append_vec(&mut out, &u);
        out
    } else if !starts_with(&u, &chars_of("http")) {
        let mut out = chars_of(IMG_PREFIX);
        append_str(&mut out, "/");
        append_vec(&mut out, &u);
        out
    } else {
        u
    };
    if starts_with(&v, &chars_of("http://")) {
        proof {
            reveal_strlit("http://");
        }
        let mut out = chars_of("https://");
        let rest = slice_vec(&v, 7, v.len());
        append_vec(&mut out, &rest);
        return string_from_chars(&out);
    }
    string_from_chars(&v)
}

/// The Migu tone flag of a NexBox quality level.
pub open spec fn tone_flag_spec(quality: Seq<char>) -> Seq<char> {
    if quality == "standard"@ {
        "PQ"@
    } else if quality == "exhigh"@ {
        "HQ"@
    } else if quality == "lossless"@ {
        "SQ"@
    } else if quality == "hires"@ || quality == "jymaster"@ {
        "ZQ"@
    } else {
        "SQ"@
    }
}

/// The Migu tone flag of a NexBox quality level.
pub fn tone_flag_for(quality: &str) -> (r: &'static str)
    ensures
        r@ == tone_flag_spec(quality@),
{
    if str_eq(quality, "standard") {
        "PQ"
    } else if str_eq(quality, "exhigh") {
        "HQ"
    } else if str_eq(quality, "lossless") {
        "SQ"
    } else if str_eq(quality, "hires") || str_eq(quality, "jymaster") {
        "ZQ"
    } else {
        "SQ"
    }
}

/// The quality label shown for a Migu tone flag.
pub open spec fn quality_label_spec(flag: Seq<char>) -> Seq<char> {
    if flag == "PQ"@ {
        "标准"@
    } else if flag == "HQ"@ {
        "高品质"@
    } else if flag == "SQ"@ {
        "无损"@
    } else if flag == "ZQ"@ {
        "臻品"@
    } else {
        "标准"@
    }
}

/// The quality label shown for a Migu tone flag.
pub fn quality_for_tone_flag(flag: &str) -> (r: &'static str)
    ensures
        r@ == quality_label_spec(flag@),
{
    if str_eq(flag, "PQ") {
        "标准"
    } else if str_eq(flag, "HQ") {
        "高品质"
    } else if str_eq(flag, "SQ") {
        "无损"
    } else if str_eq(flag, "ZQ") {
        "臻品"
    } else {
        "标准"
    }
}

/// The tone flags tried, in order, when the wanted one is refused.
pub open spec fn degrade_order_spec() -> Seq<Seq<char>> {
    seq!["PQ"@, "SQ"@, "HQ"@, "ZQ"@]
}

/// The tone flags tried, in order, when the wanted one is refused.
pub fn tone_flag_degrade_order() -> (r: [&'static str; 4])
    ensures
        key_views(r@) == degrade_order_spec(),
{
    let r: [&'static str; 4] = ["PQ", "SQ", "HQ", "ZQ"];
    assert(key_views(r@) =~= degrade_order_spec());
    r
}

/// Any flag but `t`.
pub open spec fn other_than(t: Seq<char>) -> spec_fn(Seq<char>) -> bool {
    |f: Seq<char>| f != t
}

/// The tone flags to try: the wanted one first, then the others in the
/// degrade order.
pub open spec fn try_flags_spec(quality: Seq<char>) -> Seq<Seq<char>> {
    let t = tone_flag_spec(quality);
    seq![t] + degrade_order_spec().filter(other_than(t))
}

/// The tone flags to try for a wanted quality.
pub fn try_flags(quality: &str) -> (r: Vec<&'static str>)
    ensures
        key_views(r@) == try_flags_spec(quality@),
{
    let target = tone_flag_for(quality);
    let order = tone_flag_degrade_order();
    let mut out: Vec<&'static str> = Vec::new();
    out.push(target);
    let ghost ov = degrade_order_spec();
    let ghost keep = other_than(target@);
    let mut i: usize = 0;
    assert(key_views(out@) =~= seq![target@] + ov.subrange(0, 0).filter(keep));
    while i < 4
        invariant
            i <= 4,
            order@.len() == 4,
            key_views(order@) == ov,
            ov == degrade_order_spec(),
            keep == other_than(target@),
            key_views(out@) == seq![target@] + ov.subrange(0, i as int).filter(keep),
        decreases 4 - i,
    {
        let ghost pre = ov.subrange(0, i + 1);
        assert(pre.drop_last() =~= ov.subrange(0, i as int));
        assert(pre.filter(keep) == if keep(pre.last()) {
            pre.drop_last().filter(keep).push(pre.last())
        } else {
            pre.drop_last().filter(keep)
        }) by {
            reveal_with_fuel(Seq::filter, 1);
        }
        assert(pre.last() == order@[i as int]@);
        let ghost before = key_views(out@);
        if !str_eq(order[i], target) {
            out.push(order[i]);
            assert(key_views(out@) =~= before.push(order@[i as int]@));
        }
        i = i + 1;
    }
    assert(ov.subrange(0, 4) =~= ov);
    out
}

/// An id that may come as a string or a number, as text.
pub open spec fn migu_str_spec(v: Option<Json>) -> Option<Seq<char>> {
    match v {
        Some(Json::Str(s)) => Some(s@),
        Some(Json::Num(n)) => Some(number_text(n)),
        _ => None,
    }
}

/// An id that may come as a string or a number, as text.
pub fn json_str(v: Option<&Json>) -> (r: Option<String>)
    ensures
        ov(r) == migu_str_spec(deref_opt(v)),
{
    match v {
        Some(Json::Str(s)) => Some(s.clone()),
        Some(Json::Num(n)) => Some(number_string(n)),
        _ => None,
    }
}

/// The leading digits of one part of a `length` text, before any `.`, trimmed.
pub open spec fn length_part(p: Seq<char>) -> Option<u64> {
    parse_u64_spec(trim(split_by(p, seq!['.'])[0]))
}

/// The parts of a `length` text that read as numbers, in order.
pub open spec fn length_numbers(parts: Seq<Seq<char>>) -> Seq<u64>
    decreases parts.len(),
{
    if parts.len() == 0 {
        Seq::empty()
    } else {
        let prev = length_numbers(parts.drop_last());
        match length_part(parts.last()) {
            Some(u) => prev.push(u),
            None => prev,
        }
    }
}

/// A `length` text (`ss`, `mm:ss` or `hh:mm:ss`, each part possibly with a
/// fraction) in milliseconds, wrapping as `u64` arithmetic does; 0 for any
/// other shape.
pub open spec fn length_ms_spec(s: Seq<char>) -> int {
    let ns = length_numbers(split_by(s, seq![':']));
    length_total_spec(ns)
}

/// A `length` text in milliseconds (see `length_ms_spec`).
pub fn parse_length_ms(s: &str) -> (r: u64)
    ensures
        r as int == length_ms_spec(s@),
{
    let cs = chars_of(s);
    let mut colon: Vec<char> = Vec::new();
    colon.push(':');
    assert(colon@ =~= seq![':']);
    let parts = split_by_vec(&cs, &colon);
    let mut dot: Vec<char> = Vec::new();
    dot.push('.');
    assert(dot@ =~= seq!['.']);
    let ghost pv = views(parts@);
    let mut ns: Vec<u64> = Vec::new();
    let mut i: usize = 0;
    while i < parts.len()
        invariant
            i <= parts@.len(),
            pv == views(parts@),
            dot@ == seq!['.'],
            ns@ == length_numbers(pv.subrange(0, i as int)),
        decreases parts.len() - i,
    {
        let ghost pre = pv.subrange(0, i + 1);
        assert(pre.drop_last() =~= pv.subrange(0, i as int));
        let pieces = split_by_vec(&parts[i], &dot);
        let head = trim_vec(&pieces[0]);
        match parse_u64(&head) {
            Some(u) => ns.push(u),
            None => {},
        }
        i = i + 1;
    }
    assert(pv.subrange(0, pv.len() as int) =~= pv);
    length_total(&ns)
}

/// The milliseconds of the numbers of a `length` text.
pub open spec fn length_total_spec(ns: Seq<u64>) -> int {
    let total: int = if ns.len() == 1 {
        ns[0] as int
    } else if ns.len() == 2 {
        ns[0] * 60 + ns[1]
    } else if ns.len() == 3 {
        ns[0] * 3600 + ns[1] * 60 + ns[2]
    } else {
        0
    };
    (total * 1000) % 0x1_0000_0000_0000_0000
}

proof fn lemma_wrap2(a: int, b: int)
    ensures
        (((a * 60) % 0x1_0000_0000_0000_0000 + b) % 0x1_0000_0000_0000_0000) * 1000 % 0x1_0000_0000_0000_0000
            == (a * 60 + b) * 1000 % 0x1_0000_0000_0000_0000,
{
    let m: int = 0x1_0000_0000_0000_0000;
    vstd::arithmetic::div_mod::lemma_add_mod_noop(a * 60, b, m);
    vstd::arithmetic::div_mod::lemma_mod_twice(a * 60, m);
    vstd::arithmetic::div_mod::lemma_mul_mod_noop_left((a * 60) % m + b, 1000, m);
    vstd::arithmetic::div_mod::lemma_mul_mod_noop_left(a * 60 + b, 1000, m);
    vstd::arithmetic::div_mod::lemma_mod_twice((a * 60) % m + b, m);
}

proof fn lemma_wrap3(a: int, b: int, c: int)
    ensures
        ((((a * 3600) % 0x1_0000_0000_0000_0000 + (b * 60) % 0x1_0000_0000_0000_0000) % 0x1_0000_0000_0000_0000 + c)
            % 0x1_0000_0000_0000_0000) * 1000 % 0x1_0000_0000_0000_0000 == (a * 3600 + b * 60 + c) * 1000
            % 0x1_0000_0000_0000_0000,
{
    let m: int = 0x1_0000_0000_0000_0000;
    let x = ((a * 3600) % m + (b * 60) % m) % m;
    vstd::arithmetic::div_mod::lemma_add_mod_noop(a * 3600, b * 60, m);
    assert(x == (a * 3600 + b * 60) % m);
    vstd::arithmetic::div_mod::lemma_add_mod_noop(x, c, m);
    vstd::arithmetic::div_mod::lemma_add_mod_noop(a * 3600 + b * 60, c, m);
    vstd::arithmetic::div_mod::lemma_mod_twice(a * 3600 + b * 60, m);
    assert((x + c) % m == (a * 3600 + b * 60 + c) % m);
    vstd::arithmetic::div_mod::lemma_mul_mod_noop_left(x + c, 1000, m);
    vstd::arithmetic::div_mod::lemma_mul_mod_noop_left(a * 3600 + b * 60 + c, 1000, m);
    vstd::arithmetic::div_mod::lemma_mod_twice(x + c, m);
}

fn wmul(a: u64, k: u64) -> (r: u64)
    ensures
        r as int == (a as int * k as int) % 0x1_0000_0000_0000_0000,
{
    a.wrapping_mul(k)
}

fn wadd(a: u64, b: u64) -> (r: u64)
    ensures
        r as int == (a as int + b as int) % 0x1_0000_0000_0000_0000,
{
    a.wrapping_add(b)
}

fn length_total(ns: &Vec<u64>) -> (r: u64)
    ensures
        r as int == length_total_spec(ns@),
{
    if ns.len() == 1 {
        wmul(ns[0], 1000)
    } else if ns.len() == 2 {
        let x = wadd(wmul(ns[0], 60), ns[1]);
        proof {
            lemma_wrap2(ns@[0] as int, ns@[1] as int);
        }
        wmul(x, 1000)
    } else if ns.len() == 3 {
        let x = wadd(wadd(wmul(ns[0], 3600), wmul(ns[1], 60)), ns[2]);
        proof {
            lemma_wrap3(ns@[0] as int, ns@[1] as int, ns@[2] as int);
        }
        wmul(x, 1000)
    } else {
        0
    }
}

// ───────────────────────── songs ─────────────────────────

fn get_str<'a>(v: &'a Json, key: &str) -> (r: Option<&'a String>)
    ensures
        match r {
            Some(s) => ostr(get_spec(*v, key@)) == Some(s@),
            None => ostr(get_spec(*v, key@)) is None,
        },
{
    match v.get(key) {
        Some(x) => x.as_str(),
        None => None,
    }
}

fn arr_at<'a>(v: &'a Json, key: &str) -> (r: Option<&'a Vec<Json>>)
    ensures
        match r {
            Some(a) => oarr(get_spec(*v, key@)) == Some(a@),
            None => oarr(get_spec(*v, key@)) is None,
        },
{
    match v.get(key) {
        Some(x) => x.as_array(),
        None => None,
    }
}

/// The first entry of `arr` whose `imgSizeType` is `t`.
pub open spec fn find_img_type(arr: Seq<Json>, t: Seq<char>) -> Option<Json>
    decreases arr.len(),
{
    if arr.len() == 0 {
        None
    } else if ostr(get_spec(arr[0], "imgSizeType"@)) == Some(t) {
        Some(arr[0])
    } else {
        find_img_type(arr.drop_first(), t)
    }
}

/// The non-empty image of the first entry of size type `t`.
pub open spec fn img_of_type(arr: Seq<Json>, t: Seq<char>) -> Option<Seq<char>> {
    match find_img_type(arr, t) {
        Some(m) => match ostr(get_spec(m, "img"@)) {
            Some(u) => if u.len() > 0 { Some(u) } else { None },
            None => None,
        },
        None => None,
    }
}

/// The cover of an old-style song: its album image of size 03, else 02, else 01.
pub open spec fn album_imgs_cover_spec(data: Json) -> Seq<char> {
    match oarr(get_spec(data, "albumImgs"@)) {
        Some(arr) => match img_of_type(arr, "03"@) {
            Some(u) => pad_image_spec(u),
            None => match img_of_type(arr, "02"@) {
                Some(u) => pad_image_spec(u),
                None => match img_of_type(arr, "01"@) {
                    Some(u) => pad_image_spec(u),
                    None => Seq::empty(),
                },
            },
        },
        None => Seq::empty(),
    }
}

fn img_of_type_exec(arr: &Vec<Json>, t: &str) -> (r: Option<String>)
    ensures
        ov(r) == img_of_type(arr@, t@),
{
    let n = arr.len();
    let mut i: usize = 0;
    assert(arr@.subrange(0, n as int) =~= arr@);
    while i < n
        invariant
            n == arr@.len(),
            i <= n,
            find_img_type(arr@, t@) == find_img_type(arr@.subrange(i as int, n as int), t@),
        decreases n - i,
    {
        let ghost sub = arr@.subrange(i as int, n as int);
        assert(sub[0] == arr@[i as int]);
        assert(sub.drop_first() =~= arr@.subrange(i + 1, n as int));
        let hit = match get_str(&arr[i], "imgSizeType") {
            Some(x) => str_eq(x.as_str(), t),
            None => false,
        };
        if hit {
            return match get_str(&arr[i], "img") {
                Some(u) => if str_is_empty(u.as_str()) {
                    None
                } else {
                    Some(u.clone())
                },
                None => None,
            };
        }
        i = i + 1;
    }
    None
}

/// The cover of an old-style song (see `album_imgs_cover_spec`).
pub fn cover_from_album_imgs(data: &Json) -> (r: String)
    ensures
        r@ == album_imgs_cover_spec(*data),
{
    match arr_at(data, "albumImgs") {
        Some(arr) => match img_of_type_exec(arr, "03") {
            Some(u) => pad_image(u.as_str()),
            None => match img_of_type_exec(arr, "02") {
                Some(u) => pad_image(u.as_str()),
                None => match img_of_type_exec(arr, "01") {
                    Some(u) => pad_image(u.as_str()),
                    None => String::new(),
                },
            },
        },
        None => String::new(),
    }
}

/// A singer of a new-style song; `None` without a string name.
pub open spec fn singer_spec(s: Json) -> Option<ArtistView> {
    match ostr(get_spec(s, "name"@)) {
        Some(n) => Some(ArtistView {
            id: migu_str_spec(get_spec(s, "id"@)),
            mid: None,
            name: n,
            pic_url: match ostr(get_spec(s, "img"@)) {
                Some(u) => if u.len() > 0 { Some(pad_image_spec(u)) } else { None },
                None => None,
            },
            music_size: None,
        }),
        None => None,
    }
}

/// An artist of an old-style song; `None` without a name.
pub open spec fn legacy_artist_spec(a: Json) -> Option<ArtistView> {
    match migu_str_spec(get_spec(a, "name"@)) {
        Some(n) => Some(ArtistView {
            id: migu_str_spec(get_spec(a, "id"@)),
            mid: None,
            name: n,
            pic_url: None,
            music_size: None,
        }),
        None => None,
    }
}

/// The artists of a list, each item mapped by `f` where it gives one.
pub open spec fn artists_by(items: Seq<Json>, legacy: bool) -> Seq<ArtistView>
    decreases items.len(),
{
    if items.len() == 0 {
        Seq::empty()
    } else {
        let prev = artists_by(items.drop_last(), legacy);
        let a = if legacy {
            legacy_artist_spec(items.last())
        } else {
            singer_spec(items.last())
        };
        match a {
            Some(x) => prev.push(x),
            None => prev,
        }
    }
}

/// The names of a list of artists.
pub open spec fn names_of(a: Seq<ArtistView>) -> Seq<Seq<char>> {
    Seq::new(a.len(), |i: int| a[i].name)
}

fn singer_exec(s: &Json, legacy: bool) -> (r: Option<Artist>)
    ensures
        match r {
            Some(a) => Some(a@) == if legacy { legacy_artist_spec(*s) } else { singer_spec(*s) },
            None => (if legacy { legacy_artist_spec(*s) } else { singer_spec(*s) }) is None,
        },
{
    if legacy {
        match json_str(s.get("name")) {
            Some(n) => Some(Artist { id: json_str(s.get("id")), mid: None, name: n, pic_url: None, music_size: None }),
            None => None,
        }
    } else {
        match get_str(s, "name") {
            Some(n) => {
                let pic = match get_str(s, "img") {
                    Some(u) => if str_is_empty(u.as_str()) {
                        None
                    } else {
                        Some(pad_image(u.as_str()))
                    },
                    None => None,
                };
                Some(Artist { id: json_str(s.get("id")), mid: None, name: n.clone(), pic_url: pic, music_size: None })
            },
            None => None,
        }
    }
}

fn artists_exec(items: &Vec<Json>, legacy: bool) -> (r: Vec<Artist>)
    ensures
        artist_views(r@) == artists_by(items@, legacy),
{
    let mut out: Vec<Artist> = Vec::new();
    let mut i: usize = 0;
    while i < items.len()
        invariant
            i <= items@.len(),
            artist_views(out@) == artists_by(items@.subrange(0, i as int), legacy),
        decreases items.len() - i,
    {
        let ghost pre = items@.subrange(0, i + 1);
        assert(pre.drop_last() =~= items@.subrange(0, i as int));
        match singer_exec(&items[i], legacy) {
            Some(a) => {
                let ghost before = artist_views(out@);
                out.push(a);
                assert(artist_views(out@) =~= before.push(a@));
            },
            None => {},
        }
        i = i + 1;
    }
    assert(items@.subrange(0, items@.len() as int) =~= items@);
    out
}

fn names_joined(a: &Vec<Artist>) -> (r: String)
    ensures
        r@ == join_sep(names_of(artist_views(a@)), " / "@),
{
    let mut names: Vec<String> = Vec::new();
    let mut i: usize = 0;
    while i < a.len()
        invariant
            i <= a@.len(),
            strs(names@) == names_of(artist_views(a@)).subrange(0, i as int),
        decreases a.len() - i,
    {
        let nm = copy_string(&a[i].name);
        let ghost before = strs(names@);
        names.push(nm);
        assert(strs(names@) =~= before.push(nm@));
        i = i + 1;
        assert(strs(names@) =~= names_of(artist_views(a@)).subrange(0, i as int));
    }
    assert(names_of(artist_views(a@)).subrange(0, a@.len() as int) =~= names_of(artist_views(a@)));
    join_strings(&names, " / ")
}

/// A tag list that names `vip`.
pub open spec fn has_vip_tag(tags: Seq<Json>) -> bool {
    exists|i: int| 0 <= i < tags.len() && str_of(#[trigger] tags[i]) == Some("vip"@)
}

fn has_vip_tag_exec(tags: &Vec<Json>) -> (b: bool)
    ensures
        b == has_vip_tag(tags@),
{
    let mut i: usize = 0;
    while i < tags.len()
        invariant
            i <= tags@.len(),
            forall|j: int| 0 <= j < i ==> str_of(#[trigger] tags@[j]) != Some("vip"@),
        decreases tags.len() - i,
    {
        match tags[i].as_str() {
            Some(t) => {
                if str_eq(t.as_str(), "vip") {
                    return true;
                }
            },
            None => {},
        }
        i = i + 1;
    }
    false
}

/// The artists and artist text of a song: its singer list, or where that
/// names nobody, its old-style `singer` text and `artists` list.
pub open spec fn song_artists_spec(data: Json) -> (Seq<ArtistView>, Seq<char>) {
    let new_list = match oarr(get_spec(data, "singerList"@)) {
        Some(arr) => artists_by(arr, false),
        None => Seq::empty(),
    };
    let joined = join_sep(names_of(new_list), " / "@);
    if joined.len() > 0 {
        (new_list, joined)
    } else {
        let singer = text_or(ostr(get_spec(data, "singer"@)), Seq::empty());
        let old_list = match oarr(get_spec(data, "artists"@)) {
            Some(arr) => artists_by(arr, true),
            None => Seq::empty(),
        };
        (old_list, if singer.len() > 0 { singer } else { join_sep(names_of(old_list), " / "@) })
    }
}

/// The cover of a song: `img3` where non-empty, else `img2`, else `img1`,
/// made absolute; else its album images.
pub open spec fn song_cover_spec(data: Json) -> Seq<char> {
    let img3 = match ostr(get_spec(data, "img3"@)) {
        Some(u) => if u.len() > 0 { Some(u) } else { None },
        None => None,
    };
    let pick = match img3 {
        Some(u) => Some(u),
        None => match ostr(get_spec(data, "img2"@)) {
            Some(u) => Some(u),
            None => ostr(get_spec(data, "img1"@)),
        },
    };
    let c = match pick {
        Some(u) => pad_image_spec(u),
        None => Seq::empty(),
    };
    if c.len() > 0 {
        c
    } else {
        album_imgs_cover_spec(data)
    }
}

/// A Migu song record (new or old style) as a song; `None` without a name, or
/// without both a copyright id and a content id.
pub open spec fn song3_spec(data: Json) -> Option<SongView> {
    let name = match ostr(get_spec(data, "name"@)) {
        Some(n) => n,
        None => text_or(ostr(get_spec(data, "songName"@)), Seq::empty()),
    };
    let copyright_id = text_or(migu_str_spec(get_spec(data, "copyrightId"@)), Seq::empty());
    let content_id = text_or(
        match migu_str_spec(get_spec(data, "contentId"@)) {
            Some(c) => Some(c),
            None => migu_str_spec(get_spec(data, "songId"@)),
        },
        Seq::empty(),
    );
    if name.len() == 0 || (copyright_id.len() == 0 && content_id.len() == 0) {
        None
    } else {
        let arts = song_artists_spec(data);
        let duration: int = match ou64(get_spec(data, "duration"@)) {
            Some(sec) => (sec * 1000) % 0x1_0000_0000_0000_0000,
            None => length_ms_spec(text_or(ostr(get_spec(data, "length"@)), Seq::empty())),
        };
        let vip = (match oarr(get_spec(data, "downloadTags"@)) {
            Some(tags) => has_vip_tag(tags),
            None => false,
        }) || (match oi64(get_spec(data, "vipFlag"@)) {
            Some(f) => f,
            None => 0,
        }) == 1;
        Some(SongView {
            provider: "migu"@,
            id: copyright_id,
            content_id: nonempty_opt(content_id),
            name,
            artist: arts.1,
            artists: arts.0,
            album: text_or(ostr(get_spec(data, "album"@)), Seq::empty()),
            cover: song_cover_spec(data),
            duration: duration as u64,
            fee: if vip { 1 } else { 0 },
            playable: true,
        })
    }
}

fn str_or_empty_exec(o: Option<&String>) -> (r: String)
    ensures
        r@ == match o {
            Some(s) => s@,
            None => Seq::empty(),
        },
{
    match o {
        Some(s) => s.clone(),
        None => String::new(),
    }
}

fn song_artists_exec(data: &Json) -> (r: (Vec<Artist>, String))
    ensures
        (artist_views(r.0@), r.1@) == song_artists_spec(*data),
{
    let new_list: Vec<Artist> = match arr_at(data, "singerList") {
        Some(arr) => artists_exec(arr, false),
        None => Vec::new(),
    };
    let joined = names_joined(&new_list);
    if !str_is_empty(joined.as_str()) {
        return (new_list, joined);
    }
    let singer = str_or_empty_exec(get_str(data, "singer"));
    let old_list: Vec<Artist> = match arr_at(data, "artists") {
        Some(arr) => artists_exec(arr, true),
        None => Vec::new(),
    };
    if !str_is_empty(singer.as_str()) {
        (old_list, singer)
    } else {
        let j = names_joined(&old_list);
        (old_list, j)
    }
}

fn song_cover_exec(data: &Json) -> (r: String)
    ensures
        r@ == song_cover_spec(*data),
{
    let img3: Option<&String> = match get_str(data, "img3") {
        Some(u) => if str_is_empty(u.as_str()) {
            None
        } else {
            Some(u)
        },
        None => None,
    };
    let pick: Option<&String> = match img3 {
        Some(u) => Some(u),
        None => match get_str(data, "img2") {
            Some(u) => Some(u),
            None => get_str(data, "img1"),
        },
    };
    let c = match pick {
        Some(u) => pad_image(u.as_str()),
        None => String::new(),
    };
    if !str_is_empty(c.as_str()) {
        c
    } else {
        cover_from_album_imgs(data)
    }
}

/// Maps a Migu song record (see `song3_spec`).
pub fn parse_song3(data: &Json) -> (r: Option<Song>)
    ensures
        match r {
            Some(s) => song3_spec(*data) == Some(s@),
            None => song3_spec(*data) is None,
        },
{
    let name: String = match get_str(data, "name") {
        Some(n) => n.clone(),
        None => str_or_empty_exec(get_str(data, "songName")),
    };
    if str_is_empty(name.as_str()) {
        return None;
    }
    let copyright_id = match json_str(data.get("copyrightId")) {
        Some(c) => c,
        None => String::new(),
    };
    let content_id = match json_str(data.get("contentId")) {
        Some(c) => c,
        None => match json_str(data.get("songId")) {
            Some(c) => c,
            None => String::new(),
        },
    };
    if str_is_empty(copyright_id.as_str()) && str_is_empty(content_id.as_str()) {
        return None;
    }
    let (artists, artist) = song_artists_exec(data);
    let cover = song_cover_exec(data);
    let duration: u64 = match data.get("duration") {
        Some(d) => match d.as_u64() {
            Some(sec) => sec.wrapping_mul(1000),
            None => parse_length_ms(str_or_empty_exec(get_str(data, "length")).as_str()),
        },
        None => parse_length_ms(str_or_empty_exec(get_str(data, "length")).as_str()),
    };
    let tag_vip = match arr_at(data, "downloadTags") {
        Some(tags) => has_vip_tag_exec(tags),
        None => false,
    };
    let flag = match data.get("vipFlag") {
        Some(v) => match v.as_i64() {
            Some(f) => f,
            None => 0,
        },
        None => 0,
    };
    let vip = tag_vip || flag == 1;
    let album = str_or_empty_exec(get_str(data, "album"));
    let content = if str_is_empty(content_id.as_str()) {
        None
    } else {
        Some(content_id)
    };
    Some(Song {
        provider: str_to_string("migu"),
        id: copyright_id,
        content_id: content,
        name,
        artist,
        artists,
        album,
        cover,
        duration,
        fee: if vip { 1 } else { 0 },
        playable: true,
    })
}

/// The songs of a list of records, skipping those that do not map.
pub open spec fn song_list_spec(items: Seq<Json>) -> Seq<SongView>
    decreases items.len(),
{
    if items.len() == 0 {
        Seq::empty()
    } else {
        let prev = song_list_spec(items.drop_last());
        match song3_spec(items.last()) {
            Some(s) => prev.push(s),
            None => prev,
        }
    }
}

/// The songs of an optional array of records (none where it is no array).
pub fn parse_song_list(value: Option<&Json>) -> (r: Vec<Song>)
    ensures
        song_views(r@) == match oarr(deref_opt(value)) {
            Some(a) => song_list_spec(a),
            None => Seq::empty(),
        },
{
    let mut out: Vec<Song> = Vec::new();
    match value {
        Some(v) => match v.as_array() {
            Some(items) => {
                let mut i: usize = 0;
                while i < items.len()
                    invariant
                        i <= items@.len(),
                        song_views(out@) == song_list_spec(items@.subrange(0, i as int)),
                    decreases items.len() - i,
                {
                    let ghost pre = items@.subrange(0, i + 1);
                    assert(pre.drop_last() =~= items@.subrange(0, i as int));
                    match parse_song3(&items[i]) {
                        Some(song) => {
                            let ghost before = song_views(out@);
                            out.push(song);
                            assert(song_views(out@) =~= before.push(song@));
                        },
                        None => {},
                    }
                    i = i + 1;
                }
                assert(items@.subrange(0, items@.len() as int) =~= items@);
            },
            None => {},
        },
        None => {},
    }
    out
}

// ───────────────────────── login ─────────────────────────

/// A loose flag: a boolean, a number above zero, or one of the texts `1`,
/// `true`, `VIP`, `vip`, `是` (trimmed).
pub open spec fn truthy_spec(v: Json) -> bool {
    match v {
        Json::Bool(b) => b,
        Json::Num(_) => positive_spec(v),
        Json::Str(s) => {
            let t = trim(s@);
            t == "1"@ || t == "true"@ || t == "VIP"@ || t == "vip"@ || t == "是"@
        },
        _ => false,
    }
}

/// Reads a loose flag (see `truthy_spec`).
pub fn truthy(v: &Json) -> (b: bool)
    ensures
        b == truthy_spec(*v),
{
    match v {
        Json::Bool(b) => *b,
        Json::Num(_) => v.is_positive(),
        Json::Str(s) => {
            let cs = chars_of(s.as_str());
            let t = string_from_chars(&trim_vec(&cs));
            let x = t.as_str();
            str_eq(x, "1") || str_eq(x, "true") || str_eq(x, "VIP") || str_eq(x, "vip") || str_eq(x, "是")
        },
        _ => false,
    }
}

/// A value as text: a string as it is, anything else as compact JSON without
/// surrounding quotes.
pub open spec fn value_text(v: Json) -> Seq<char> {
    match v {
        Json::Str(s) => s@,
        _ => strip_all_end(strip_all_start(json_text(v), '"'), '"'),
    }
}

/// A value as text (see `value_text`).
pub fn value_to_text(v: &Json) -> (r: String)
    ensures
        r@ == value_text(*v),
{
    match v {
        Json::Str(s) => s.clone(),
        _ => {
            let t = crate::json::to_json_string(v);
            let cs = chars_of(t.as_str());
            let a = crate::text::strip_all_start_vec(&cs, '"');
            let b = crate::text::strip_all_end_vec(&a, '"');
            string_from_chars(&b)
        },
    }
}

/// Some key of `ks` holds a set flag.
pub open spec fn any_flag(user: Json, ks: Seq<Seq<char>>) -> bool {
    exists|i: int| 0 <= i < ks.len() && match get_spec(user, #[trigger] ks[i]) {
        Some(v) => truthy_spec(v),
        None => false,
    }
}

/// A text field that is set: non-empty and not `0`.
pub open spec fn set_text(o: Option<Seq<char>>) -> bool {
    match o {
        Some(s) => s.len() > 0 && s != "0"@,
        None => false,
    }
}

/// The membership of a Migu user record: whether a member, the member type
/// (1 for a member and 0 otherwise where the record has none) and the level.
pub open spec fn vip_spec(user: Json) -> (bool, i32, Seq<char>) {
    let is_vip = any_flag(user, seq!["vipFlag"@, "vipStatus"@, "isVip"@, "vip"@, "isVipUser"@, "vipMark"@])
        || set_text(ostr(get_spec(user, "vipLevel"@))) || set_text(ostr(get_spec(user, "vipEndTime"@)));
    let vip_type = match oi64(get_spec(user, "vipType"@)) {
        Some(t) => t as i32,
        None => if is_vip { 1i32 } else { 0i32 },
    };
    let level = match get_spec(user, "vipLevel"@) {
        Some(v) => value_text(v),
        None => Seq::empty(),
    };
    (is_vip, vip_type, level)
}

fn set_text_exec(o: Option<&String>) -> (b: bool)
    ensures
        b == set_text(match o {
            Some(s) => Some(s@),
            None => None,
        }),
{
    match o {
        Some(s) => !str_is_empty(s.as_str()) && !str_eq(s.as_str(), "0"),
        None => false,
    }
}

/// Reads the membership of a Migu user record (see `vip_spec`).
pub fn detect_vip(user: &Json) -> (r: (bool, i32, String))
    ensures
        (r.0, r.1, r.2@) == vip_spec(*user),
{
    let keys: [&str; 6] = ["vipFlag", "vipStatus", "isVip", "vip", "isVipUser", "vipMark"];
    let ghost kv = key_views(keys@);
    assert(kv =~= seq!["vipFlag"@, "vipStatus"@, "isVip"@, "vip"@, "isVipUser"@, "vipMark"@]);
    let mut flag = false;
    let mut i: usize = 0;
    while i < 6
        invariant
            i <= 6,
            keys@.len() == 6,
            kv == key_views(keys@),
            flag == exists|j: int| 0 <= j < i && match get_spec(*user, #[trigger] kv[j]) {
                Some(v) => truthy_spec(v),
                None => false,
            },
        decreases 6 - i,
    {
        assert(kv[i as int] == keys@[i as int]@);
        let hit = match user.get(keys[i]) {
            Some(v) => truthy(v),
            None => false,
        };
        if hit {
            flag = true;
        }
        i = i + 1;
    }
    let is_vip = flag || set_text_exec(get_str(user, "vipLevel")) || set_text_exec(get_str(user, "vipEndTime"));
    let vip_type: i32 = match user.get("vipType") {
        Some(v) => match v.as_i64() {
            Some(t) => #[verifier::truncate] (t as i32),
            None => if is_vip { 1 } else { 0 },
        },
        None => if is_vip { 1 } else { 0 },
    };
    let level = match user.get("vipLevel") {
        Some(v) => value_to_text(v),
        None => String::new(),
    };
    (is_vip, vip_type, level)
}

/// The login state of a Migu `queryUserInfo` answer: logged out without a
/// user id, else the user with name (`咪咕用户` by default), avatar and
/// membership.
pub open spec fn login_spec(json: Json) -> LoginInfoView {
    let user = or_json(get_spec(json, "userInfoItem"@), Json::Null);
    let user_id = match get_spec(user, "userId"@) {
        Some(v) => value_text(v),
        None => Seq::empty(),
    };
    if user_id.len() == 0 {
        logged_out_view()
    } else {
        let vip = vip_spec(user);
        LoginInfoView {
            provider: "migu"@,
            logged_in: true,
            user_id,
            nickname: text_or(ostr(get_spec(user, "nickName"@)), "咪咕用户"@),
            avatar: match ostr(get_spec(user, "smallIcon"@)) {
                Some(u) => pad_image_spec(u),
                None => Seq::empty(),
            },
            vip_type: vip.1,
            vip_level: vip.2,
            is_vip: vip.0,
            is_svip: false,
        }
    }
}

/// A logged-out Migu state.
pub open spec fn logged_out_view() -> LoginInfoView {
    LoginInfoView {
        provider: "migu"@,
        logged_in: false,
        user_id: Seq::empty(),
        nickname: Seq::empty(),
        avatar: Seq::empty(),
        vip_type: 0,
        vip_level: Seq::empty(),
        is_vip: false,
        is_svip: false,
    }
}

/// Whether a cookie is worth asking Migu about: it is not blank.
pub fn migu_cookie_present(cookie: &str) -> (b: bool)
    ensures
        b == (trim(cookie@).len() > 0),
{
    let cs = chars_of(cookie);
    trim_vec(&cs).len() > 0
}

/// The logged-out state, for a blank cookie.
pub fn migu_logged_out() -> (r: LoginInfo)
    ensures
        r@ == logged_out_view(),
{
    super::models::logged_out("migu")
}

/// The login state of a Migu `queryUserInfo` answer (see `login_spec`).
pub fn login_info(json: &Json) -> (r: LoginInfo)
    ensures
        r@ == login_spec(*json),
{
    let null = Json::Null;
    let user: &Json = match json.get("userInfoItem") {
        Some(u) => u,
        None => &null,
    };
    let user_id = match user.get("userId") {
        Some(v) => value_to_text(v),
        None => String::new(),
    };
    if str_is_empty(user_id.as_str()) {
        return migu_logged_out();
    }
    let (is_vip, vip_type, vip_level) = detect_vip(user);
    let nickname = match get_str(user, "nickName") {
        Some(n) => n.clone(),
        None => str_to_string("咪咕用户"),
    };
    let avatar = match get_str(user, "smallIcon") {
        Some(u) => pad_image(u.as_str()),
        None => String::new(),
    };
    LoginInfo {
        provider: str_to_string("migu"),
        logged_in: true,
        user_id,
        nickname,
        avatar,
        vip_type,
        vip_level,
        is_vip,
        is_svip: false,
    }
}

// ───────────────────────── playlists ─────────────────────────

/// A Migu playlist with the defaults of the fields a response does not give.
pub open spec fn plain_playlist(id: Seq<char>, name: Seq<char>, cover: Seq<char>, track_count: u32) -> PlaylistView {
    PlaylistView {
        provider: "migu"@,
        id,
        name,
        cover,
        track_count,
        creator: Seq::empty(),
        subscribed: false,
    }
}

fn make_playlist(id: String, name: String, cover: String, track_count: u32) -> (r: Playlist)
    ensures
        r@ == plain_playlist(id@, name@, cover@, track_count),
{
    Playlist {
        provider: str_to_string("migu"),
        id,
        name,
        cover,
        track_count,
        creator: String::new(),
        subscribed: false,
    }
}

/// An optional image path made absolute, empty where absent.
pub open spec fn opt_image(o: Option<Seq<char>>) -> Seq<char> {
    match o {
        Some(u) => pad_image_spec(u),
        None => Seq::empty(),
    }
}

fn opt_image_exec(o: Option<&String>) -> (r: String)
    ensures
        r@ == opt_image(match o {
            Some(s) => Some(s@),
            None => None,
        }),
{
    match o {
        Some(u) => pad_image(u.as_str()),
        None => String::new(),
    }
}

fn u32_at(v: &Json, key: &str) -> (r: u32)
    ensures
        r == match ou64(get_spec(*v, key@)) {
            Some(u) => u as u32,
            None => 0u32,
        },
{
    match v.get(key) {
        Some(x) => match x.as_u64() {
            Some(u) => #[verifier::truncate] (u as u32),
            None => 0,
        },
        None => 0,
    }
}

/// A playlist found by a search; `None` without an id or a string name.
pub open spec fn search_playlist_spec(m: Json) -> Option<PlaylistView> {
    match (migu_str_spec(get_spec(m, "id"@)), ostr(get_spec(m, "name"@))) {
        (Some(id), Some(name)) => Some(plain_playlist(
            id,
            name,
            opt_image(ostr(get_spec(m, "musicListPicUrl"@))),
            match ou64(get_spec(m, "musicNum"@)) {
                Some(u) => u as u32,
                None => 0u32,
            },
        )),
        _ => None,
    }
}

/// Maps a playlist found by a search (see `search_playlist_spec`).
pub fn search_playlist(m: &Json) -> (r: Option<Playlist>)
    ensures
        match r {
            Some(p) => search_playlist_spec(*m) == Some(p@),
            None => search_playlist_spec(*m) is None,
        },
{
    let id = match json_str(m.get("id")) {
        Some(i) => i,
        None => {
            return None;
        },
    };
    let name = match get_str(m, "name") {
        Some(n) => n.clone(),
        None => {
            return None;
        },
    };
    let cover = opt_image_exec(get_str(m, "musicListPicUrl"));
    let count = u32_at(m, "musicNum");
    Some(make_playlist(id, name, cover, count))
}

/// An artist found by a search; `None` without a non-empty string name.
pub open spec fn search_artist_spec(m: Json) -> Option<ArtistView> {
    match ostr(get_spec(m, "name"@)) {
        Some(name) => if name.len() == 0 {
            None
        } else {
            Some(ArtistView { id: migu_str_spec(get_spec(m, "id"@)), mid: None, name, pic_url: None, music_size: None })
        },
        None => None,
    }
}

/// Maps an artist found by a search (see `search_artist_spec`).
pub fn search_artist(m: &Json) -> (r: Option<Artist>)
    ensures
        match r {
            Some(a) => search_artist_spec(*m) == Some(a@),
            None => search_artist_spec(*m) is None,
        },
{
    match get_str(m, "name") {
        Some(n) => {
            if str_is_empty(n.as_str()) {
                None
            } else {
                Some(Artist { id: json_str(m.get("id")), mid: None, name: n.clone(), pic_url: None, music_size: None })
            }
        },
        None => None,
    }
}

/// The avatar of a singer, looked up in the songs of a search by the singer's
/// name: the picture of the first artist with that id (where one is known) or
/// that name (both trimmed), that has a picture.
pub open spec fn avatar_hit(a: ArtistView, singer_id: Seq<char>, name: Seq<char>) -> bool {
    let id_match = singer_id.len() > 0 && a.id == Some(singer_id);
    let name_match = trim(a.name) == trim(name);
    (id_match || name_match) && a.pic_url is Some
}

/// The artists of a list of songs, song after song.
pub open spec fn all_artists(songs: Seq<SongView>) -> Seq<ArtistView>
    decreases songs.len(),
{
    if songs.len() == 0 {
        Seq::empty()
    } else {
        all_artists(songs.drop_last()) + songs.last().artists
    }
}

/// The first artist that matches, by its picture.
pub open spec fn first_avatar(arts: Seq<ArtistView>, singer_id: Seq<char>, name: Seq<char>) -> Option<Seq<char>>
    decreases arts.len(),
{
    if arts.len() == 0 {
        None
    } else if avatar_hit(arts[0], singer_id, name) {
        arts[0].pic_url
    } else {
        first_avatar(arts.drop_first(), singer_id, name)
    }
}

proof fn lemma_first_avatar_append(a: Seq<ArtistView>, b: Seq<ArtistView>, id: Seq<char>, name: Seq<char>)
    ensures
        first_avatar(a + b, id, name) == match first_avatar(a, id, name) {
            Some(p) => Some(p),
            None => first_avatar(b, id, name),
        },
    decreases a.len(),
{
    if a.len() > 0 {
        assert((a + b).drop_first() =~= a.drop_first() + b);
        lemma_first_avatar_append(a.drop_first(), b, id, name);
    } else {
        assert(a + b =~= b);
    }
}

/// The views of a list of artist references.
pub open spec fn artist_ref_views(v: Seq<&Artist>) -> Seq<ArtistView> {
    v.map_values(|a: &Artist| a@)
}

fn flat_artists<'a>(songs: &'a Vec<Song>) -> (r: Vec<&'a Artist>)
    ensures
        artist_ref_views(r@) == all_artists(song_views(songs@)),
{
    let ghost sv = song_views(songs@);
    let mut out: Vec<&'a Artist> = Vec::new();
    let mut i: usize = 0;
    assert(artist_ref_views(out@) =~= all_artists(sv.subrange(0, 0)));
    while i < songs.len()
        invariant
            i <= songs@.len(),
            sv == song_views(songs@),
            artist_ref_views(out@) == all_artists(sv.subrange(0, i as int)),
        decreases songs.len() - i,
    {
        let ghost pre = sv.subrange(0, i + 1);
        assert(pre.drop_last() =~= sv.subrange(0, i as int));
        let ghost start = artist_ref_views(out@);
        let arts = &songs[i].artists;
        let mut j: usize = 0;
        while j < arts.len()
            invariant
                j <= arts@.len(),
                artist_ref_views(out@) == start + artist_views(arts@).subrange(0, j as int),
            decreases arts.len() - j,
        {
            let a = &arts[j];
            let ghost before = out@;
            out.push(a);
            assert(artist_ref_views(out@) =~= artist_ref_views(before).push(a@));
            j = j + 1;
            assert(start + artist_views(arts@).subrange(0, j as int) =~= (start + artist_views(arts@).subrange(0, j - 1)).push(a@));
        }
        assert(artist_views(arts@).subrange(0, arts@.len() as int) =~= artist_views(arts@));
        assert(pre.last().artists == artist_views(arts@));
        i = i + 1;
    }
    assert(sv.subrange(0, sv.len() as int) =~= sv);
    out
}

/// The avatar of a singer from the songs of a search by its name.
pub fn singer_avatar(songs: &Vec<Song>, singer_id: &str, name: &str) -> (r: Option<String>)
    ensures
        ov(r) == first_avatar(all_artists(song_views(songs@)), singer_id@, name@),
{
    let flat = flat_artists(songs);
    let ghost fv = artist_ref_views(flat@);
    let tn = trim_vec(&chars_of(name));
    let n = flat.len();
    let mut i: usize = 0;
    assert(fv.subrange(0, n as int) =~= fv);
    while i < n
        invariant
            n == flat@.len(),
            i <= n,
            fv == artist_ref_views(flat@),
            fv == all_artists(song_views(songs@)),
            tn@ == trim(name@),
            first_avatar(fv, singer_id@, name@) == first_avatar(fv.subrange(i as int, n as int), singer_id@, name@),
        decreases n - i,
    {
        let ghost sub = fv.subrange(i as int, n as int);
        assert(sub[0] == flat@[i as int]@);
        assert(sub.drop_first() =~= fv.subrange(i + 1, n as int));
        let a = flat[i];
        let id_match = !str_is_empty(singer_id) && match &a.id {
            Some(x) => str_eq(x.as_str(), singer_id),
            None => false,
        };
        let an = trim_vec(&chars_of(a.name.as_str()));
        let name_match = crate::text::vec_eq(&an, &tn);
        match &a.pic_url {
            Some(p) => {
                if id_match || name_match {
                    assert(avatar_hit(sub[0], singer_id@, name@));
                    assert(sub.len() > 0);
                    assert(first_avatar(sub, singer_id@, name@) == sub[0].pic_url);
                    assert(sub[0] == a@);
                    assert(a@.pic_url == Some(p@));
                    let out = p.clone();
                    assert(out@ == p@);
                    return Some(out);
                }
            },
            None => {},
        }
        i = i + 1;
    }
    None
}

/// ASCII-case-insensitive equality (`eq_ignore_ascii_case`).
pub open spec fn eq_ignore_case(a: Seq<char>, b: Seq<char>) -> bool {
    crate::text::ascii_lower_seq(a) == crate::text::ascii_lower_seq(b)
}

/// The separators of an artist text.
pub open spec fn artist_sep() -> Seq<char> {
    seq!['/', ',', '、', ';', '&']
}

/// A song of the artist named `name`: one of its artists, or one part of its
/// artist text, is that name (trimmed, in any ASCII case).
pub open spec fn by_artist(s: SongView, name: Seq<char>) -> bool {
    (exists|i: int| 0 <= i < s.artists.len() && eq_ignore_case(trim(#[trigger] s.artists[i].name), name))
        || (exists|i: int| 0 <= i < split_by(s.artist, artist_sep()).len() && eq_ignore_case(
        trim(#[trigger] split_by(s.artist, artist_sep())[i]),
        name,
    ))
}

/// The songs of a list that are by `name`.
pub open spec fn songs_by(songs: Seq<SongView>, name: Seq<char>) -> Seq<SongView> {
    songs.filter(|s: SongView| by_artist(s, name))
}

fn eq_ignore_case_exec(a: &Vec<char>, b: &Vec<char>) -> (r: bool)
    ensures
        r == eq_ignore_case(a@, b@),
{
    let la = crate::text::ascii_lower_vec(a);
    let lb = crate::text::ascii_lower_vec(b);
    crate::text::vec_eq(&la, &lb)
}

fn song_by_artist(s: &Song, name: &Vec<char>) -> (b: bool)
    ensures
        b == by_artist(s@, name@),
{
    let mut i: usize = 0;
    while i < s.artists.len()
        invariant
            i <= s.artists@.len(),
            forall|j: int| 0 <= j < i ==> !eq_ignore_case(trim(#[trigger] s@.artists[j].name), name@),
        decreases s.artists.len() - i,
    {
        let an = trim_vec(&chars_of(s.artists[i].name.as_str()));
        assert(s@.artists[i as int] == s.artists@[i as int]@);
        if eq_ignore_case_exec(&an, name) {
            assert(eq_ignore_case(trim(s@.artists[i as int].name), name@));
            return true;
        }
        i = i + 1;
    }
    let text = chars_of(s.artist.as_str());
    let mut seps: Vec<char> = Vec::new();
    seps.push('/');
    seps.push(',');
    seps.push('、');
    seps.push(';');
    seps.push('&');
    assert(seps@ =~= artist_sep());
    let parts = split_by_vec(&text, &seps);
    let mut k: usize = 0;
    while k < parts.len()
        invariant
            k <= parts@.len(),
            views(parts@) == split_by(s@.artist, artist_sep()),
            forall|i2: int| 0 <= i2 < s@.artists.len() ==> !eq_ignore_case(trim(#[trigger] s@.artists[i2].name), name@),
            forall|j: int| 0 <= j < k ==> !eq_ignore_case(trim(#[trigger] split_by(s@.artist, artist_sep())[j]), name@),
        decreases parts.len() - k,
    {
        let t = trim_vec(&parts[k]);
        assert(views(parts@)[k as int] == parts@[k as int]@);
        if eq_ignore_case_exec(&t, name) {
            assert(eq_ignore_case(trim(split_by(s@.artist, artist_sep())[k as int]), name@));
            return true;
        }
        k = k + 1;
    }
    false
}

/// The songs of a search that are by the artist named `artist_name`
/// (trimmed); none for a blank name.
pub fn filter_by_artist(songs: Vec<Song>, artist_name: &str) -> (r: Vec<Song>)
    ensures
        song_views(r@) == if trim(artist_name@).len() == 0 {
            Seq::empty()
        } else {
            songs_by(song_views(songs@), trim(artist_name@))
        },
{
    let name = trim_vec(&chars_of(artist_name));
    let mut out: Vec<Song> = Vec::new();
    if name.len() == 0 {
        return out;
    }
    let ghost sv = song_views(songs@);
    let ghost f = |s: SongView| by_artist(s, name@);
    let n = songs.len();
    let mut rest = songs;
    assert(song_views(rest@) =~= sv.subrange(0, n as int));
    let mut i: usize = 0;
    while i < n
        invariant
            n == sv.len(),
            i <= n,
            song_views(rest@) == sv.subrange(i as int, n as int),
            f == (|s: SongView| by_artist(s, name@)),
            song_views(out@) == sv.subrange(0, i as int).filter(f),
        decreases n - i,
    {
        let ghost before_rest = rest@;
        assert(song_views(before_rest).len() == before_rest.len());
        assert(before_rest.len() > 0);
        assert(song_views(before_rest)[0] == before_rest[0]@);
        let s = rest.remove(0);
        assert(s@ == sv[i as int]);
        assert(rest@ =~= before_rest.subrange(1, before_rest.len() as int));
        assert(song_views(rest@) =~= song_views(before_rest).subrange(1, before_rest.len() as int));
        assert(song_views(rest@) =~= sv.subrange(i + 1, n as int));
        let ghost pre = sv.subrange(0, i + 1);
        assert(pre.drop_last() =~= sv.subrange(0, i as int));
        assert(pre.filter(f) == if f(pre.last()) {
            pre.drop_last().filter(f).push(pre.last())
        } else {
            pre.drop_last().filter(f)
        }) by {
            reveal_with_fuel(Seq::filter, 1);
        }
        if song_by_artist(&s, &name) {
            let ghost before = song_views(out@);
            out.push(s);
            assert(song_views(out@) =~= before.push(sv[i as int]));
        }
        i = i + 1;
    }
    assert(sv.subrange(0, n as int) =~= sv);
    out
}

/// The page size of an artist's song search: the limit clamped to 1..=50,
/// at least 30.
pub open spec fn artist_page_size_spec(limit: u32) -> u32 {
    let c = if limit < 1 { 1 } else if limit > 50 { 50 } else { limit };
    if c < 30 { 30 } else { c }
}

/// The page size and page of an artist's song search at `offset`.
pub fn artist_songs_page(limit: u32, offset: u32) -> (r: (u32, u32))
    ensures
        r.0 == artist_page_size_spec(limit),
        r.1 as int == offset as int / artist_page_size_spec(limit) as int + 1,
{
    let c: u32 = if limit < 1 {
        1
    } else if limit > 50 {
        50
    } else {
        limit
    };
    let size: u32 = if c < 30 {
        30
    } else {
        c
    };
    assert(offset / size < 0xFFFF_FFFFu32) by (nonlinear_arith)
        requires
            size >= 30,
    ;
    (size, offset / size + 1)
}

/// The playlist id in an item's action URL: the text after `musicListId=` up
/// to the next `&`, trimmed; `None` where there is none or it is blank.
pub open spec fn music_list_id_spec(url: Seq<char>) -> Option<Seq<char>> {
    let key = "musicListId="@;
    if !crate::text::has_sub(url, key) {
        None
    } else {
        let pos = choose|p: int| crate::text::occurs_at(url, key, p) && forall|q: int| 0 <= q < p ==> !crate::text::occurs_at(url, key, q);
        let rest = url.subrange(pos + key.len(), url.len() as int);
        let end = if rest.contains('&') {
            choose|e: int| 0 <= e < rest.len() && rest[e] == '&' && forall|q: int| 0 <= q < e ==> rest[q] != '&'
        } else {
            rest.len() as int
        };
        let id = trim(rest.subrange(0, end));
        if id.len() == 0 {
            None
        } else {
            Some(id)
        }
    }
}

proof fn lemma_first_unique(url: Seq<char>, key: Seq<char>, p: int, p2: int)
    requires
        crate::text::occurs_at(url, key, p),
        forall|q: int| 0 <= q < p ==> !crate::text::occurs_at(url, key, q),
        crate::text::occurs_at(url, key, p2),
        forall|q: int| 0 <= q < p2 ==> !crate::text::occurs_at(url, key, q),
        0 <= p,
        0 <= p2,
    ensures
        p == p2,
{
}

/// The playlist id in an action URL (see `music_list_id_spec`).
pub fn extract_music_list_id(action_url: &str) -> (r: Option<String>)
    ensures
        ov(r) == music_list_id_spec(action_url@),
{
    let u = chars_of(action_url);
    let key = chars_of("musicListId=");
    match crate::text::find_sub(&u, &key) {
        None => None,
        Some(pos) => {
            proof {
                reveal_strlit("musicListId=");
                let p2 = choose|p: int| crate::text::occurs_at(u@, key@, p) && forall|q: int| 0 <= q < p ==> !crate::text::occurs_at(u@, key@, q);
                assert(crate::text::occurs_at(u@, key@, pos as int));
                assert(crate::text::has_sub(u@, key@));
                if p2 < 0 {
                } else if p2 != pos {
                    lemma_first_unique(u@, key@, pos as int, p2);
                }
            }
            assert(crate::text::occurs_at(u@, key@, pos as int));
            assert(pos + key@.len() <= u@.len());
            let ulen = u.len();
            let klen = key.len();
            assert(pos + klen <= ulen);
            let start = pos + klen;
            let rest = slice_vec(&u, start, u.len());
            let mut end: usize = 0;
            while end < rest.len() && rest[end] != '&'
                invariant
                    end <= rest@.len(),
                    forall|q: int| 0 <= q < end ==> rest@[q] != '&',
                decreases rest.len() - end,
            {
                end = end + 1;
            }
            proof {
                if rest@.contains('&') {
                    let e2 = choose|e: int| 0 <= e < rest@.len() && rest@[e] == '&' && forall|q: int| 0 <= q < e ==> rest@[q] != '&';
                    assert(end < rest@.len());
                    if e2 < end {
                    } else if e2 > end {
                    }
                    assert(e2 == end);
                } else {
                    assert(end == rest@.len());
                }
            }
            let head = slice_vec(&rest, 0, end);
            let id = trim_vec(&head);
            if id.len() == 0 {
                None
            } else {
                Some(string_from_chars(&id))
            }
        },
    }
}

/// The song count of a playlist item: the first of its count fields that
/// holds an unsigned number.
pub open spec fn playlist_count_spec(m: Json) -> u32 {
    count_from(m, seq!["musicNum"@, "musicCount"@, "songNum"@, "num"@, "count"@, "contentCount"@, "trackCount"@])
}

/// The first of `ks` that holds an unsigned number, as a count.
pub open spec fn count_from(m: Json, ks: Seq<Seq<char>>) -> u32
    decreases ks.len(),
{
    if ks.len() == 0 {
        0
    } else {
        match ou64(get_spec(m, ks[0])) {
            Some(u) => u as u32,
            None => count_from(m, ks.drop_first()),
        }
    }
}

/// The song count of a playlist item (see `playlist_count_spec`).
pub fn playlist_count(m: &Json) -> (r: u32)
    ensures
        r == playlist_count_spec(*m),
{
    let keys: [&str; 7] = ["musicNum", "musicCount", "songNum", "num", "count", "contentCount", "trackCount"];
    let ghost kv = key_views(keys@);
    assert(kv =~= seq!["musicNum"@, "musicCount"@, "songNum"@, "num"@, "count"@, "contentCount"@, "trackCount"@]);
    let mut i: usize = 0;
    assert(kv.subrange(0, 7) =~= kv);
    while i < 7
        invariant
            i <= 7,
            keys@.len() == 7,
            kv == key_views(keys@),
            kv == seq!["musicNum"@, "musicCount"@, "songNum"@, "num"@, "count"@, "contentCount"@, "trackCount"@],
            count_from(*m, kv) == count_from(*m, kv.subrange(i as int, 7)),
        decreases 7 - i,
    {
        let ghost sub = kv.subrange(i as int, 7);
        assert(sub[0] == keys@[i as int]@);
        assert(sub.drop_first() =~= kv.subrange(i + 1, 7));
        match m.get(keys[i]) {
            Some(v) => match v.as_u64() {
                Some(u) => {
                    return #[verifier::truncate] (u as u32);
                },
                None => {},
            },
            None => {},
        }
        i = i + 1;
    }
    0
}

/// An official playlist of the user's home page; `None` where its action
/// URL names no playlist.
pub open spec fn private_item_spec(m: Json) -> Option<PlaylistView> {
    match music_list_id_spec(text_or(ostr(get_spec(m, "actionUrl"@)), Seq::empty())) {
        Some(id) => Some(plain_playlist(
            id,
            text_or(ostr(get_spec(m, "title"@)), "官方歌单"@),
            opt_image(ostr(get_spec(m, "picUrl"@))),
            playlist_count_spec(m),
        )),
        None => None,
    }
}

/// The id of a collected or created playlist, as text; `None` where absent or empty.
pub open spec fn list_id_spec(m: Json) -> Option<Seq<char>> {
    match get_spec(m, "musicListId"@) {
        Some(v) => if value_text(v).len() > 0 { Some(value_text(v)) } else { None },
        None => None,
    }
}

/// A collected (resource type `2021`) or created playlist of the home page.
pub open spec fn listed_item_spec(m: Json, collected: bool) -> Option<PlaylistView> {
    if collected && ostr(get_spec(m, "resourceType"@)) != Some("2021"@) {
        None
    } else {
        match list_id_spec(m) {
            Some(id) => Some(plain_playlist(
                id,
                text_or(ostr(get_spec(m, "title"@)), if collected { "收藏歌单"@ } else { "创建歌单"@ }),
                opt_image(ostr(oget(get_spec(m, "imgItem"@), "img"@))),
                playlist_count_spec(m),
            )),
            None => None,
        }
    }
}

/// The playlists of one section of the home page, in order: 0 official,
/// 1 collected, 2 created.
pub open spec fn section_spec(items: Seq<Json>, kind: int) -> Seq<PlaylistView>
    decreases items.len(),
{
    if items.len() == 0 {
        Seq::empty()
    } else {
        let prev = section_spec(items.drop_last(), kind);
        let p = if kind == 0 {
            private_item_spec(items.last())
        } else {
            listed_item_spec(items.last(), kind == 1)
        };
        match p {
            Some(x) => prev.push(x),
            None => prev,
        }
    }
}

/// An optional list, empty where absent.
pub open spec fn list_or_empty(o: Option<Seq<Json>>) -> Seq<Json> {
    match o {
        Some(a) => a,
        None => Seq::empty(),
    }
}

/// The user's playlists of a home page answer: the official ones, then the
/// collected ones, then the created ones.
pub open spec fn user_playlists_spec(json: Json) -> Seq<PlaylistView> {
    let data = or_json(get_spec(json, "data"@), Json::Null);
    section_spec(list_or_empty(oarr(get_spec(data, "userPrivateItems"@))), 0) + section_spec(
        list_or_empty(oarr(oget(get_spec(data, "myCollectedMusicLists"@), "collectMusicLists"@))),
        1,
    ) + section_spec(list_or_empty(oarr(oget(get_spec(data, "myCreatedMusicLists"@), "createdMusicLists"@))), 2)
}

fn section_item(m: &Json, kind: u8) -> (r: Option<Playlist>)
    requires
        kind <= 2,
    ensures
        match r {
            Some(p) => Some(p@) == if kind == 0 { private_item_spec(*m) } else { listed_item_spec(*m, kind == 1) },
            None => (if kind == 0 { private_item_spec(*m) } else { listed_item_spec(*m, kind == 1) }) is None,
        },
{
    proof {
        reveal_strlit("");
        assert(""@ =~= Seq::<char>::empty());
    }
    if kind == 0 {
        let url = match get_str(m, "actionUrl") {
            Some(u) => u.clone(),
            None => String::new(),
        };
        let id = match extract_music_list_id(url.as_str()) {
            Some(i) => i,
            None => {
                return None;
            },
        };
        let name = match get_str(m, "title") {
            Some(t) => t.clone(),
            None => str_to_string("官方歌单"),
        };
        let cover = opt_image_exec(get_str(m, "picUrl"));
        return Some(make_playlist(id, name, cover, playlist_count(m)));
    }
    if kind == 1 {
        let is_2021 = match get_str(m, "resourceType") {
            Some(t) => str_eq(t.as_str(), "2021"),
            None => false,
        };
        if !is_2021 {
            return None;
        }
    }
    let id = match m.get("musicListId") {
        Some(v) => value_to_text(v),
        None => {
            return None;
        },
    };
    if str_is_empty(id.as_str()) {
        return None;
    }
    let name = match get_str(m, "title") {
        Some(t) => t.clone(),
        None => if kind == 1 {
            str_to_string("收藏歌单")
        } else {
            str_to_string("创建歌单")
        },
    };
    let img: Option<&String> = match m.get("imgItem") {
        Some(i) => get_str(i, "img"),
        None => None,
    };
    let cover = opt_image_exec(img);
    Some(make_playlist(id, name, cover, playlist_count(m)))
}

fn push_section(out: &mut Vec<Playlist>, items: Option<&Vec<Json>>, kind: u8)
    requires
        kind <= 2,
    ensures
        playlist_views(final(out)@) == playlist_views(old(out)@) + section_spec(
            match items {
                Some(a) => a@,
                None => Seq::empty(),
            },
            kind as int,
        ),
{
    let ghost start = playlist_views(out@);
    match items {
        Some(a) => {
            let mut i: usize = 0;
            while i < a.len()
                invariant
                    i <= a@.len(),
                    kind <= 2,
                    playlist_views(out@) == start + section_spec(a@.subrange(0, i as int), kind as int),
                decreases a.len() - i,
            {
                let ghost pre = a@.subrange(0, i + 1);
                assert(pre.drop_last() =~= a@.subrange(0, i as int));
                match section_item(&a[i], kind) {
                    Some(p) => {
                        let ghost before = playlist_views(out@);
                        out.push(p);
                        assert(playlist_views(out@) =~= before.push(p@));
                        assert(start + section_spec(pre, kind as int) =~= (start + section_spec(
                            a@.subrange(0, i as int),
                            kind as int,
                        )).push(p@));
                    },
                    None => {},
                }
                i = i + 1;
            }
            assert(a@.subrange(0, a@.len() as int) =~= a@);
        },
        None => {
            assert(start + section_spec(Seq::empty(), kind as int) =~= start);
        },
    }
}

/// The user's playlists of a home page answer (see `user_playlists_spec`).
pub fn user_playlists(json: &Json) -> (r: Vec<Playlist>)
    ensures
        playlist_views(r@) == user_playlists_spec(*json),
{
    let null = Json::Null;
    let data: &Json = match json.get("data") {
        Some(d) => d,
        None => &null,
    };
    let mut out: Vec<Playlist> = Vec::new();
    push_section(&mut out, arr_at(data, "userPrivateItems"), 0);
    let collected: Option<&Vec<Json>> = match data.get("myCollectedMusicLists") {
        Some(c) => arr_at(c, "collectMusicLists"),
        None => None,
    };
    push_section(&mut out, collected, 1);
    let created: Option<&Vec<Json>> = match data.get("myCreatedMusicLists") {
        Some(c) => arr_at(c, "createdMusicLists"),
        None => None,
    };
    push_section(&mut out, created, 2);
    assert(playlist_views(out@) =~= user_playlists_spec(*json));
    out
}

/// The summary of a playlist answer for the playlist `id`.
pub open spec fn playlist_info_spec(json: Json, id: Seq<char>) -> PlaylistView {
    let data = or_json(get_spec(json, "data"@), Json::Null);
    plain_playlist(
        text_or(ostr(get_spec(data, "musicListId"@)), id),
        text_or(ostr(get_spec(data, "title"@)), "咪咕歌单"@),
        opt_image(ostr(oget(get_spec(data, "imgItem"@), "img"@))),
        match ou64(get_spec(data, "musicNum"@)) {
            Some(u) => u as u32,
            None => 0u32,
        },
    )
}

/// The summary of a playlist answer (see `playlist_info_spec`).
pub fn playlist_info(json: &Json, id: &str) -> (r: Playlist)
    ensures
        r@ == playlist_info_spec(*json, id@),
{
    let null = Json::Null;
    let data: &Json = match json.get("data") {
        Some(d) => d,
        None => &null,
    };
    let pid = match get_str(data, "musicListId") {
        Some(s) => s.clone(),
        None => str_to_string(id),
    };
    let name = match get_str(data, "title") {
        Some(t) => t.clone(),
        None => str_to_string("咪咕歌单"),
    };
    let img: Option<&String> = match data.get("imgItem") {
        Some(i) => get_str(i, "img"),
        None => None,
    };
    let cover = opt_image_exec(img);
    make_playlist(pid, name, cover, u32_at(data, "musicNum"))
}

/// The playlists found by a search.
pub open spec fn search_playlists_spec(items: Seq<Json>) -> Seq<PlaylistView>
    decreases items.len(),
{
    if items.len() == 0 {
        Seq::empty()
    } else {
        let prev = search_playlists_spec(items.drop_last());
        match search_playlist_spec(items.last()) {
            Some(p) => prev.push(p),
            None => prev,
        }
    }
}

/// The playlists of a `search_all` answer (`songListResultData.result`).
pub fn playlist_search(json: &Json) -> (r: Vec<Playlist>)
    ensures
        playlist_views(r@) == search_playlists_spec(list_or_empty(oarr(oget(get_spec(*json, "songListResultData"@), "result"@)))),
{
    let empty: Vec<Json> = Vec::new();
    let list: &Vec<Json> = match json.get("songListResultData") {
        Some(d) => match arr_at(d, "result") {
            Some(a) => a,
            None => &empty,
        },
        None => &empty,
    };
    let mut out: Vec<Playlist> = Vec::new();
    let mut i: usize = 0;
    while i < list.len()
        invariant
            i <= list@.len(),
            playlist_views(out@) == search_playlists_spec(list@.subrange(0, i as int)),
        decreases list.len() - i,
    {
        let ghost pre = list@.subrange(0, i + 1);
        assert(pre.drop_last() =~= list@.subrange(0, i as int));
        match search_playlist(&list[i]) {
            Some(p) => {
                let ghost before = playlist_views(out@);
                out.push(p);
                assert(playlist_views(out@) =~= before.push(p@));
            },
            None => {},
        }
        i = i + 1;
    }
    assert(list@.subrange(0, list@.len() as int) =~= list@);
    out
}

/// The artists found by a search.
pub open spec fn search_artists_spec(items: Seq<Json>) -> Seq<ArtistView>
    decreases items.len(),
{
    if items.len() == 0 {
        Seq::empty()
    } else {
        let prev = search_artists_spec(items.drop_last());
        match search_artist_spec(items.last()) {
            Some(a) => prev.push(a),
            None => prev,
        }
    }
}

/// The artists of a `search_all` answer (`singerResultData.result`), before
/// their avatars are looked up.
pub fn artist_search(json: &Json) -> (r: Vec<Artist>)
    ensures
        artist_views(r@) == search_artists_spec(list_or_empty(oarr(oget(get_spec(*json, "singerResultData"@), "result"@)))),
{
    let empty: Vec<Json> = Vec::new();
    let list: &Vec<Json> = match json.get("singerResultData") {
        Some(d) => match arr_at(d, "result") {
            Some(a) => a,
            None => &empty,
        },
        None => &empty,
    };
    let mut out: Vec<Artist> = Vec::new();
    let mut i: usize = 0;
    while i < list.len()
        invariant
            i <= list@.len(),
            artist_views(out@) == search_artists_spec(list@.subrange(0, i as int)),
        decreases list.len() - i,
    {
        let ghost pre = list@.subrange(0, i + 1);
        assert(pre.drop_last() =~= list@.subrange(0, i as int));
        match search_artist(&list[i]) {
            Some(a) => {
                let ghost before = artist_views(out@);
                out.push(a);
                assert(artist_views(out@) =~= before.push(a@));
            },
            None => {},
        }
        i = i + 1;
    }
    assert(list@.subrange(0, list@.len() as int) =~= list@);
    out
}

// ───────────────────────── paging ─────────────────────────

/// The songs of one page of a playlist.
pub const PAGE_SIZE: usize = 30;

/// The most pages read of one playlist.
pub const MAX_PAGES: u32 = 17;

/// Whether a whole-playlist read goes on after page `page` gave `chunk_len`
/// songs: only after a full page, and not past the last page read.
pub fn migu_more_pages(page: u32, chunk_len: usize) -> (b: bool)
    ensures
        b == (chunk_len >= PAGE_SIZE && page < MAX_PAGES),
{
    chunk_len >= PAGE_SIZE && page < MAX_PAGES
}

/// The page (from 1) that holds song `i`, as the page counter wraps.
pub open spec fn page_of(i: int) -> u32 {
    ((((i / 30) as u32) as int + 1) % 0x1_0000_0000) as u32
}

/// The first and last page that hold songs `start .. start + count`; `None`
/// for an empty range.
pub fn migu_range_pages(start: usize, count: usize) -> (r: Option<(u32, u32)>)
    requires
        start + count <= usize::MAX,
    ensures
        count == 0 <==> r is None,
        count > 0 ==> r == Some((page_of(start as int), page_of(start + count - 1))),
{
    if count == 0 {
        return None;
    }
    let first: u32 = (#[verifier::truncate] ((start / 30) as u32)).wrapping_add(1);
    let last: u32 = (#[verifier::truncate] (((start + count - 1) / 30) as u32)).wrapping_add(1);
    Some((first, last))
}

/// What a ranged read gives back of the songs it gathered from the page that
/// holds song `start` on: the playlist's songs `start .. start + count`, which
/// begin `start % 30` songs into that first page, cut to what there is.
pub open spec fn range_slice_spec<A>(songs: Seq<A>, start: int, count: int) -> Seq<A> {
    let off = start % 30;
    let b = if off < songs.len() { off } else { songs.len() as int };
    let e = if off + count < songs.len() { off + count } else { songs.len() as int };
    songs.subrange(b, e)
}

/// The playlist's songs `start .. start + count`, out of the songs gathered
/// from the first page that holds song `start` on.
pub fn migu_range_slice(songs: Vec<Song>, start: usize, count: usize) -> (r: Vec<Song>)
    requires
        start + count <= usize::MAX,
    ensures
        song_views(r@) == range_slice_spec(song_views(songs@), start as int, count as int),
{
    let n = songs.len();
    let off = start % 30;
    assert(off <= start);
    let b = if off < n {
        off
    } else {
        n
    };
    let e = if off + count < n {
        off + count
    } else {
        n
    };
    let ghost sv = song_views(songs@);
    let mut rest = songs;
    let mut out: Vec<Song> = Vec::new();
    let mut i: usize = 0;
    while i < n
        invariant
            n == sv.len(),
            i <= n,
            b <= e <= n,
            song_views(rest@) == sv.subrange(i as int, n as int),
            song_views(out@) == sv.subrange(
                if i < b { b as int } else { b as int },
                if i < b { b as int } else if i < e { i as int } else { e as int },
            ),
        decreases n - i,
    {
        let ghost before_rest = rest@;
        assert(song_views(before_rest).len() == before_rest.len());
        assert(song_views(before_rest)[0] == before_rest[0]@);
        let s = rest.remove(0);
        assert(rest@ =~= before_rest.subrange(1, before_rest.len() as int));
        assert(song_views(rest@) =~= song_views(before_rest).subrange(1, before_rest.len() as int));
        assert(song_views(rest@) =~= sv.subrange(i + 1, n as int));
        if b <= i && i < e {
            let ghost before = song_views(out@);
            out.push(s);
            assert(song_views(out@) =~= before.push(sv[i as int]));
            assert(song_views(out@) =~= sv.subrange(b as int, i + 1));
        }
        i = i + 1;
    }
    out
}

// ───────────────────────── playback ─────────────────────────

/// The key of the playback answer's byte shift: the ASCII bytes of
/// `Jk8qzuePiJ1qE3mDYhLQ3T73DtDoAhLP`.
pub open spec fn listen_key() -> Seq<u8> {
    seq![74u8, 107u8, 56u8, 113u8, 122u8, 117u8, 101u8, 80u8, 105u8, 74u8, 49u8, 113u8, 69u8, 51u8, 109u8, 68u8, 89u8, 104u8, 76u8, 81u8, 51u8, 84u8, 55u8, 51u8, 68u8, 116u8, 68u8, 111u8, 65u8, 104u8, 76u8, 80u8]
}

fn listen_key_exec() -> (r: Vec<u8>)
    ensures
        r@ == listen_key(),
{
    let r: Vec<u8> = vec![74u8, 107u8, 56u8, 113u8, 122u8, 117u8, 101u8, 80u8, 105u8, 74u8, 49u8, 113u8, 69u8, 51u8, 109u8, 68u8, 89u8, 104u8, 76u8, 81u8, 51u8, 84u8, 55u8, 51u8, 68u8, 116u8, 68u8, 111u8, 65u8, 104u8, 76u8, 80u8];
    assert(r@ =~= listen_key());
    r
}

fn shift_byte(b: u8, offset: u8, k: u8) -> (r: u8)
    ensures
        r as int == (b as int + offset as int - k as int) % 256,
{
    let r = b.wrapping_add(offset).wrapping_sub(k);
    proof {
        let x = b as int;
        let y = offset as int;
        let z = k as int;
        vstd::arithmetic::div_mod::lemma_add_mod_noop(x + y, -z, 256);
        vstd::arithmetic::div_mod::lemma_mod_twice(x + y, 256);
        vstd::arithmetic::div_mod::lemma_add_mod_noop((x + y) % 256, -z, 256);
    }
    r
}

/// A decoded playback answer: each byte after the fourth, shifted up by the
/// fourth byte and down by the key, wrapping; byte `s` of the answer takes key
/// byte `s % 31`.
pub open spec fn decode_spec(body: Seq<u8>) -> Seq<u8> {
    Seq::new((body.len() - 4) as nat, |s: int| ((body[s + 4] as int + body[3] as int - listen_key()[(s % 31) as int] as int) % 256) as u8)
}

/// Decodes a playback answer's bytes; an error for a body of four bytes or fewer.
pub fn decode_listen_body(body: &Vec<u8>) -> (r: Result<Vec<u8>, String>)
    ensures
        body@.len() <= 4 <==> r is Err,
        r is Err ==> r->Err_0@ == "Migu listen body too short"@,
        r is Ok ==> r->Ok_0@ == decode_spec(body@),
{
    if body.len() <= 4 {
        return Err(str_to_string("Migu listen body too short"));
    }
    let key: Vec<u8> = listen_key_exec();
    let offset = body[3];
    let mut out: Vec<u8> = Vec::new();
    let mut s: usize = 0;
    let blen = body.len();
    let n = blen - 4;
    while s < n
        invariant
            blen == body@.len(),
            n == blen - 4,
            body@.len() > 4,
            s + 4 <= body@.len(),
            key@ == listen_key(),
            key@.len() == 32,
            offset == body@[3],
            out@ == decode_spec(body@).subrange(0, s as int),
        decreases body@.len() - s,
    {
        let k = key[s % 31];
        let b = shift_byte(body[s + 4], offset, k);
        out.push(b);
        s = s + 1;
        assert(out@ =~= decode_spec(body@).subrange(0, s as int));
    }
    assert(decode_spec(body@).subrange(0, s as int) =~= decode_spec(body@));
    Ok(out)
}

/// The text of a playback answer: its decoded bytes read as UTF-8, bad
/// sequences replaced; an error for a body of four bytes or fewer.
pub fn decode_listen_text(body: &Vec<u8>) -> (r: Result<String, String>)
    ensures
        body@.len() <= 4 <==> r is Err,
        r is Err ==> r->Err_0@ == "Migu listen body too short"@,
        r is Ok ==> r->Ok_0@ == crate::optimization::spec_utf8_lossy(decode_spec(body@)),
{
    match decode_listen_body(body) {
        Ok(bytes) => Ok(crate::optimization::utf8_lossy(&bytes)),
        Err(e) => Err(e),
    }
}

/// The number of UTF-8 bytes of a text.
pub open spec fn utf8_bytes(s: Seq<char>) -> nat
    decreases s.len(),
{
    if s.len() == 0 {
        0
    } else {
        utf8_bytes(s.drop_last()) + crate::music_api::qishui::utf8_len(s.last())
    }
}

/// The longest start of a text that fits in `limit` UTF-8 bytes.
pub open spec fn cut_to_bytes(s: Seq<char>, limit: int) -> Seq<char>
    decreases s.len(),
{
    if s.len() == 0 || crate::music_api::qishui::utf8_len(s[0]) > limit {
        Seq::empty()
    } else {
        seq![s[0]] + cut_to_bytes(s.drop_first(), limit - crate::music_api::qishui::utf8_len(s[0]))
    }
}

/// The first `limit` bytes of the text end on a character: the text is no
/// longer, or a start of it is exactly that long.
pub open spec fn cut_on_char(s: Seq<char>, limit: int) -> bool {
    utf8_bytes(s) <= limit || utf8_bytes(cut_to_bytes(s, limit)) == limit
}

/// The message when a decoded playback answer is no JSON: the parser's
/// error and the first 120 bytes of the text.
pub open spec fn listen_parse_error_spec(err: Seq<char>, text: Seq<char>) -> Seq<char> {
    "Migu decode listen body failed: "@ + err + ", text: "@ + cut_to_bytes(text, 120)
}

fn char_utf8_len(c: char) -> (n: u64)
    ensures
        n == crate::music_api::qishui::utf8_len(c),
{
    let u = c as u32;
    if u < 0x80 {
        1
    } else if u < 0x800 {
        2
    } else if u < 0x10000 {
        3
    } else {
        4
    }
}

/// The message when a decoded playback answer is no JSON (see
/// `listen_parse_error_spec`); the text is cut at 120 bytes, which must fall
/// between two characters.
pub fn listen_parse_error(err: &str, text: &str) -> (r: String)
    requires
        cut_on_char(text@, 120),
    ensures
        r@ == listen_parse_error_spec(err@, text@),
{
    let v = chars_of(text);
    let mut out = chars_of("Migu decode listen body failed: ");
    append_str(&mut out, err);
    append_str(&mut out, ", text: ");
    let ghost head = out@;
    let mut i: usize = 0;
    let mut left: u64 = 120;
    assert(v@.subrange(0, 0) + cut_to_bytes(v@.subrange(0, v@.len() as int), 120) =~= cut_to_bytes(v@, 120)) by {
        assert(v@.subrange(0, v@.len() as int) =~= v@);
    }
    while i < v.len() && char_utf8_len(v[i]) <= left
        invariant
            v@ == text@,
            i <= v@.len(),
            left <= 120,
            out@ == head + v@.subrange(0, i as int),
            v@.subrange(0, i as int) + cut_to_bytes(v@.subrange(i as int, v@.len() as int), left as int) == cut_to_bytes(v@, 120),
        decreases v@.len() - i,
    {
        let n = char_utf8_len(v[i]);
        let ghost rest = v@.subrange(i as int, v@.len() as int);
        assert(rest[0] == v@[i as int]);
        assert(rest.drop_first() =~= v@.subrange(i + 1, v@.len() as int));
        assert(v@.subrange(0, i as int) + seq![v@[i as int]] =~= v@.subrange(0, i + 1));
        out.push(v[i]);
        left = left - n;
        i = i + 1;
        assert(v@.subrange(0, i as int) + cut_to_bytes(v@.subrange(i as int, v@.len() as int), left as int) =~= cut_to_bytes(v@, 120));
    }
    proof {
        let rest = v@.subrange(i as int, v@.len() as int);
        if i < v@.len() {
            assert(rest[0] == v@[i as int]);
        }
        assert(cut_to_bytes(rest, left as int) =~= Seq::<char>::empty());
        assert(v@.subrange(0, i as int) =~= cut_to_bytes(v@, 120));
        assert(out@ =~= listen_parse_error_spec(err@, text@));
    }
    string_from_chars(&out)
}

/// What one playback request gives.
pub struct ListenData {
    pub url: String,
    pub lrc_url: String,
    pub tone_flag: String,
}

/// `s` with its first `http://` made `https://`.
pub open spec fn secure_first(s: Seq<char>) -> Seq<char> {
    let k = "http://"@;
    if !crate::text::has_sub(s, k) {
        s
    } else {
        let p = choose|p: int| crate::text::occurs_at(s, k, p) && forall|q: int| 0 <= q < p ==> !crate::text::occurs_at(s, k, q);
        s.subrange(0, p) + "https://"@ + s.subrange(p + 7, s.len() as int)
    }
}

fn secure_first_exec(s: &str) -> (r: String)
    ensures
        r@ == secure_first(s@),
{
    let v = chars_of(s);
    let k = chars_of("http://");
    proof {
        reveal_strlit("http://");
    }
    match crate::text::find_sub(&v, &k) {
        None => str_to_string(s),
        Some(p) => {
            proof {
                let p2 = choose|p: int| crate::text::occurs_at(v@, k@, p) && forall|q: int| 0 <= q < p ==> !crate::text::occurs_at(v@, k@, q);
                assert(crate::text::occurs_at(v@, k@, p as int));
                if p2 != p {
                    lemma_first_unique(v@, k@, p as int, p2);
                }
            }
            assert(p + 7 <= v@.len());
            let vlen = v.len();
            let mut out = slice_vec(&v, 0, p);
            append_str(&mut out, "https://");
            let tail = slice_vec(&v, p + 7, vlen);
            append_vec(&mut out, &tail);
            string_from_chars(&out)
        },
    }
}

/// What a decoded playback answer gives: the stream (made `https`), the
/// lyric URL and the tone flag asked for; an error `MiguUrlBlocked:<code>`
/// without a stream.
pub fn listen_data(json: &Json, tone_flag: &str) -> (r: Result<ListenData, String>)
    ensures
        ({
            let data = or_json(get_spec(*json, "data"@), Json::Null);
            let code = text_or(ostr(get_spec(data, "cannotCode"@)), Seq::empty());
            let url = text_or(ostr(get_spec(data, "url"@)), Seq::empty());
            if url.len() == 0 {
                r is Err && r->Err_0@ == "MiguUrlBlocked:"@ + if code.len() == 0 { "empty_url"@ } else { code }
            } else {
                r is Ok && r->Ok_0.url@ == secure_first(url) && r->Ok_0.lrc_url@ == text_or(
                    ostr(get_spec(data, "lrcUrl"@)),
                    Seq::empty(),
                ) && r->Ok_0.tone_flag@ == tone_flag@
            }
        }),
{
    proof {
        reveal_strlit("");
        assert(""@ =~= Seq::<char>::empty());
    }
    let null = Json::Null;
    let data: &Json = match json.get("data") {
        Some(d) => d,
        None => &null,
    };
    let code = match get_str(data, "cannotCode") {
        Some(c) => c.clone(),
        None => String::new(),
    };
    let url = match get_str(data, "url") {
        Some(u) => u.clone(),
        None => String::new(),
    };
    if str_is_empty(url.as_str()) {
        let c = if str_is_empty(code.as_str()) {
            str_to_string("empty_url")
        } else {
            code
        };
        return Err(crate::text::concat2("MiguUrlBlocked:", c.as_str()));
    }
    let lrc = match get_str(data, "lrcUrl") {
        Some(u) => u.clone(),
        None => String::new(),
    };
    Ok(ListenData { url: secure_first_exec(url.as_str()), lrc_url: lrc, tone_flag: str_to_string(tone_flag) })
}

/// Whether a failed playback request is worth retrying at another quality:
/// only when Migu refused the stream.
pub fn migu_should_retry(err: &str) -> (b: bool)
    ensures
        b == crate::text::has_sub(err@, "MiguUrlBlocked"@),
{
    crate::text::contains_sub(&chars_of(err), &chars_of("MiguUrlBlocked"))
}

/// The answer for a stream found at `data.tone_flag` when `target` was
/// wanted: playable at that level, with a note of the lower quality where it
/// differs.
pub open spec fn found_view(data: ListenData, target: Seq<char>) -> SongUrlView {
    SongUrlView {
        url: Some(data.url@),
        playable: true,
        trial: false,
        level: data.tone_flag@,
        quality: quality_label_spec(data.tone_flag@),
        br: 0,
        reason: None,
        message: if data.tone_flag@ != target {
            Some("已降级为 "@ + data.tone_flag@ + " 音质"@)
        } else {
            None
        },
        fee: None,
    }
}

/// The answer when every tone flag was refused: not playable, with the last
/// refusal as the reason.
pub open spec fn refused_view(target: Seq<char>, last_err: Seq<char>) -> SongUrlView {
    SongUrlView {
        url: None,
        playable: false,
        trial: false,
        level: target,
        quality: quality_label_spec(target),
        br: 0,
        reason: Some(last_err),
        message: Some("无版权或需要咪咕 VIP"@),
        fee: Some(1i32),
    }
}

/// The answer for a stream found at tone flag `data.tone_flag` when `target`
/// was wanted: a note of the lower quality where it differs.
pub fn migu_song_url_found(data: ListenData, target: &str) -> (r: SongUrlResult)
    ensures
        r@ == found_view(data, target@),
{
    let quality = str_to_string(quality_for_tone_flag(data.tone_flag.as_str()));
    let message = if !str_eq(data.tone_flag.as_str(), target) {
        Some(crate::text::concat3("已降级为 ", data.tone_flag.as_str(), " 音质"))
    } else {
        None
    };
    SongUrlResult {
        url: Some(data.url),
        playable: true,
        trial: false,
        level: data.tone_flag,
        quality,
        br: 0,
        reason: None,
        message,
        fee: None,
    }
}

/// The answer when every tone flag was refused: not playable, with the last
/// refusal as the reason.
pub fn migu_song_url_refused(target: &str, last_err: String) -> (r: SongUrlResult)
    ensures
        r@ == refused_view(target@, last_err@),
{
    SongUrlResult {
        url: None,
        playable: false,
        trial: false,
        level: str_to_string(target),
        quality: str_to_string(quality_for_tone_flag(target)),
        br: 0,
        reason: Some(last_err),
        message: Some(str_to_string("无版权或需要咪咕 VIP")),
        fee: Some(1),
    }
}

/// What finding a song's stream does next.
pub enum SongUrlStep {
    /// Ask for the stream at this tone flag.
    Try(&'static str),
    /// The answer.
    Done(Result<SongUrlResult, String>),
}

/// An outcome that ends the search: a stream, or an error other than a
/// refusal of the stream.
pub open spec fn decisive(o: Result<ListenData, String>) -> bool {
    match o {
        Ok(_) => true,
        Err(e) => !crate::text::has_sub(e@, "MiguUrlBlocked"@),
    }
}

/// The first decisive outcome from `k` on, or the number of outcomes.
pub open spec fn first_decisive(outs: Seq<Result<ListenData, String>>, k: int) -> int
    decreases outs.len() - k,
{
    if k >= outs.len() {
        outs.len() as int
    } else if decisive(outs[k]) {
        k
    } else {
        first_decisive(outs, k + 1)
    }
}

/// The step after the requests so far, `outs[k]` being the outcome at the
/// `k`-th tone flag to try: the first stream found is the answer, the first
/// error other than a refusal is returned as it is; after refusals the next
/// flag is tried, and when all were refused the answer says so, with the last
/// refusal.
pub open spec fn song_url_step_spec(quality: Seq<char>, outs: Seq<Result<ListenData, String>>, r: SongUrlStep) -> bool {
    let k = first_decisive(outs, 0);
    let flags = try_flags_spec(quality);
    let t = tone_flag_spec(quality);
    if k < outs.len() {
        match outs[k] {
            Ok(d) => r matches SongUrlStep::Done(Ok(res)) && res@ == found_view(d, t),
            Err(e) => r matches SongUrlStep::Done(Err(x)) && x@ == e@,
        }
    } else if k < flags.len() {
        r matches SongUrlStep::Try(f) && f@ == flags[k]
    } else {
        r matches SongUrlStep::Done(Ok(res)) && res@ == refused_view(t, outs[k - 1]->Err_0@)
    }
}

proof fn lemma_first_decisive_skip(outs: Seq<Result<ListenData, String>>, k: int)
    requires
        0 <= k <= outs.len(),
        forall|j: int| 0 <= j < k ==> !decisive(#[trigger] outs[j]),
    ensures
        first_decisive(outs, 0) == first_decisive(outs, k),
    decreases k,
{
    if k > 0 {
        lemma_first_decisive_skip(outs, k - 1);
    }
}

/// The next step of finding a song's stream at `quality` (see
/// `song_url_step_spec`), given the outcomes of the requests made so far in
/// the order of `try_flags`.
pub fn migu_song_url_step(quality: &str, outcomes: Vec<Result<ListenData, String>>) -> (r: SongUrlStep)
    requires
        outcomes@.len() <= try_flags_spec(quality@).len(),
    ensures
        song_url_step_spec(quality@, outcomes@, r),
{
    let flags = try_flags(quality);
    let target = tone_flag_for(quality);
    let ghost outs = outcomes@;
    let mut outcomes = outcomes;
    let mut k: usize = 0;
    while k < outcomes.len()
        invariant
            outcomes@ == outs,
            k <= outs.len(),
            forall|j: int| 0 <= j < k ==> !decisive(#[trigger] outs[j]),
        ensures
            k <= outs.len(),
            forall|j: int| 0 <= j < k ==> !decisive(#[trigger] outs[j]),
            k < outs.len() ==> decisive(outs[k as int]),
        decreases outs.len() - k,
    {
        let stop = match &outcomes[k] {
            Ok(_) => true,
            Err(e) => !migu_should_retry(e.as_str()),
        };
        if stop {
            break;
        }
        k = k + 1;
    }
    proof {
        lemma_first_decisive_skip(outs, k as int);
    }
    if k < outcomes.len() {
        match outcomes.remove(k) {
            Ok(d) => SongUrlStep::Done(Ok(migu_song_url_found(d, target))),
            Err(e) => SongUrlStep::Done(Err(e)),
        }
    } else if k < flags.len() {
        assert(key_views(flags@)[k as int] == flags@[k as int]@);
        SongUrlStep::Try(flags[k])
    } else {
        let last = match outcomes.remove(k - 1) {
            Err(e) => e,
            Ok(_) => String::new(),
        };
        SongUrlStep::Done(Ok(migu_song_url_refused(target, last)))
    }
}

// ───────────────────────── charts and recommendations ─────────────────────────

/// The songs of a chart answer: each content's `objectInfo` that maps.
pub open spec fn rank_songs_spec(contents: Seq<Json>) -> Seq<SongView>
    decreases contents.len(),
{
    if contents.len() == 0 {
        Seq::empty()
    } else {
        let prev = rank_songs_spec(contents.drop_last());
        match get_spec(contents.last(), "objectInfo"@) {
            Some(o) => match song3_spec(o) {
                Some(s) => prev.push(s),
                None => prev,
            },
            None => prev,
        }
    }
}

/// The songs of a chart answer (`data.columnInfo.contents`).
pub fn rank_songs(json: &Json) -> (r: Vec<Song>)
    ensures
        song_views(r@) == rank_songs_spec(list_or_empty(oarr(oget(oget(get_spec(*json, "data"@), "columnInfo"@), "contents"@)))),
{
    let empty: Vec<Json> = Vec::new();
    let contents: &Vec<Json> = match json.get("data") {
        Some(d) => match d.get("columnInfo") {
            Some(c) => match arr_at(c, "contents") {
                Some(a) => a,
                None => &empty,
            },
            None => &empty,
        },
        None => &empty,
    };
    let mut out: Vec<Song> = Vec::new();
    let mut i: usize = 0;
    while i < contents.len()
        invariant
            i <= contents@.len(),
            song_views(out@) == rank_songs_spec(contents@.subrange(0, i as int)),
        decreases contents.len() - i,
    {
        let ghost pre = contents@.subrange(0, i + 1);
        assert(pre.drop_last() =~= contents@.subrange(0, i as int));
        match contents[i].get("objectInfo") {
            Some(o) => match parse_song3(o) {
                Some(s) => {
                    let ghost before = song_views(out@);
                    out.push(s);
                    assert(song_views(out@) =~= before.push(s@));
                },
                None => {},
            },
            None => {},
        }
        i = i + 1;
    }
    assert(contents@.subrange(0, contents@.len() as int) =~= contents@);
    out
}

/// A built-in chart: its real title and cover where the chart answer gives
/// them, else its fallback name and no cover.
pub open spec fn rank_playlist_spec(id: Seq<char>, fallback: Seq<char>, json: Option<Json>) -> PlaylistView {
    let ci = match json {
        Some(j) => oget(get_spec(j, "data"@), "columnInfo"@),
        None => None,
    };
    match ci {
        None => plain_playlist(id, fallback, Seq::empty(), 0),
        Some(c) => {
            let title = ostr(get_spec(c, "columnTitle"@));
            let name = match title {
                Some(t) => if t.len() > 0 { t } else { fallback },
                None => fallback,
            };
            let pic = match ostr(get_spec(c, "columnPicUrl"@)) {
                Some(u) => if u.len() > 0 { Some(u) } else { ostr(get_spec(c, "columnSmallpicUrl"@)) },
                None => ostr(get_spec(c, "columnSmallpicUrl"@)),
            };
            plain_playlist(id, name, opt_image(pic), 0)
        },
    }
}

/// A built-in chart as a playlist (see `rank_playlist_spec`); `json` is the
/// chart answer where the request went through.
pub fn rank_playlist(id: &str, fallback: &str, json: Option<&Json>) -> (r: Playlist)
    ensures
        r@ == rank_playlist_spec(id@, fallback@, deref_opt(json)),
{
    let ci: Option<&Json> = match json {
        Some(j) => match j.get("data") {
            Some(d) => d.get("columnInfo"),
            None => None,
        },
        None => None,
    };
    match ci {
        None => make_playlist(str_to_string(id), str_to_string(fallback), String::new(), 0),
        Some(c) => {
            let name = match get_str(c, "columnTitle") {
                Some(t) => if str_is_empty(t.as_str()) {
                    str_to_string(fallback)
                } else {
                    t.clone()
                },
                None => str_to_string(fallback),
            };
            let pic: Option<&String> = match get_str(c, "columnPicUrl") {
                Some(u) => if str_is_empty(u.as_str()) {
                    get_str(c, "columnSmallpicUrl")
                } else {
                    Some(u)
                },
                None => get_str(c, "columnSmallpicUrl"),
            };
            let cover = opt_image_exec(pic);
            make_playlist(str_to_string(id), name, cover, 0)
        },
    }
}

/// The playlists of a recommendation page: every item of resource type `2021`
/// not titled `标题` that has an id and a text, in document order, each
/// followed by those nested in its `contents`.
pub open spec fn recommend_spec(items: Seq<Json>) -> Seq<PlaylistView>
    decreases items,
{
    if items.len() == 0 {
        Seq::empty()
    } else {
        let m = items[0];
        let nested = match m {
            Json::Obj(es) => nested_recommend(es@),
            _ => Seq::empty(),
        };
        recommend_item(m) + nested + recommend_spec(items.subrange(1, items.len() as int))
    }
}

/// The playlist an item of a recommendation page stands for, if any.
pub open spec fn recommend_item(m: Json) -> Seq<PlaylistView> {
    if ostr(get_spec(m, "resType"@)) == Some("2021"@) && ostr(get_spec(m, "title"@)) != Some("标题"@) {
        match (ostr(get_spec(m, "resId"@)), ostr(get_spec(m, "txt"@))) {
            (Some(id), Some(name)) => seq![plain_playlist(id, name, opt_image(ostr(get_spec(m, "img"@))), 0)],
            _ => Seq::empty(),
        }
    } else {
        Seq::empty()
    }
}

/// The playlists nested in the first `contents` member of an object.
pub open spec fn nested_recommend(es: Seq<(String, Json)>) -> Seq<PlaylistView>
    decreases es,
{
    if es.len() == 0 {
        Seq::empty()
    } else if es[0].0@ == "contents"@ {
        match es[0].1 {
            Json::Arr(a) => recommend_spec(a@),
            _ => Seq::empty(),
        }
    } else {
        nested_recommend(es.subrange(1, es.len() as int))
    }
}

fn recommend_item_exec(m: &Json, out: &mut Vec<Playlist>)
    ensures
        playlist_views(final(out)@) == playlist_views(old(out)@) + recommend_item(*m),
{
    let is_2021 = match get_str(m, "resType") {
        Some(t) => str_eq(t.as_str(), "2021"),
        None => false,
    };
    let is_title = match get_str(m, "title") {
        Some(t) => str_eq(t.as_str(), "标题"),
        None => false,
    };
    let ghost start = playlist_views(out@);
    if is_2021 && !is_title {
        match (get_str(m, "resId"), get_str(m, "txt")) {
            (Some(id), Some(name)) => {
                let p = make_playlist(id.clone(), name.clone(), opt_image_exec(get_str(m, "img")), 0);
                out.push(p);
                assert(playlist_views(out@) =~= start + recommend_item(*m));
                return;
            },
            _ => {},
        }
    }
    assert(playlist_views(out@) =~= start + recommend_item(*m));
}

fn collect_items(items: &Vec<Json>, out: &mut Vec<Playlist>)
    ensures
        playlist_views(final(out)@) == playlist_views(old(out)@) + recommend_spec(items@),
    decreases items@,
{
    let ghost start = playlist_views(out@);
    let n = items.len();
    let mut i: usize = 0;
    assert(items@.subrange(0, n as int) =~= items@);
    while i < n
        invariant
            n == items@.len(),
            i <= n,
            playlist_views(out@) + recommend_spec(items@.subrange(i as int, n as int)) == start + recommend_spec(items@),
        decreases n - i,
    {
        let ghost sub = items@.subrange(i as int, n as int);
        assert(sub[0] == items@[i as int]);
        assert(sub.subrange(1, sub.len() as int) =~= items@.subrange(i + 1, n as int));
        let ghost before = playlist_views(out@);
        let m = &items[i];
        recommend_item_exec(m, out);
        let ghost mid = playlist_views(out@);
        match m {
            Json::Obj(es) => {
                proof {
                    assert(decreases_to!(items@ => items@[i as int]));
                    assert(decreases_to!(items@[i as int] => items@[i as int]->Obj_0));
                    assert(decreases_to!(items@[i as int]->Obj_0 => items@[i as int]->Obj_0@));
                }
                collect_nested(es, out);
            },
            _ => {},
        }
        assert(playlist_views(out@) + recommend_spec(items@.subrange(i + 1, n as int)) =~= before + recommend_spec(sub));
        i = i + 1;
    }
    assert(items@.subrange(n as int, n as int) =~= Seq::<Json>::empty());
    assert(playlist_views(out@) =~= start + recommend_spec(items@));
}

fn collect_nested(es: &Vec<(String, Json)>, out: &mut Vec<Playlist>)
    ensures
        playlist_views(final(out)@) == playlist_views(old(out)@) + nested_recommend(es@),
    decreases es@,
{
    let n = es.len();
    let mut i: usize = 0;
    assert(es@.subrange(0, n as int) =~= es@);
    while i < n
        invariant
            n == es@.len(),
            i <= n,
            nested_recommend(es@) == nested_recommend(es@.subrange(i as int, n as int)),
            playlist_views(out@) == playlist_views(old(out)@),
        decreases n - i,
    {
        let ghost sub = es@.subrange(i as int, n as int);
        assert(sub[0] == es@[i as int]);
        assert(sub.subrange(1, sub.len() as int) =~= es@.subrange(i + 1, n as int));
        if str_eq(es[i].0.as_str(), "contents") {
            match &es[i].1 {
                Json::Arr(a) => {
                    proof {
                        assert(decreases_to!(es@ => es@[i as int]));
                        assert(decreases_to!(es@[i as int] => es@[i as int].1));
                        assert(decreases_to!(es@[i as int].1 => es@[i as int].1->Arr_0));
                        assert(decreases_to!(es@[i as int].1->Arr_0 => es@[i as int].1->Arr_0@));
                    }
                    collect_items(a, out);
                },
                _ => {
                    assert(playlist_views(out@) =~= playlist_views(old(out)@) + nested_recommend(es@));
                },
            }
            return;
        }
        i = i + 1;
    }
    assert(es@.subrange(n as int, n as int) =~= Seq::<(String, Json)>::empty());
    assert(playlist_views(out@) =~= playlist_views(old(out)@) + nested_recommend(es@));
}

/// The playlists of a recommendation page answer (`data.contents`, walked
/// with everything nested in it).
pub fn recommend_playlists(json: &Json) -> (r: Vec<Playlist>)
    ensures
        playlist_views(r@) == recommend_spec(list_or_empty(oarr(oget(get_spec(*json, "data"@), "contents"@)))),
{
    let mut out: Vec<Playlist> = Vec::new();
    let top: Option<&Vec<Json>> = match json.get("data") {
        Some(d) => arr_at(d, "contents"),
        None => None,
    };
    match top {
        Some(items) => {
            collect_items(items, &mut out);
            assert(playlist_views(out@) =~= recommend_spec(items@));
        },
        None => {
            assert(playlist_views(out@) =~= recommend_spec(Seq::<Json>::empty()));
        },
    }
    out
}

/// What `url::form_urlencoded::byte_serialize` gives for a text.
pub uninterp spec fn spec_form_encode(s: Seq<char>) -> Seq<char>;

/// `url::form_urlencoded::byte_serialize` of the text's UTF-8 bytes, collected
/// into a string.  The contract only names the result.
#[verifier::external_body]
fn form_encode(s: &str) -> (r: String)
    ensures
        r@ == spec_form_encode(s@),
{
    url::form_urlencoded::byte_serialize(s.as_bytes()).collect()
}

/// The URL of a song search for a page of results.
pub fn search_url(keywords: &str, page: u32, page_size: u32) -> (r: String)
    ensures
        r@ == "https://app.u.nf.migu.cn/pc/resource/song/item/search/v1.0?text="@ + spec_form_encode(keywords@)
            + "&pageNo="@ + crate::text::decimal(page as nat) + "&pageSize="@ + crate::text::decimal(page_size as nat),
{
    let mut v = chars_of("https://app.u.nf.migu.cn/pc/resource/song/item/search/v1.0?text=");
    let t = form_encode(keywords);
    append_str(&mut v, t.as_str());
    append_str(&mut v, "&pageNo=");
    crate::text::push_decimal(&mut v, page as u64);
    append_str(&mut v, "&pageSize=");
    crate::text::push_decimal(&mut v, page_size as u64);
    string_from_chars(&v)
}

/// The page size of a search: the limit clamped to 1..=50.
pub fn search_page_size(limit: u32) -> (r: u32)
    ensures
        r == if limit < 1 { 1 } else if limit > 50 { 50 } else { limit },
{
    if limit < 1 {
        1
    } else if limit > 50 {
        50
    } else {
        limit
    }
}

// ───────────────────────── laws ─────────────────────────

/// The tone flags tried for any wanted quality: the wanted one first, then
/// the three others, each flag once.
pub proof fn law_try_flags_each_once(quality: Seq<char>)
    ensures
        try_flags_spec(quality).len() == 4,
        try_flags_spec(quality)[0] == tone_flag_spec(quality),
        forall|i: int, j: int| 0 <= i < j < 4 ==> try_flags_spec(quality)[i] != try_flags_spec(quality)[j],
        forall|f: Seq<char>| degrade_order_spec().contains(f) ==> try_flags_spec(quality).contains(f),
{
    reveal_strlit("PQ");
    reveal_strlit("SQ");
    reveal_strlit("HQ");
    reveal_strlit("ZQ");
    let t = tone_flag_spec(quality);
    let o = degrade_order_spec();
    let f = other_than(t);
    reveal_with_fuel(Seq::filter, 5);
    assert(o.drop_last().drop_last().drop_last().drop_last() =~= Seq::<Seq<char>>::empty());
    assert(o.drop_last().drop_last().drop_last() =~= seq!["PQ"@]);
    assert(o.drop_last().drop_last() =~= seq!["PQ"@, "SQ"@]);
    assert(o.drop_last() =~= seq!["PQ"@, "SQ"@, "HQ"@]);
    assert("PQ"@[0] == 'P' && "SQ"@[0] == 'S' && "HQ"@[0] == 'H' && "ZQ"@[0] == 'Z');
    let r = try_flags_spec(quality);
    if t == "PQ"@ {
        assert(o.filter(f) =~= seq!["SQ"@, "HQ"@, "ZQ"@]);
    } else if t == "HQ"@ {
        assert(o.filter(f) =~= seq!["PQ"@, "SQ"@, "ZQ"@]);
    } else if t == "SQ"@ {
        assert(o.filter(f) =~= seq!["PQ"@, "HQ"@, "ZQ"@]);
    } else {
        assert(t == "ZQ"@);
        assert(o.filter(f) =~= seq!["PQ"@, "SQ"@, "HQ"@]);
    }
    assert forall|g: Seq<char>| o.contains(g) implies r.contains(g) by {
        let k = choose|k: int| 0 <= k < o.len() && o[k] == g;
        if g == t {
            assert(r[0] == g);
        } else {
            assert(0 <= k < 4);
            if t == "PQ"@ {
                assert(r =~= seq!["PQ"@, "SQ"@, "HQ"@, "ZQ"@]);
            } else if t == "HQ"@ {
                assert(r =~= seq!["HQ"@, "PQ"@, "SQ"@, "ZQ"@]);
            } else if t == "SQ"@ {
                assert(r =~= seq!["SQ"@, "PQ"@, "HQ"@, "ZQ"@]);
            } else {
                assert(r =~= seq!["ZQ"@, "PQ"@, "SQ"@, "HQ"@]);
            }
            assert(r[k] == g || r[0] == g || r[1] == g || r[2] == g || r[3] == g);
        }
    }
}

/// Every song that an artist's song search keeps is by that artist.
pub proof fn law_artist_songs_by_artist(songs: Seq<SongView>, name: Seq<char>, i: int)
    requires
        0 <= i < songs_by(songs, name).len(),
    ensures
        by_artist(songs_by(songs, name)[i], name),
{
    songs.lemma_filter_pred(|s: SongView| by_artist(s, name), i);
}

/// A ranged read never gives more songs than were asked for.
pub proof fn law_range_slice_bounded<A>(songs: Seq<A>, start: int, count: int)
    requires
        0 <= start,
        0 <= count,
    ensures
        range_slice_spec(songs, start, count).len() <= count,
{
}

/// An image path made absolute is empty or an `http` URL.
pub proof fn law_pad_image_http(url: Seq<char>)
    ensures
        pad_image_spec(url).len() == 0 || has_prefix(pad_image_spec(url), "http"@),
{
    reveal_strlit("http");
    reveal_strlit("https://");
    reveal_strlit("https://d.musicapp.migu.cn");
    let u = trim(url);
    if u.len() > 0 {
        let v = if has_prefix(u, "//"@) {
            "https://"@ + u.subrange(2, u.len() as int)
        } else if has_prefix(u, "/prod"@) {
            IMG_PREFIX@ + u
        } else if !has_prefix(u, "http"@) {
            IMG_PREFIX@ + "/"@ + u
        } else {
            u
        };
        assert(v.subrange(0, 4) =~= "http"@);
        if has_prefix(v, "http://"@) {
            let w = "https://"@ + v.subrange(7, v.len() as int);
            assert(w.subrange(0, 4) =~= "http"@);
        }
    }
}

} // verus!
