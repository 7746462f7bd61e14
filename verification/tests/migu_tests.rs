use nexbox::music_api::migu::{decode_listen_text, listen_parse_error};
use nexbox::music_api::migu::{migu_song_url_step, SongUrlStep};
use nexbox::json::{Json, JsonNumber};
use nexbox::music_api::migu::{
    artist_search, artist_songs_page, cover_from_album_imgs, decode_listen_body, detect_vip,
    extract_music_list_id, filter_by_artist, json_str, listen_data, login_info, migu_cookie_present,
    migu_more_pages, migu_range_pages, migu_range_slice, migu_should_retry, migu_song_url_found,
    migu_song_url_refused, pad_image, parse_length_ms, parse_song3, parse_song_list,
    playlist_count, playlist_info, playlist_search, quality_for_tone_flag, rank_playlist,
    rank_songs, recommend_playlists, search_page_size, search_url, singer_avatar,
    tone_flag_degrade_order, tone_flag_for, truthy, try_flags, user_playlists, value_to_text,
    ListenData, RANK_HOT,
};

fn conv(v: &serde_json::Value) -> Json {
    match v {
        serde_json::Value::Null => Json::Null,
        serde_json::Value::Bool(b) => Json::Bool(*b),
        serde_json::Value::Number(n) => {
            if let Some(u) = n.as_u64() {
                Json::Num(JsonNumber::PosInt(u))
            } else if let Some(i) = n.as_i64() {
                Json::Num(JsonNumber::NegInt(i))
            } else {
                Json::Num(JsonNumber::Float(n.to_string(), n.as_f64().unwrap_or(0.0) > 0.0))
            }
        }
        serde_json::Value::String(s) => Json::Str(s.clone()),
        serde_json::Value::Array(a) => Json::Arr(a.iter().map(conv).collect()),
        serde_json::Value::Object(m) => Json::Obj(m.iter().map(|(k, v)| (k.clone(), conv(v))).collect()),
    }
}

fn j(text: &str) -> Json {
    conv(&serde_json::from_str::<serde_json::Value>(text).expect("test JSON"))
}

#[test]
fn image_paths_become_https() {
    assert_eq!(pad_image(" //img.migu.cn/a.jpg "), "https://img.migu.cn/a.jpg");
    assert_eq!(pad_image("/prod/x.jpg"), "https://d.musicapp.migu.cn/prod/x.jpg");
    assert_eq!(pad_image("y.jpg"), "https://d.musicapp.migu.cn/y.jpg");
    assert_eq!(pad_image("http://a/b"), "https://a/b");
    assert_eq!(pad_image("https://a/b"), "https://a/b");
    assert_eq!(pad_image("   "), "");
}

#[test]
fn tone_flags() {
    assert_eq!(tone_flag_for("standard"), "PQ");
    assert_eq!(tone_flag_for("exhigh"), "HQ");
    assert_eq!(tone_flag_for("jymaster"), "ZQ");
    assert_eq!(tone_flag_for("anything"), "SQ");
    assert_eq!(quality_for_tone_flag("HQ"), "高品质");
    assert_eq!(quality_for_tone_flag("??"), "标准");
    assert_eq!(tone_flag_degrade_order(), ["PQ", "SQ", "HQ", "ZQ"]);
    assert_eq!(try_flags("exhigh"), vec!["HQ", "PQ", "SQ", "ZQ"]);
    assert_eq!(try_flags("standard"), vec!["PQ", "SQ", "HQ", "ZQ"]);
}

#[test]
fn lengths_in_milliseconds() {
    assert_eq!(parse_length_ms("00:04:30"), 270_000);
    assert_eq!(parse_length_ms("04:30.06"), 270_000);
    assert_eq!(parse_length_ms("45"), 45_000);
    assert_eq!(parse_length_ms("1:2:3:4"), 0);
    assert_eq!(parse_length_ms("x:30"), 30_000);
    assert_eq!(parse_length_ms(""), 0);
}

#[test]
fn ids_and_texts() {
    assert_eq!(json_str(Some(&j("12"))).as_deref(), Some("12"));
    assert_eq!(json_str(Some(&j(r#""ab""#))).as_deref(), Some("ab"));
    assert_eq!(json_str(Some(&j("true"))), None);
    assert_eq!(json_str(None), None);
    assert_eq!(value_to_text(&j("3")), "3");
    assert_eq!(value_to_text(&j("null")), "null");
    assert_eq!(value_to_text(&j(r#""s""#)), "s");
    assert_eq!(extract_music_list_id("https://x?a=1&musicListId= 123 &b=2").as_deref(), Some("123"));
    assert_eq!(extract_music_list_id("https://x?musicListId=&b"), None);
    assert_eq!(extract_music_list_id("https://x"), None);
    assert_eq!(playlist_count(&j(r#"{"musicNum": "7", "songNum": 5}"#)), 5);
}

#[test]
fn new_style_song() {
    let data = j(r#"{"name": "N", "copyrightId": 88, "contentId": "c1",
        "singerList": [{"name": "S1", "id": 1, "img": "/prod/s.jpg"}, {"id": 2}],
        "img3": "", "img2": "//i/2.jpg", "duration": 200, "downloadTags": ["hq", "vip"], "album": "Al"}"#);
    let s = parse_song3(&data).unwrap();
    assert_eq!(s.id, "88");
    assert_eq!(s.content_id.as_deref(), Some("c1"));
    assert_eq!(s.artist, "S1");
    assert_eq!(s.artists.len(), 1);
    assert_eq!(s.artists[0].pic_url.as_deref(), Some("https://d.musicapp.migu.cn/prod/s.jpg"));
    assert_eq!(s.cover, "https://i/2.jpg");
    assert_eq!(s.duration, 200_000);
    assert_eq!(s.fee, 1);
    assert_eq!(s.album, "Al");
}

#[test]
fn old_style_song() {
    let data = j(r#"{"songName": "Old", "songId": "9", "singer": "",
        "artists": [{"name": "X", "id": 3}, {"name": "Y"}], "length": "03:05",
        "albumImgs": [{"imgSizeType": "01", "img": "/prod/1.jpg"}, {"imgSizeType": "02", "img": "/prod/2.jpg"}], "vipFlag": 1}"#);
    let s = parse_song3(&data).unwrap();
    assert_eq!(s.id, "");
    assert_eq!(s.content_id.as_deref(), Some("9"));
    assert_eq!(s.artist, "X / Y");
    assert_eq!(s.cover, "https://d.musicapp.migu.cn/prod/2.jpg");
    assert_eq!(s.duration, 185_000);
    assert_eq!(s.fee, 1);
    assert_eq!(cover_from_album_imgs(&j(r#"{"albumImgs": [{"imgSizeType": "03"}]}"#)), "");
    assert!(parse_song3(&j(r#"{"name": "N"}"#)).is_none());
    assert_eq!(parse_song_list(Some(&j(r#"[{"name": "A", "contentId": 1}, {"name": ""}]"#))).len(), 1);
    assert!(parse_song_list(None).is_empty());
}

#[test]
fn membership_and_login() {
    assert!(truthy(&j(r#"" vip ""#)));
    assert!(truthy(&j("0.5")));
    assert!(!truthy(&j("-1")));
    assert!(!truthy(&j(r#""no""#)));
    let (vip, t, level) = detect_vip(&j(r#"{"vipLevel": "2", "vipType": 3}"#));
    assert!(vip);
    assert_eq!(t, 3);
    assert_eq!(level, "2");
    let (v2, t2, l2) = detect_vip(&j(r#"{"vipLevel": "0", "vipLevelNum": 1}"#));
    assert!(!v2);
    assert_eq!(t2, 0);
    assert_eq!(l2, "0");
    let li = login_info(&j(r#"{"userInfoItem": {"userId": 123, "smallIcon": "//a/b.png", "isVip": true}}"#));
    assert!(li.logged_in && li.is_vip);
    assert_eq!(li.user_id, "123");
    assert_eq!(li.nickname, "咪咕用户");
    assert_eq!(li.avatar, "https://a/b.png");
    assert_eq!(li.vip_type, 1);
    assert!(!login_info(&j("{}")).logged_in);
    assert!(!migu_cookie_present("  "));
    assert!(migu_cookie_present("a=1"));
}

#[test]
fn searches() {
    let pl = playlist_search(&j(r#"{"songListResultData": {"result": [{"id": 5, "name": "P", "musicNum": 3, "musicListPicUrl": "/prod/p.jpg"}, {"id": 6}]}}"#));
    assert_eq!(pl.len(), 1);
    assert_eq!(pl[0].id, "5");
    assert_eq!(pl[0].track_count, 3);
    let ar = artist_search(&j(r#"{"singerResultData": {"result": [{"id": "1", "name": "A"}, {"name": ""}]}}"#));
    assert_eq!(ar.len(), 1);
    assert_eq!(search_page_size(0), 1);
    assert_eq!(search_page_size(80), 50);
    assert_eq!(artist_songs_page(10, 65), (30, 3));
    assert_eq!(artist_songs_page(40, 0), (40, 1));
    let url = search_url("a b", 2, 10);
    assert!(url.starts_with("https://app.u.nf.migu.cn/pc/resource/song/item/search/v1.0?text=a+b&pageNo=2&pageSize=10"));
}

#[test]
fn artist_song_filter_and_avatar() {
    let songs = vec![
        parse_song3(&j(r#"{"name": "1", "contentId": 1, "singerList": [{"name": " jay ", "img": "/prod/j.jpg", "id": "7"}]}"#)).unwrap(),
        parse_song3(&j(r#"{"name": "2", "contentId": 2, "singer": "Other、JAY"}"#)).unwrap(),
        parse_song3(&j(r#"{"name": "3", "contentId": 3, "singer": "Nobody"}"#)).unwrap(),
    ];
    assert_eq!(singer_avatar(&songs, "7", "x").as_deref(), Some("https://d.musicapp.migu.cn/prod/j.jpg"));
    assert_eq!(singer_avatar(&songs, "", "jay").as_deref(), Some("https://d.musicapp.migu.cn/prod/j.jpg"));
    assert_eq!(singer_avatar(&songs, "", "Nobody"), None);
    let kept = filter_by_artist(songs, " Jay ");
    let names: Vec<&str> = kept.iter().map(|s| s.name.as_str()).collect();
    assert_eq!(names, vec!["1", "2"]);
}

#[test]
fn home_page_playlists() {
    let home = j(r#"{"data": {
        "userPrivateItems": [{"actionUrl": "x?musicListId=11", "title": "Fav"}, {"actionUrl": "none"}],
        "myCollectedMusicLists": {"collectMusicLists": [{"resourceType": "2021", "musicListId": 22, "imgItem": {"img": "/prod/c.jpg"}}, {"resourceType": "2022", "musicListId": 23}]},
        "myCreatedMusicLists": {"createdMusicLists": [{"musicListId": "33", "title": "Mine", "songNum": 4}, {"musicListId": ""}]}}}"#);
    let ps = user_playlists(&home);
    let ids: Vec<&str> = ps.iter().map(|p| p.id.as_str()).collect();
    assert_eq!(ids, vec!["11", "22", "33"]);
    assert_eq!(ps[1].name, "收藏歌单");
    assert_eq!(ps[1].cover, "https://d.musicapp.migu.cn/prod/c.jpg");
    assert_eq!(ps[2].track_count, 4);
    let info = playlist_info(&j(r#"{"data": {"title": "T", "musicNum": 8}}"#), "99");
    assert_eq!((info.id.as_str(), info.name.as_str(), info.track_count), ("99", "T", 8));
}

#[test]
fn paging() {
    assert!(migu_more_pages(1, 30));
    assert!(!migu_more_pages(1, 29));
    assert!(!migu_more_pages(17, 30));
    assert_eq!(migu_range_pages(0, 0), None);
    assert_eq!(migu_range_pages(45, 20), Some((2, 3)));
    let songs = parse_song_list(Some(&j(r#"[{"name": "a", "contentId": 1}, {"name": "b", "contentId": 2}, {"name": "c", "contentId": 3}]"#)));
    let cut = migu_range_slice(songs, 1, 5);
    let names: Vec<&str> = cut.iter().map(|s| s.name.as_str()).collect();
    assert_eq!(names, vec!["b", "c"]);
    let page2 = parse_song_list(Some(&j(r#"[{"name": "d", "contentId": 4}, {"name": "e", "contentId": 5}]"#)));
    let cut2 = migu_range_slice(page2, 31, 1);
    let names2: Vec<&str> = cut2.iter().map(|s| s.name.as_str()).collect();
    assert_eq!(names2, vec!["e"]);
}

#[test]
fn playback_body_and_answers() {
    assert_eq!(decode_listen_body(&vec![1, 2, 3, 4]).err(), Some("Migu listen body too short".to_string()));
    // 'J' is the first key byte: body[4] + body[3] - 'J' wraps to '{'
    let out = decode_listen_body(&vec![0, 0, 0, 1, b'{' + b'J' - 1]).unwrap();
    assert_eq!(out, vec![b'{']);
    let mut long = vec![0u8; 36];
    long[3] = 1;
    let decoded = decode_listen_body(&long).unwrap();
    assert_eq!(decoded[30], 1u8.wrapping_sub(b'L'));
    assert_eq!(decoded[31], 1u8.wrapping_sub(b'J'));
    let blocked = listen_data(&j(r#"{"data": {"cannotCode": "440018"}}"#), "PQ");
    assert_eq!(blocked.err(), Some("MiguUrlBlocked:440018".to_string()));
    assert_eq!(listen_data(&j("{}"), "PQ").err(), Some("MiguUrlBlocked:empty_url".to_string()));
    let ok = listen_data(&j(r#"{"data": {"url": "x http://h/a.mp3", "lrcUrl": "l"}}"#), "SQ").unwrap();
    assert_eq!(ok.url, "x https://h/a.mp3");
    assert_eq!(ok.lrc_url, "l");
    assert!(migu_should_retry("MiguUrlBlocked:1"));
    assert!(!migu_should_retry("timeout"));
    let found = migu_song_url_found(ListenData { url: "u".to_string(), lrc_url: String::new(), tone_flag: "PQ".to_string() }, "SQ");
    assert_eq!(found.message.as_deref(), Some("已降级为 PQ 音质"));
    assert_eq!(found.quality, "标准");
    let refused = migu_song_url_refused("SQ", "MiguUrlBlocked:x".to_string());
    assert!(!refused.playable);
    assert_eq!(refused.fee, Some(1));
    assert_eq!(refused.quality, "无损");
}

#[test]
fn charts_and_recommendations() {
    let chart = j(r#"{"data": {"columnInfo": {"contents": [{"objectInfo": {"songName": "R", "copyrightId": "1"}}, {"other": 1}]}}}"#);
    assert_eq!(rank_songs(&chart).len(), 1);
    let named = rank_playlist(RANK_HOT, "咪咕热歌榜", Some(&j(r#"{"data": {"columnInfo": {"columnTitle": "尖叫热歌榜", "columnPicUrl": "", "columnSmallpicUrl": "/prod/s.jpg"}}}"#)));
    assert_eq!(named.name, "尖叫热歌榜");
    assert_eq!(named.cover, "https://d.musicapp.migu.cn/prod/s.jpg");
    let fallback = rank_playlist(RANK_HOT, "咪咕热歌榜", None);
    assert_eq!((fallback.id.as_str(), fallback.name.as_str()), ("27186466", "咪咕热歌榜"));
    let rec = j(r#"{"data": {"contents": [{"contents": [{"resType": "2021", "resId": "r1", "txt": "One"}, {"resType": "2021", "title": "标题", "resId": "r2", "txt": "Skip"}]}, {"resType": "2021", "resId": "r3", "txt": "Three", "img": "//i/3.jpg"}]}}"#);
    let ps = recommend_playlists(&rec);
    let ids: Vec<&str> = ps.iter().map(|p| p.id.as_str()).collect();
    assert_eq!(ids, vec!["r1", "r3"]);
    assert_eq!(ps[1].cover, "https://i/3.jpg");
}

fn listen(url: &str, flag: &str) -> ListenData {
    ListenData { url: url.to_string(), lrc_url: String::new(), tone_flag: flag.to_string() }
}

#[test]
fn song_url_degrades_on_refusals_only() {
    // "exhigh" wants HQ first, then PQ, SQ, ZQ.
    assert!(matches!(migu_song_url_step("exhigh", vec![]), SongUrlStep::Try("HQ")));
    let blocked = || Err("MiguUrlBlocked:440018".to_string());
    assert!(matches!(migu_song_url_step("exhigh", vec![blocked()]), SongUrlStep::Try("PQ")));
    match migu_song_url_step("exhigh", vec![blocked(), Ok(listen("u", "PQ"))]) {
        SongUrlStep::Done(Ok(r)) => {
            assert_eq!(r.url.as_deref(), Some("u"));
            assert_eq!(r.message.as_deref(), Some("已降级为 PQ 音质"));
        }
        _ => panic!("a found stream ends the search"),
    }
    match migu_song_url_step("exhigh", vec![blocked(), Err("timeout".to_string())]) {
        SongUrlStep::Done(Err(e)) => assert_eq!(e, "timeout"),
        _ => panic!("an error other than a refusal is returned"),
    }
    match migu_song_url_step("exhigh", vec![blocked(), blocked(), blocked(), Err("MiguUrlBlocked:last".to_string())]) {
        SongUrlStep::Done(Ok(r)) => {
            assert!(!r.playable);
            assert_eq!(r.level, "HQ");
            assert_eq!(r.reason.as_deref(), Some("MiguUrlBlocked:last"));
            assert_eq!(r.fee, Some(1));
        }
        _ => panic!("all refused"),
    }
}

#[test]
fn playback_text_and_its_parse_error() {
    assert_eq!(decode_listen_text(&vec![0, 0, 0, 1, b'{' + b'J' - 1]), Ok("{".to_string()));
    assert_eq!(decode_listen_text(&vec![1, 2]), Err("Migu listen body too short".to_string()));
    assert_eq!(listen_parse_error("eof", "abc"), "Migu decode listen body failed: eof, text: abc");
    let long = "x".repeat(130);
    assert_eq!(listen_parse_error("eof", &long), format!("Migu decode listen body failed: eof, text: {}", "x".repeat(120)));
    let wide = format!("{}中", "y".repeat(117));
    assert_eq!(listen_parse_error("e", &wide), format!("Migu decode listen body failed: e, text: {}", wide));
}
