use nexbox::music_api::qishui::qishui_login_gate;
use nexbox::music_api::qishui::{qishui_profile_step, ProfileStep};
use nexbox::json::{Json, JsonNumber};
use nexbox::music_api::qishui::{
    clip, json_str, json_truthy, json_u64, qishui_clean_path, qishui_collection_cards,
    qishui_cookie_has_login, qishui_cover_fill_targets, qishui_decrypt_result,
    qishui_decrypted_reply, qishui_deps_download_begin, qishui_deps_install_outcome,
    qishui_deps_missing_err, qishui_deps_skip_download, qishui_deps_status, qishui_deps_wanted,
    qishui_extract_media, qishui_feed_modes, qishui_feed_songs, qishui_first_url,
    qishui_http_error, qishui_image_url, qishui_login_status, qishui_lrc_ts, qishui_map_media,
    qishui_map_playlist_node, qishui_map_public_item, qishui_media_songs, qishui_missing_id_reply,
    qishui_pc_params, qishui_pick_image, qishui_playlist_meta, qishui_profile_from,
    qishui_public_request_limit, qishui_public_songs, qishui_qr_check, qishui_qr_cookie,
    qishui_qr_get, qishui_qr_status, qishui_qr_token, qishui_query_string, qishui_search_artists,
    qishui_search_playlists, qishui_seo_reply, qishui_seo_video_model, qishui_signed_body,
    qishui_signed_headers, qishui_signed_url, qishui_status_info, qishui_track_v2_body,
    qishui_user_playlists, SeoModel,
};
use nexbox::music_api::WebCookie;

fn conv(v: &serde_json::Value) -> Json {
    match v {
        serde_json::Value::Null => Json::Null,
        serde_json::Value::Bool(b) => Json::Bool(*b),
        serde_json::Value::Number(n) => {
            if let Some(u) = n.as_u64() {
                Json::Num(JsonNumber::PosInt(u))
            } else if let Some(i) = n.as_i64() {
                Json::Num(JsonNumber::NegInt(i))
            } else {
                Json::Num(JsonNumber::Float(n.to_string(), n.as_f64().unwrap_or(0.0) > 0.0))
            }
        }
        serde_json::Value::String(s) => Json::Str(s.clone()),
        serde_json::Value::Array(a) => Json::Arr(a.iter().map(conv).collect()),
        serde_json::Value::Object(m) => Json::Obj(m.iter().map(|(k, v)| (k.clone(), conv(v))).collect()),
    }
}

fn j(text: &str) -> Json {
    conv(&serde_json::from_str::<serde_json::Value>(text).expect("test JSON"))
}

#[test]
fn clip_never_splits_a_character() {
    assert_eq!(clip("abc", 10), "abc");
    assert_eq!(clip("abcdef", 3), "abc");
    assert_eq!(clip("汽水音乐", 7), "汽水");
    assert_eq!(clip("a汽", 2), "a");
}

#[test]
fn login_cookies() {
    assert!(qishui_cookie_has_login("ttwid=1; sessionid=abc"));
    assert!(qishui_cookie_has_login("sid_tt=zz"));
    assert!(!qishui_cookie_has_login("xsessionid=abc"));
    assert!(!qishui_cookie_has_login("sessionid=; ttwid=1"));
    let st = qishui_status_info("sessionid=abc");
    assert!(st.logged_in);
    assert_eq!(st.provider, "qishui");
    assert!(!qishui_status_info("").logged_in);
}

#[test]
fn loose_reads() {
    let v = j(r#"{"a": "", "b": 12, "c": "34", "d": "x", "e": -3}"#);
    assert_eq!(json_str(&v, &["a", "b"]), "12");
    assert_eq!(json_str(&v, &["zz"]), "");
    assert_eq!(json_u64(&v, &["d", "c"]), 34);
    assert_eq!(json_u64(&v, &["e"]), 0);
    assert!(json_truthy(Some(&j(r#"" Yes ""#))));
    assert!(!json_truthy(Some(&j(r#""Normal""#))));
    assert!(json_truthy(Some(&j("2"))));
    assert!(!json_truthy(Some(&j("0"))));
    assert!(!json_truthy(None));
}

#[test]
fn image_urls() {
    assert_eq!(qishui_first_url(&j(r#"[[], ["", "u"]]"#)), "u");
    assert_eq!(qishui_image_url(&j(r#""http://a/b""#), "~s.jpg"), "http://a/b~s.jpg");
    assert_eq!(qishui_image_url(&j(r#""http://a/b~t""#), "~s.jpg"), "http://a/b~t");
    assert_eq!(qishui_image_url(&j(r#""ftp://a""#), ""), "");
    let obj = j(r#"{"urls": ["http://cdn/"], "uri": "tos/x", "template_prefix": "tpl"}"#);
    assert_eq!(qishui_image_url(&obj, "~c5.jpg"), "http://cdn/tos/x~tpl-image.jpeg");
    let no_tpl = j(r#"{"url_list": ["http://cdn/"], "uri": "tos/x"}"#);
    assert_eq!(qishui_image_url(&no_tpl, "~c5.jpg"), "http://cdn/tos/x~c5.jpg");
    let holder = j(r#"{"a": null, "b": "http://img"}"#);
    assert_eq!(qishui_pick_image(&holder, &["a", "b"], ""), "http://img");
}

#[test]
fn media_items_become_songs() {
    let raw = j(r#"{"entity": {"track": {"id": "t1", "name": "Song",
        "artists": [{"name": "A"}, {"name": "B"}, {"name": "A"}],
        "album": {"name": "Alb", "url_cover": {"urls": ["http://c/"], "uri": "k"}},
        "duration": 200, "label_info": {"only_vip_playable": true}}}}"#);
    let s = qishui_map_media(&raw).unwrap();
    assert_eq!(s.id, "t1");
    assert_eq!(s.name, "Song");
    assert_eq!(s.artist, "A / B");
    assert_eq!(s.artists.len(), 2);
    assert_eq!(s.album, "Alb");
    assert_eq!(s.cover, "http://c/k~c5_375x375.jpg");
    assert_eq!(s.duration, 200_000);
    assert_eq!(s.fee, 1);
    assert!(s.playable);
    assert!(qishui_map_media(&j(r#"{"track": {"id": "x"}}"#)).is_none());
}

#[test]
fn media_lists() {
    let resp = j(r#"{"data": {"media_list": [], "tracks": [{"id": "1", "name": "a"}, {"id": "", "name": "b"}]}}"#);
    assert_eq!(qishui_extract_media(&resp).len(), 2);
    assert_eq!(qishui_media_songs(&resp).len(), 1);
    let groups = j(r#"{"result_groups": [{"data": [{"id": "1", "title": "x"}]}, {"data": [{"id": "2", "title": "y"}]}]}"#);
    assert_eq!(qishui_extract_media(&groups).len(), 2);
    let feed = j(r#"{"items": [{"id": "1", "name": "a"}, {"id": "2", "name": "b"}, {"id": "3", "name": "c"}]}"#);
    assert_eq!(qishui_feed_songs(&feed, Some(2)).len(), 2);
    assert_eq!(qishui_feed_songs(&feed, Some(0)).len(), 1);
}

#[test]
fn profile_reading() {
    let me = j(r#"{"my_info": {"id": "u1", "nickname": "", "public_name": "Pub", "vip_info": {"is_svip": 1}}}"#);
    let p = qishui_profile_from(&me);
    assert!(p.logged_in);
    assert_eq!(p.nickname, "Pub");
    assert!(p.is_svip && p.is_vip);
    assert_eq!(p.vip_type, 2);
    assert_eq!(p.vip_level, "svip");
    let plain = qishui_profile_from(&j(r#"{"data": {"my_info": {"id": "u2", "nickname": "N", "vip_stage": "VIP_month"}}}"#));
    assert!(plain.is_vip && !plain.is_svip);
    assert_eq!(plain.vip_level, "VIP_month");
    assert!(qishui_login_status("nothing", None, None).is_none());
    assert!(qishui_login_status("sessionid=1", None, None).unwrap().logged_in);
}

#[test]
fn user_playlists_each_id_once() {
    let created = j(r#"{"playlists": [{"id": "p1", "title": "Mine", "count_tracks": 0, "stats": {"count_visible": 9}, "owner": {"nickname": "me"}}, {"id": "p2"}]}"#);
    let mixed = j(r#"{"data": {"mixed_collections": [{"playlist": {"id": "p1", "title": "Dup"}}, {"playlist": {"id": "p3", "title": "Theirs", "owner": {"public_name": "them"}}}, {"album": {"id": "a"}}]}}"#);
    assert_eq!(qishui_collection_cards(mixed.get("data").unwrap()).len(), 2);
    let ps = qishui_user_playlists(&created, Some(&mixed));
    let ids: Vec<&str> = ps.iter().map(|p| p.id.as_str()).collect();
    assert_eq!(ids, vec!["p1", "p2", "p3"]);
    assert_eq!(ps[0].track_count, 9);
    assert_eq!(ps[1].name, "未命名歌单");
    assert!(!ps[0].subscribed && ps[2].subscribed);
    assert_eq!(ps[2].creator, "them");
    assert_eq!(qishui_cover_fill_targets(&ps), vec![0, 1, 2]);
    assert_eq!(qishui_user_playlists(&created, None).len(), 2);
}

#[test]
fn playlist_nodes_and_meta() {
    assert!(qishui_map_playlist_node(&j(r#"{"title": "x"}"#)).is_none());
    let meta = qishui_playlist_meta(&j(r#"{"data": {}}"#), "id9", 3);
    assert_eq!(meta.name, "汽水歌单");
    assert_eq!(meta.track_count, 3);
}

#[test]
fn search_results() {
    let resp = j(r#"{"result_groups": [{"data": [{"entity": {"artist": {"id": "a1", "name": "Ar", "count_tracks": 5}}}, {"entity": {"playlist": {"id": "p1", "title": "Pl"}}}]}]}"#);
    let arts = qishui_search_artists(&resp);
    assert_eq!(arts.len(), 1);
    assert_eq!(arts[0].music_size, Some(5));
    assert_eq!(qishui_search_playlists(&resp).len(), 1);
    let item = j(r#"{"item_id": "9", "title": "T", "author_info": {"name": "Au"}, "duration": 185000}"#);
    let s = qishui_map_public_item(&item).unwrap();
    assert_eq!(s.duration, 185);
    assert_eq!(s.artist, "Au");
    assert!(!s.playable);
    assert_eq!(qishui_public_request_limit(5), 36);
    assert_eq!(qishui_public_request_limit(20), 60);
    assert_eq!(qishui_public_request_limit(u32::MAX), 100);
    let public = j(r#"{"data": {"list": [{"id": "1", "title": "a"}, {"id": "2", "title": "b"}]}}"#);
    assert_eq!(qishui_public_songs(&public, 1).len(), 1);
}

#[test]
fn listening_modes() {
    let resp = j(r#"{"feed_mode_block": [{"title": "Mood", "feed_mode": [{"text": "Calm", "entity": {"feed_scene_mode": {"scene_mode_id": 4, "sub_queue_type": "s"}}}, {"text": ""}]}]}"#);
    let modes = qishui_feed_modes(&resp);
    assert_eq!(modes.len(), 1);
    assert_eq!(modes[0].block, "Mood");
    assert_eq!(modes[0].scene_mode_id, 4);
}

#[test]
fn qr_login_flow() {
    assert_eq!(qishui_qr_get(&j(r#"{"ok": false}"#)).err(), Some("QISHUI_QR_CREATE_FAILED".to_string()));
    assert_eq!(qishui_qr_get(&j(r#"{"ok": true, "token": "t"}"#)).err(), Some("汽水音乐二维码数据不完整".to_string()));
    let qr = qishui_qr_get(&j(r#"{"ok": true, "token": "t", "scan_url": "u", "expire_time": 60}"#)).unwrap();
    assert_eq!((qr.token.as_str(), qr.qrcode_url.as_str(), qr.expire_time), ("t", "u", 60));
    assert_eq!(qishui_qr_token("", "kept"), Ok("kept".to_string()));
    assert_eq!(qishui_qr_token("", "").err(), Some("请先获取二维码".to_string()));
    assert_eq!(qishui_qr_status(2, "1"), "expired");
    assert_eq!(qishui_qr_status(0, "2"), "scanned");
    assert_eq!(qishui_qr_status(0, ""), "waiting");
    assert_eq!(qishui_qr_status(0, "other"), "other");
    assert_eq!(qishui_qr_cookie("ttwid=1", Some("sessionid=9")), Some("ttwid=1; sessionid=9".to_string()));
    assert_eq!(qishui_qr_cookie("ttwid=1", None), None);
    let pending = qishui_qr_check(&j(r#"{"confirmed": false, "errorCode": 7}"#), None);
    assert_eq!(pending.status, "rate_limited");
    assert_eq!(pending.error_code, Some(7));
    let cookies = vec![WebCookie { name: "sessionid".to_string(), value: "s".to_string(), domain: Some(".qishui.com".to_string()) }];
    let done = qishui_qr_check(&j(r#"{"confirmed": true}"#), Some(&cookies));
    assert!(done.logged_in && done.ok);
    assert_eq!(done.cookie.as_deref(), Some("sessionid=s"));
    let unread = qishui_qr_check(&j(r#"{"confirmed": true}"#), None);
    assert_eq!(unread.message, "登录确认但 cookie 读取失败");
}

#[test]
fn playback_answers() {
    let missing = qishui_missing_id_reply();
    assert_eq!(missing.reason.as_deref(), Some("missing_id"));
    let local = qishui_decrypted_reply(r"C:\tmp\a.flac", "lossless", 9);
    assert_eq!(local.url.as_deref(), Some("file://C:/tmp/a.flac"));
    let seo = j(r#"{"track_player": {"video_model": "{}"}, "seo_track": {"track": {"duration": 200000, "label_info": {"only_vip_playable": true}, "audition_info": {"duration_ms": 30000}}}}"#);
    assert!(matches!(qishui_seo_video_model(&seo), SeoModel::Text(t) if t == "{}"));
    let model = j(r#"{"video_list": [{"main_url": "m1", "video_meta": {"quality": "medium", "bitrate": 128}}, {"main_url": "m2", "backup_url": "b2", "video_meta": {"quality": "higher", "bitrate": 320}}]}"#);
    let r = qishui_seo_reply(&seo, &model, Some("Lossless"));
    assert_eq!(r.url.as_deref(), Some("m2"));
    assert_eq!(r.backup_url.as_deref(), Some("b2"));
    assert_eq!(r.br, 320);
    assert!(r.trial);
    assert_eq!(r.message, "VIP 歌曲仅 30 秒试听");
    let none = qishui_seo_reply(&seo, &j("{}"), None);
    assert_eq!(none.reason.as_deref(), Some("source_unavailable"));
}

#[test]
fn request_parts() {
    let ps = qishui_pc_params(1000);
    assert_eq!(ps.len(), 21);
    assert_eq!(ps[6], ("device_id".to_string(), "1000".to_string()));
    assert_eq!(ps[8], ("iid".to_string(), "1001".to_string()));
    let q = qishui_query_string(&vec![("a".to_string(), "x y".to_string()), ("b".to_string(), "z".to_string())]);
    assert_eq!(q, "a=x%20y&b=z");
    let url = qishui_signed_url("/luna/pc/track_v2", 5);
    assert!(url.starts_with("https://api.qishui.com/luna/pc/track_v2?aid=386088&"));
    assert!(url.contains("device_id=5&iid=6"));
    let h = qishui_signed_headers("c=1");
    assert_eq!(h.get("cookie").and_then(|v| v.as_str()).map(|s| s.as_str()), Some("c=1"));
    let b = qishui_track_v2_body("t9");
    assert_eq!(b.get("track_id").and_then(|v| v.as_str()).map(|s| s.as_str()), Some("t9"));
    assert_eq!(qishui_lrc_ts(-5), "[00:00.00]");
    assert_eq!(qishui_lrc_ts(754_321), "[12:34.32]");
}

#[test]
fn signing_helper_decisions() {
    assert_eq!(qishui_deps_missing_err(), "QISHUI_DEPS_MISSING: 需下载 Node 包（node.exe + bdms.node + metasecml.dll）");
    assert_eq!(qishui_clean_path(r"\\?\C:\app"), r"C:\app");
    assert_eq!(qishui_clean_path(r"C:\app"), r"C:\app");
    let st = qishui_deps_status(Some("cache"), None, false);
    assert!(st.node_ready && !st.ready && st.bdms_source.is_empty());
    assert!(qishui_deps_download_begin(true).is_err());
    assert!(qishui_deps_wanted("bdms.node"));
    assert!(!qishui_deps_wanted("evil.exe"));
    assert!(qishui_deps_skip_download(true, Some(2 * 1024 * 1024)));
    assert!(!qishui_deps_skip_download(true, Some(10)));
    assert_eq!(qishui_deps_install_outcome(None, 0).err(), Some("Node 包里没有 node.exe / bdms.node / metasecml.dll".to_string()));
    assert!(qishui_deps_install_outcome(None, 1).is_ok());
    assert_eq!(qishui_decrypt_result(&j(r#"{"ok": false}"#)).err(), Some("解密失败".to_string()));
    assert_eq!(qishui_decrypt_result(&j(r#"{"ok": true}"#)).err(), Some("解密未返回文件路径".to_string()));
    let d = qishui_decrypt_result(&j(r#"{"ok": true, "path": "p", "level": "l", "duration": 3}"#)).unwrap();
    assert_eq!((d.path.as_str(), d.level.as_str(), d.duration), ("p", "l", 3));
    assert_eq!(qishui_signed_body(&j(r#"{"status": 200, "body": "{}"}"#)), Ok("{}".to_string()));
    assert_eq!(qishui_signed_body(&j(r#"{"status": 403, "body": "no"}"#)).err(), Some("汽水接口 HTTP 403: no".to_string()));
    assert_eq!(qishui_http_error(500, "oops"), "汽水接口 HTTP 500: oops");
}

#[test]
fn krc_becomes_lrc_and_yrc() {
    let krc = "[1000,2000]<0,500,0>Hel<500,500,0>lo\r\n[5000,1000](5100,300,0)World\n[9000,100]\n[x,1]junk\n";
    let (lrc, yrc) = nexbox::music_api::qishui::qishui_krc_to_lrc(krc);
    assert_eq!(lrc, "[00:01.00]Hello\n[00:05.00]World\n");
    assert_eq!(yrc, "[1000,2000](1000,500,0)Hel(1500,500,0)lo\n[5000,1000](5100,300,0)World\n");
    let (plain, _) = nexbox::music_api::qishui::qishui_krc_to_lrc("[0,10]  just   words ");
    assert_eq!(plain, "[00:00.00]just words\n");
    let lyrics = nexbox::music_api::qishui::qishui_lyric(&j(r#"{"lyric": {"content": "[60000,1]<0,1,0>A", "tlyric": "[60000,1]<0,1,0>B"}}"#));
    assert_eq!(lyrics.lyric, "[01:00.00]A\n");
    assert_eq!(lyrics.translation.as_deref(), Some("[01:00.00]B\n"));
    assert_eq!(lyrics.yrc.as_deref(), Some("[60000,1](60000,1,0)A\n"));
    let empty = nexbox::music_api::qishui::qishui_lyric(&j("{}"));
    assert_eq!(empty.lyric, "");
    assert!(empty.translation.is_none() && empty.yrc.is_none());
}

#[test]
fn account_requests_need_a_login() {
    assert_eq!(qishui_login_gate("ttwid=1; sessionid=abc"), Ok(()));
    assert_eq!(qishui_login_gate("ttwid=1"), Err("汽水音乐未登录".to_string()));
    assert_eq!(qishui_login_gate(""), Err("汽水音乐未登录".to_string()));
}

#[test]
fn profile_is_asked_at_most_three_times() {
    assert_eq!(qishui_profile_step("ttwid=1", 0), ProfileStep::NoLogin);
    assert_eq!(qishui_profile_step("sessionid=abc", 0), ProfileStep::Request { delay_ms: 0 });
    assert_eq!(qishui_profile_step("sessionid=abc", 1), ProfileStep::Request { delay_ms: 700 });
    assert_eq!(qishui_profile_step("sessionid=abc", 2), ProfileStep::Request { delay_ms: 1400 });
    assert_eq!(qishui_profile_step("sessionid=abc", 3), ProfileStep::GiveUp);
}
