use nexbox::music_api::login_popup_should_close;

#[test]
fn qq_redirect_chain_closes_only_at_end() {
    assert!(
        !login_popup_should_close(
            "https://graph.qq.com/oauth2.0/show?which=ConfirmPage&display=pc&client_id=100243533"
        ),
        "QQ 授权页不应被关闭"
    );
    assert!(
        login_popup_should_close("https://music.163.com/back/qq?code=xxx"),
        "回到网易云域名后应关闭"
    );
    assert!(
        login_popup_should_close("https://y.qq.com/portal/profile.html"),
        "回到 QQ 音乐域名后应关闭"
    );
    assert!(
        login_popup_should_close("https://www.kugou.com/"),
        "回到酷狗主站后应关闭"
    );
}

#[test]
fn other_third_party_domains_stay_open() {
    let cases = [
        "https://open.weixin.qq.com/connect/qrconnect?appid=wx41c1275bb3e28427",
        "https://api.weibo.com/oauth2/authorize?client_id=2972927130",
        "https://xui.ptlogin2.qq.com/cgi-bin/xlogin",
    ];
    for c in cases {
        assert!(!login_popup_should_close(c), "第三方授权域不应被关闭: {c}");
    }
}

#[test]
fn blank_and_hostless_urls_stay_open() {
    assert!(!login_popup_should_close("about:blank"));
}

#[test]
fn lookalike_domains_are_not_treated_as_platform() {
    for c in [
        "https://163.com.evil.com/callback",
        "https://notkugou.com/callback",
        "https://fakemigu.cn.evil.com/callback",
    ] {
        assert!(!login_popup_should_close(c), "相似域名不应被误判: {c}");
    }
}
