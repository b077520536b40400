use cmem_server::i18n::{
    native_name,
    hex_val, pick_lang, url_decode_simple, load_all, lookup, match_browser_lang, pick_from_accept_language, Catalog, LangCtx,
};

fn catalog() -> Catalog {
    let sources = vec![
        (
            "en".to_string(),
            r#"{"nav.dashboard": "Dashboard", "nav.users": "Users", "users.confirm.delete": "Delete user {username}? This cannot be undone."}"#
                .to_string(),
        ),
        (
            "zh".to_string(),
            r#"{"nav.dashboard": "仪表盘", "nav.users": "用户", "users.confirm.delete": "确定删除用户 {username} 吗?"}"#
                .to_string(),
        ),
        ("ar".to_string(), r#"{"nav.dashboard": "لوحة التحكم"}"#.to_string()),
    ];
    load_all(&sources).expect("tables parse")
}

#[test]
fn english_loads() {
    let cat = catalog();
    let ctx = LangCtx::new("en");
    assert_eq!(ctx.t(&cat, "nav.dashboard"), "Dashboard");
}

#[test]
fn chinese_loads() {
    let cat = catalog();
    let ctx = LangCtx::new("zh");
    assert_eq!(ctx.t(&cat, "nav.dashboard"), "仪表盘");
    assert_eq!(ctx.dir, "ltr");
}

#[test]
fn arabic_is_rtl() {
    let ctx = LangCtx::new("ar");
    assert_eq!(ctx.dir, "rtl");
}

#[test]
fn unknown_lang_falls_back_to_en() {
    let ctx = LangCtx::new("xx");
    assert_eq!(ctx.lang, "en");
}

#[test]
fn missing_key_falls_back_to_en() {
    let cat = catalog();
    assert_eq!(lookup(&cat, "en", "nav.users"), "Users");
    assert_ne!(lookup(&cat, "zh", "nav.users"), "Users");
}

#[test]
fn browser_lang_match() {
    assert_eq!(match_browser_lang("zh-CN"), "zh");
    assert_eq!(match_browser_lang("pt-PT"), "pt-br");
    assert_eq!(match_browser_lang("en-US"), "en");
    assert_eq!(match_browser_lang("xx-YY"), "en");
    assert_eq!(match_browser_lang("zh-TW"), "zh-tw");
}

#[test]
fn accept_language_picks_first_supported() {
    assert_eq!(pick_from_accept_language("zh-CN,zh;q=0.9,en;q=0.8"), "zh");
    assert_eq!(pick_from_accept_language("xx-YY,ja-JP;q=0.9,en;q=0.8"), "ja");
}

#[test]
fn tf_substitutes_params() {
    let cat = catalog();
    let ctx = LangCtx::new("en");
    let s = ctx.tf(&cat, "users.confirm.delete", &[("username", "alice")]);
    assert!(s.contains("alice"));
    assert!(!s.contains("{username}"));
}

#[test]
fn key_missing_everywhere_reads_as_itself() {
    let cat = catalog();
    assert_eq!(lookup(&cat, "zh", "no.such.key"), "no.such.key");
    // A key the Arabic table lacks comes from the English table.
    assert_eq!(lookup(&cat, "ar", "nav.users"), "Users");
}

#[test]
fn t1_substitutes_one_param() {
    let cat = catalog();
    let ctx = LangCtx::new("zh");
    assert_eq!(ctx.t1(&cat, "users.confirm.delete", "username", "bob"), "确定删除用户 bob 吗?");
}

#[test]
fn load_all_refuses_a_broken_table() {
    let sources = vec![
        ("en".to_string(), r#"{"a": "b"}"#.to_string()),
        ("zh".to_string(), "not json".to_string()),
    ];
    assert!(load_all(&sources).is_none());
}

#[test]
fn later_table_of_a_language_wins() {
    let mut cat = Catalog::new();
    assert!(cat.load_json("en", r#"{"k": "old"}"#));
    assert!(cat.load_json("en", r#"{"k": "new"}"#));
    assert_eq!(lookup(&cat, "en", "k"), "new");
}

#[test]
fn all_langs_lists_every_supported_language() {
    let ctx = LangCtx::new("fr");
    let langs = ctx.all_langs();
    assert_eq!(langs.len(), 31);
    assert_eq!(langs[0].0, "en");
    assert!(langs.iter().any(|(code, _)| *code == "he"));
}

#[test]
fn hebrew_and_urdu_are_rtl_french_is_not() {
    assert_eq!(LangCtx::new("he").dir, "rtl");
    assert_eq!(LangCtx::new("ur").dir, "rtl");
    assert_eq!(LangCtx::new("fr").dir, "ltr");
}

#[test]
fn lang_priority_query_then_cookie_then_header() {
    assert_eq!(pick_lang(Some("x=1&lang=ja"), Some("cmem_admin_lang=fr"), Some("de")), "ja");
    assert_eq!(pick_lang(Some("x=1"), Some("a=b; cmem_admin_lang=fr"), Some("de")), "fr");
    assert_eq!(pick_lang(None, None, Some("de-DE,en;q=0.5")), "de");
    assert_eq!(pick_lang(None, None, None), "en");
    assert_eq!(pick_lang(Some("lang=zh%2Dtw"), None, None), "zh-tw");
}

#[test]
fn url_decoding_of_lang_codes() {
    let d: String = url_decode_simple("pt%2Dbr+x").into_iter().collect();
    assert_eq!(d, "pt-br x");
    let bad: String = url_decode_simple("%zz").into_iter().collect();
    assert_eq!(bad, "%zz");
    assert_eq!(hex_val(b'F'), Some(15));
    assert_eq!(hex_val(b'g'), None);
}

#[test]
fn lang_cookie_among_other_cookies_decides() {
    let header = "cmem_admin_csrf=abc; cmem_admin_lang=zh; cmem_admin_session=jwt";
    assert_eq!(pick_lang(None, Some(header), Some("fr-FR,fr;q=0.9")), "zh");
    assert_eq!(pick_lang(Some("lang=ja"), Some(header), None), "ja");
}

#[test]
fn native_name_of_unknown_code_is_the_code() {
    assert_eq!(native_name("zh"), "中文");
    assert_eq!(native_name("xx"), "xx");
}

#[test]
fn accept_language_ranks_by_q() {
    assert_eq!(pick_from_accept_language("en;q=0.1,ja;q=0.9"), "ja");
    assert_eq!(pick_from_accept_language("de;q=0.5,fr;q=0.5"), "de");
    assert_eq!(pick_from_accept_language("fr;q=0,ko;q=0.001"), "ko");
    assert_eq!(pick_from_accept_language("ja;q=abc,ko;Q=1.000"), "ko");
    assert_eq!(pick_from_accept_language("fr;q=0"), "en");
    assert_eq!(pick_from_accept_language("zh-CN, ja;level=1;q=0.8"), "zh");
}
