use cmem_server::cookies::cookie_value;
use cmem_server::csrf::{
    csrf_allows, csrf_set_cookie, existing_csrf_token, extract_csrf_from_form, is_state_changing,
    CsrfToken, CSRF_COOKIE_NAME, CSRF_FORM_FIELD,
};
use cmem_server::tokens::generate_csrf_token;

#[test]
fn extract_finds_csrf_field() {
    let body = b"username=alice&_csrf=deadbeef&password=x";
    assert_eq!(extract_csrf_from_form(body).as_deref(), Some("deadbeef"));
}

#[test]
fn extract_when_csrf_first() {
    let body = b"_csrf=abc123&x=y";
    assert_eq!(extract_csrf_from_form(body).as_deref(), Some("abc123"));
}

#[test]
fn extract_returns_none_when_missing() {
    let body = b"username=alice&password=x";
    assert!(extract_csrf_from_form(body).is_none());
}

#[test]
fn cookie_value_parses() {
    let got: Option<String> =
        cookie_value("a=1; cmem_admin_csrf=tok123; b=2", CSRF_COOKIE_NAME).map(|v| v.into_iter().collect());
    assert_eq!(got.as_deref(), Some("tok123"));
}

#[test]
fn token_has_expected_length() {
    let t = generate_csrf_token();
    assert_eq!(t.len(), 64);
    assert!(t.chars().all(|c| c.is_ascii_hexdigit()));
}

#[test]
fn non_utf8_form_has_no_token() {
    assert!(extract_csrf_from_form(&[0xff, 0xfe, b'_']).is_none());
}

#[test]
fn double_submit_rule() {
    // Safe methods always pass.
    assert!(csrf_allows(true, false, "tok", None));
    // State-changing requests must echo the cookie token.
    assert!(csrf_allows(true, true, "tok", Some("tok")));
    assert!(!csrf_allows(true, true, "tok", Some("abc123def456")));
    assert!(!csrf_allows(true, true, "tok", None));
    // Protection switched off lets everything through.
    assert!(csrf_allows(false, true, "tok", None));
}

#[test]
fn methods_that_change_state() {
    for m in ["POST", "PUT", "PATCH", "DELETE"] {
        assert!(is_state_changing(m));
    }
    for m in ["GET", "HEAD", "OPTIONS", "post"] {
        assert!(!is_state_changing(m));
    }
}

#[test]
fn existing_token_comes_from_the_cookie() {
    assert_eq!(existing_csrf_token(Some("x=1; cmem_admin_csrf=abc")).as_deref(), Some("abc"));
    assert_eq!(existing_csrf_token(Some("cmem_admin_csrf=")), None);
    assert_eq!(existing_csrf_token(Some("other=1")), None);
    assert_eq!(existing_csrf_token(None), None);
}

#[test]
fn set_cookie_value() {
    assert_eq!(
        csrf_set_cookie("abc"),
        "cmem_admin_csrf=abc; HttpOnly; Path=/admin; Max-Age=86400; SameSite=Strict"
    );
    assert_eq!(CSRF_FORM_FIELD, "_csrf");
    assert_eq!(CsrfToken("t1".to_string()).as_str(), "t1");
}

#[test]
fn issued_cookie_is_read_back() {
    let token = generate_csrf_token();
    let set = csrf_set_cookie(&token);
    let pair = set.split(';').next().expect("a cookie pair");
    assert_eq!(pair, format!("cmem_admin_csrf={token}"));
    let header = format!("cmem_admin_lang=zh; {pair}; cmem_admin_csrf=later");
    assert_eq!(existing_csrf_token(Some(&header)).as_deref(), Some(token.as_str()));
}
