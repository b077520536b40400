use cmem_server::pages::{
    admin_logout_cookie, admin_session_cookie, active_badge, admin_badge, fmt_opt_ts, fmt_ts, invite_badge, invite_page_row,
    is_login_history, login_history_row, preview, session_max_age, web_login_account, yes_no,
    InviteRow,
};
use cmem_server::rows::{AuditRow, InviteRow as StoredInvite, UserRow};

#[test]
fn timestamps() {
    assert_eq!(fmt_ts(0), "1970-01-01 00:00:00 UTC");
    assert_eq!(fmt_ts(1_700_000_000), "2023-11-14 22:13:20 UTC");
    assert_eq!(fmt_ts(i64::MAX), "1970-01-01 00:00:00 UTC");
    assert_eq!(fmt_opt_ts(None), "-");
    assert_eq!(fmt_opt_ts(Some(0)), "1970-01-01 00:00:00 UTC");
}

#[test]
fn previews() {
    assert_eq!(preview("short", 200), "short");
    assert_eq!(preview("abcdef", 3), "abc…");
    assert_eq!(preview("研究项目", 2), "研究…");
}

#[test]
fn labels() {
    assert_eq!(yes_no(true), "yes");
    assert_eq!(yes_no(false), "no");
    assert_eq!(admin_badge(true), "bg-yellow-100 text-yellow-800");
    assert_eq!(active_badge(false), "bg-red-100 text-red-800");
    assert_eq!(invite_badge("expired"), "bg-orange-100 text-orange-800");
    assert_eq!(invite_badge("exhausted"), "bg-gray-100 text-gray-700");
    assert_eq!(invite_badge("active"), "bg-green-100 text-green-800");
}

#[test]
fn invite_rows_and_status_keys() {
    let stored = StoredInvite {
        code: "c1".into(),
        created_by: None,
        created_at: 0,
        expires_at: None,
        max_uses: 1,
        use_count: 1,
        used_by: Some("bob".into()),
        used_at: None,
    };
    let row = invite_page_row(&stored, 10);
    assert_eq!(row.status, "exhausted");
    assert_eq!(row.status_key(), "invites.status.exhausted");
    assert_eq!(row.expires, "-");
    assert_eq!(row.used_by, "bob");
    let odd = InviteRow {
        code: String::new(),
        max_uses: 0,
        use_count: 0,
        status: "weird",
        status_class: "",
        created: String::new(),
        expires: String::new(),
        used_by: String::new(),
    };
    assert_eq!(odd.status_key(), "invites.status.active");
}

#[test]
fn login_history() {
    assert!(is_login_history("auth.login"));
    assert!(is_login_history("auth.password_change"));
    assert!(!is_login_history("auth.other"));
    let a = AuditRow {
        id: 1,
        user_id: None,
        machine_id: None,
        action: "auth.refresh".into(),
        target_type: None,
        target_id: None,
        created_at: 0,
    };
    let h = login_history_row(&a).unwrap();
    assert_eq!(h.action, "auth.refresh");
    assert_eq!(h.ip, "-");
}

#[test]
fn web_login_needs_active_admin() {
    let mut u = UserRow {
        id: "a".into(),
        username: "a".into(),
        password_hash: "h".into(),
        email: None,
        is_admin: 1,
        is_active: 1,
        created_at: 0,
        last_login_at: None,
        registration_ip: None,
        last_login_ip: None,
    };
    assert!(web_login_account(Some(u.clone())).is_some());
    u.is_admin = 0;
    assert!(web_login_account(Some(u)).is_none());
    assert!(web_login_account(None).is_none());
    assert_eq!(session_max_age(10), 60);
    assert_eq!(session_max_age(900), 900);
}

#[test]
fn session_cookies() {
    assert_eq!(
        admin_session_cookie("jwt", 900),
        "cmem_admin_session=jwt; HttpOnly; Path=/; Max-Age=900; SameSite=Strict"
    );
    assert_eq!(admin_logout_cookie(), "cmem_admin_session=; HttpOnly; Path=/; Max-Age=0; SameSite=Strict");
}

#[test]
fn session_cookie_is_read_back_by_the_gate() {
    let set = admin_session_cookie("jwt-abc", 900);
    let pair = set.split(';').next().expect("a cookie pair");
    assert_eq!(pair, "cmem_admin_session=jwt-abc");
    let header = format!("cmem_admin_lang=en; {pair}");
    assert_eq!(
        cmem_server::auth::admin_token(Some(&header), Some("Bearer other")).as_deref(),
        Some("jwt-abc")
    );
}

#[test]
fn blank_login_username_is_a_validation_error() {
    let blank = cmem_server::pages::LoginForm { username: String::new(), password: "irrelevant".into() };
    assert_eq!(
        cmem_server::pages::check_login_form(&blank),
        Err(cmem_server::error::AppError::Validation("username required".into()))
    );
    let named = cmem_server::pages::LoginForm { username: "root".into(), password: String::new() };
    assert_eq!(cmem_server::pages::check_login_form(&named), Ok(()));
}

#[test]
fn the_four_login_failures_answer_alike() {
    let mut cfg = cmem_server::config::AppConfig::default().auth;
    cfg.argon2_memory_kib = 8;
    cfg.argon2_iterations = 1;
    cfg.argon2_parallelism = 1;
    let hash = cmem_server::password::hash_password("right-pw", &cfg).unwrap();
    let admin = UserRow {
        id: "a".into(),
        username: "root".into(),
        password_hash: hash,
        email: None,
        is_admin: 1,
        is_active: 1,
        created_at: 0,
        last_login_at: None,
        registration_ip: None,
        last_login_ip: None,
    };
    assert_eq!(cmem_server::pages::web_login(Some(admin.clone()), "right-pw").map(|u| u.id), Ok("a".to_string()));
    assert_eq!(cmem_server::pages::web_login(None, "right-pw").map(|u| u.id), Err(cmem_server::error::AppError::InvalidCredentials));
    let mut inactive = admin.clone();
    inactive.is_active = 0;
    assert_eq!(cmem_server::pages::web_login(Some(inactive), "right-pw").map(|u| u.id), Err(cmem_server::error::AppError::InvalidCredentials));
    let mut plain = admin.clone();
    plain.is_admin = 0;
    assert_eq!(cmem_server::pages::web_login(Some(plain), "right-pw").map(|u| u.id), Err(cmem_server::error::AppError::InvalidCredentials));
    assert_eq!(cmem_server::pages::web_login(Some(admin.clone()), "wrong-pw").map(|u| u.id), Err(cmem_server::error::AppError::InvalidCredentials));
    let mut broken = admin;
    broken.password_hash = "not a phc string".into();
    assert!(matches!(cmem_server::pages::web_login(Some(broken), "right-pw"), Err(cmem_server::error::AppError::Internal(_))));
}
