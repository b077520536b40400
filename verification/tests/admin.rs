use cmem_server::admin::{
    active_flag_action, admin_flag_action, check_admin_password, check_delete_user, check_max_uses,
    check_patch_keeps_admin, default_one, invite_expiry, invite_row_status, invite_status,
    new_invite_code, page_limit, page_offset, patch_needs_admin_count, pick_filter_user,
    password_from_bytes, rand_password, recent_since, user_filter, validate_admin_new_user,
    PageParams,
};
use cmem_server::error::AppError;
use cmem_server::rows::{InviteRow, UserRow};

fn user(id: &str, is_admin: i64, is_active: i64) -> UserRow {
    UserRow {
        id: id.into(),
        username: id.into(),
        password_hash: "h".into(),
        email: None,
        is_admin,
        is_active,
        created_at: 0,
        last_login_at: None,
        registration_ip: None,
        last_login_ip: None,
    }
}

#[test]
fn paging() {
    let p = PageParams { q: None, limit: None, offset: None };
    assert_eq!(p.limit(), 50);
    assert_eq!(p.offset(), 0);
    let p = PageParams { q: None, limit: Some(10_000), offset: Some(-3) };
    assert_eq!(p.limit(), 500);
    assert_eq!(p.offset(), 0);
    let p = PageParams { q: None, limit: Some(0), offset: Some(7) };
    assert_eq!(p.limit(), 1);
    assert_eq!(p.offset(), 7);
    assert_eq!(page_limit(None, 200, 2000), 200);
    assert_eq!(page_limit(Some(5000), 100, 500), 500);
    assert_eq!(page_offset(Some(-1)), 0);
    assert_eq!(default_one(), 1);
    assert_eq!(recent_since(100_000), 13_600);
}

#[test]
fn invite_status_values() {
    assert_eq!(invite_status(1, 1, None, 10), "exhausted");
    assert_eq!(invite_status(1, 1, Some(5), 10), "exhausted");
    assert_eq!(invite_status(0, 1, Some(10), 10), "expired");
    assert_eq!(invite_status(0, 1, Some(11), 10), "active");
    assert_eq!(invite_status(0, 2, None, 10), "active");
    let row = InviteRow {
        code: "c".into(),
        created_by: None,
        created_at: 0,
        expires_at: Some(5),
        max_uses: 3,
        use_count: 1,
        used_by: None,
        used_at: None,
    };
    assert_eq!(invite_row_status(&row, 6), "expired");
}

#[test]
fn invite_creation() {
    assert!(check_max_uses(1).is_ok());
    assert!(matches!(check_max_uses(0), Err(AppError::Validation(m)) if m == "max_uses must be ≥1"));
    assert_eq!(invite_expiry(1_000, Some(7)), Some(1_000 + 7 * 86_400));
    assert_eq!(invite_expiry(1_000, None), None);
    let code = new_invite_code();
    assert_eq!(code.len(), 32);
}

#[test]
fn new_users() {
    assert!(matches!(validate_admin_new_user("  ", "12345678"), Err(AppError::Validation(m)) if m == "username required"));
    assert!(matches!(validate_admin_new_user("alice", "1234567"), Err(AppError::Validation(m)) if m == "password must be ≥8 chars"));
    assert!(validate_admin_new_user("alice", "12345678").is_ok());
    assert!(check_admin_password("ééééééééé").is_ok());
}

#[test]
fn last_active_admin_is_protected() {
    let only = user("a1", 1, 1);
    assert!(patch_needs_admin_count(&only, Some(false), None));
    assert!(!patch_needs_admin_count(&only, Some(true), Some(true)));
    assert!(matches!(
        check_patch_keeps_admin(&only, Some(false), None, 1),
        Err(AppError::Conflict(m)) if m == "cannot demote/disable the last active admin"
    ));
    assert!(check_patch_keeps_admin(&only, None, Some(false), 2).is_ok());
    assert!(check_patch_keeps_admin(&only, Some(true), None, 1).is_ok());
    let plain = user("u1", 0, 1);
    assert!(check_patch_keeps_admin(&plain, Some(false), Some(false), 1).is_ok());
}

#[test]
fn delete_guards() {
    let only = user("a1", 1, 1);
    assert!(matches!(
        check_delete_user(&only, 1, "a2"),
        Err(AppError::Conflict(m)) if m == "cannot delete the last active admin"
    ));
    let other = user("a1", 1, 1);
    assert!(matches!(
        check_delete_user(&other, 2, "a1"),
        Err(AppError::Conflict(m)) if m == "admin cannot delete self"
    ));
    assert!(check_delete_user(&user("u1", 0, 1), 1, "a1").is_ok());
}

#[test]
fn actions_and_filters() {
    assert_eq!(admin_flag_action(true), "admin.user_promote");
    assert_eq!(admin_flag_action(false), "admin.user_demote");
    assert_eq!(active_flag_action(true), "admin.user_enable");
    assert_eq!(active_flag_action(false), "admin.user_disable");
    assert_eq!(user_filter(Some("  alice ")).as_deref(), Some("alice"));
    assert_eq!(user_filter(Some("   ")), None);
    assert_eq!(pick_filter_user(Some("id1".into()), Some("id2".into())).as_deref(), Some("id1"));
    assert_eq!(pick_filter_user(None, Some("id2".into())).as_deref(), Some("id2"));
}

#[test]
fn generated_passwords() {
    let p = rand_password();
    assert_eq!(p.chars().count(), 18);
    assert!(p.chars().all(|c| c.is_ascii_alphanumeric() || c == '-' || c == '_'));
}

#[test]
fn password_bytes_pick_characters_modulo_64() {
    let bytes: Vec<u8> = (0u8..18).collect();
    assert_eq!(password_from_bytes(&bytes), "ABCDEFGHIJKLMNOPQR");
    let mut high = vec![64u8; 18];
    high[0] = 255;
    high[1] = 62;
    high[2] = 127;
    assert_eq!(password_from_bytes(&high), "_-_AAAAAAAAAAAAAAA");
}
