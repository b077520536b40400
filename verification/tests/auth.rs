use cmem_server::auth::{
    admin_failure, admin_gate, admin_token, extract_bearer, login_account, machine_registrant,
    principal_from_claims, require_owner, validate_email, validate_machine_name,
    validate_machine_description, validate_password, validate_username, wants_html, AdminDenial,
    AdminFailure, Claims, Principal, TokenKind,
};
use cmem_server::error::AppError;
use cmem_server::rows::UserRow;

fn user(is_admin: i64, is_active: i64) -> UserRow {
    UserRow {
        id: "u1".to_string(),
        username: "alice".to_string(),
        password_hash: "h".to_string(),
        email: None,
        is_admin,
        is_active,
        created_at: 0,
        last_login_at: None,
        registration_ip: None,
        last_login_ip: None,
    }
}

fn validation_message(r: Result<(), AppError>) -> String {
    match r {
        Err(AppError::Validation(m)) => m,
        other => panic!("expected a validation error, got {other:?}"),
    }
}

#[test]
fn usernames() {
    assert!(validate_username("alice_01-x").is_ok());
    assert_eq!(validation_message(validate_username("ab")), "username length must be 3..=64");
    assert_eq!(validation_message(validate_username(&"a".repeat(65))), "username length must be 3..=64");
    assert_eq!(validation_message(validate_username("alice!")), "username allows [a-zA-Z0-9_-] only");
}

#[test]
fn passwords_and_email() {
    assert!(validate_password("12345678").is_ok());
    assert_eq!(validation_message(validate_password("1234567")), "password length must be 8..=1024");
    assert!(validate_email(Some(&"a".repeat(320))).is_ok());
    assert_eq!(validation_message(validate_email(Some(&"a".repeat(321)))), "email too long");
    assert!(validate_email(None).is_ok());
}

#[test]
fn machine_names() {
    assert!(validate_machine_name("alice-mac.local").is_ok());
    assert_eq!(validation_message(validate_machine_name("")), "machine name length must be 1..=64");
    assert_eq!(validation_message(validate_machine_name("a b")), "machine name allows [a-zA-Z0-9._-] only");
    assert_eq!(validation_message(validate_machine_description(Some(&"d".repeat(257)))), "description too long");
    assert!(validate_machine_description(Some(&"d".repeat(256))).is_ok());
}

#[test]
fn bearer_extraction() {
    assert_eq!(extract_bearer(Some("Bearer abc")).unwrap(), "abc");
    assert_eq!(extract_bearer(Some("bearer abc")).unwrap(), "abc");
    assert_eq!(extract_bearer(Some("Bearer ")), Err(AppError::Unauthorized));
    assert_eq!(extract_bearer(Some("Basic abc")), Err(AppError::Unauthorized));
    assert_eq!(extract_bearer(None), Err(AppError::Unauthorized));
}

#[test]
fn only_access_tokens_authenticate() {
    let c = Claims { sub: "u1".into(), kind: TokenKind::Access, iat: 0, exp: 60, mid: Some("m1".into()) };
    match principal_from_claims(c).unwrap() {
        Principal::User { user_id, machine_id } => {
            assert_eq!(user_id, "u1");
            assert_eq!(machine_id.as_deref(), Some("m1"));
        }
        other => panic!("unexpected {other:?}"),
    }
    let r = Claims { sub: "u1".into(), kind: TokenKind::Refresh, iat: 0, exp: 60, mid: None };
    assert!(matches!(principal_from_claims(r), Err(AppError::Unauthorized)));
}

#[test]
fn login_needs_an_active_account() {
    assert!(login_account(Some(user(0, 1))).is_ok());
    assert_eq!(login_account(Some(user(0, 0))).unwrap_err(), AppError::InvalidCredentials);
    assert_eq!(login_account(None).unwrap_err(), AppError::InvalidCredentials);
}

#[test]
fn machines_register_only_through_users() {
    let u = Principal::User { user_id: "u1".into(), machine_id: None };
    assert_eq!(machine_registrant(&u).unwrap(), "u1");
    let m = Principal::Machine { user_id: "u1".into(), machine_id: "m1".into() };
    assert_eq!(machine_registrant(&m).unwrap_err(), AppError::Forbidden);
    assert_eq!(m.user_id(), "u1");
    assert!(require_owner("u1", "u1").is_ok());
    assert_eq!(require_owner("u1", "u2").unwrap_err(), AppError::Forbidden);
}

#[test]
fn admin_gate_rules() {
    let a = admin_gate(true, Some(user(1, 1))).unwrap();
    assert_eq!(a.user_id, "u1");
    assert_eq!(a.username, "alice");
    assert_eq!(admin_gate(true, Some(user(0, 1))).unwrap_err(), AdminDenial::NotAllowed);
    assert_eq!(admin_gate(true, Some(user(1, 0))).unwrap_err(), AdminDenial::NotAllowed);
    assert_eq!(admin_gate(true, None).unwrap_err(), AdminDenial::Unauthenticated);
    assert_eq!(admin_gate(false, Some(user(1, 1))).unwrap_err(), AdminDenial::Unauthenticated);
}

#[test]
fn admin_token_prefers_cookie() {
    assert_eq!(admin_token(Some("cmem_admin_session=jwt1"), Some("Bearer jwt2")).as_deref(), Some("jwt1"));
    assert_eq!(admin_token(Some("x=1"), Some("Bearer jwt2")).as_deref(), Some("jwt2"));
    assert_eq!(admin_token(None, None), None);
}

#[test]
fn turned_away_requests() {
    assert!(wants_html(Some("text/html,application/xhtml+xml")));
    assert!(!wants_html(Some("application/json")));
    assert!(!wants_html(None));
    assert_eq!(admin_failure(true, true, AdminDenial::Unauthenticated), AdminFailure::RedirectToLogin);
    assert_eq!(admin_failure(true, true, AdminDenial::NotAllowed), AdminFailure::HtmlError(403));
    assert_eq!(admin_failure(true, false, AdminDenial::Unauthenticated), AdminFailure::Api(AppError::Unauthorized));
    assert_eq!(admin_failure(false, true, AdminDenial::NotAllowed), AdminFailure::Api(AppError::Forbidden));
}
