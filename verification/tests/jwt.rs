use cmem_server::auth::TokenKind;
use cmem_server::error::AppError;
use cmem_server::jwt::{access_claims, decode_token, encode_token, kind_of, kind_text};
use cmem_server::tokens::decode_jwt_secret;

fn secret() -> Vec<u8> {
    decode_jwt_secret(&"a".repeat(64)).expect("32 bytes")
}

#[test]
fn access_token_roundtrip() {
    let key = secret();
    let now = 1_700_000_000;
    let claims = access_claims("user-1", None, now, 60);
    let tok = encode_token(&key, &claims);
    let back = decode_token(&key, &tok, now).expect("a fresh token decodes");
    assert_eq!(back.sub, "user-1");
    assert_eq!(back.kind, TokenKind::Access);
    assert_eq!(back.exp, now + 60);
    assert_eq!(back.iat, now);
    assert_eq!(back.mid, None);
}

#[test]
fn machine_bound_token_keeps_its_machine() {
    let key = secret();
    let claims = access_claims("u", Some("m-1"), 1000, 900);
    let back = decode_token(&key, &encode_token(&key, &claims), 1000).expect("decodes");
    assert_eq!(back.mid.as_deref(), Some("m-1"));
}

#[test]
fn expiry_has_a_minute_of_leeway() {
    let key = secret();
    let claims = access_claims("u", None, 1000, 100);
    let tok = encode_token(&key, &claims);
    assert!(decode_token(&key, &tok, 1160).is_ok());
    assert_eq!(decode_token(&key, &tok, 1161).map(|c| c.sub), Err(AppError::Unauthorized));
}

#[test]
fn wrong_secret_or_garbage_is_unauthorized() {
    let key = secret();
    let tok = encode_token(&key, &access_claims("u", None, 1000, 100));
    let other = decode_jwt_secret(&"b".repeat(64)).expect("32 bytes");
    assert_eq!(decode_token(&other, &tok, 1000).map(|c| c.sub), Err(AppError::Unauthorized));
    assert_eq!(decode_token(&key, "not.a.token", 1000).map(|c| c.sub), Err(AppError::Unauthorized));
}

#[test]
fn kinds_are_written_in_snake_case() {
    assert_eq!(kind_text(TokenKind::Refresh), "refresh");
    assert_eq!(kind_of("access"), Some(TokenKind::Access));
    assert_eq!(kind_of("Access"), None);
}
