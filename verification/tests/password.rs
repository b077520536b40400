use cmem_server::config::AppConfig;
use cmem_server::error::AppError;
use cmem_server::password::{hash_password, verify_password};

fn fast_cfg() -> cmem_server::config::AuthConfig {
    let mut cfg = AppConfig::default().auth;
    cfg.jwt_secret = "x".to_string();
    cfg.access_token_ttl_secs = 60;
    cfg.refresh_token_ttl_secs = 600;
    cfg.machine_token_ttl_secs = 6000;
    cfg.argon2_memory_kib = 8;
    cfg.argon2_iterations = 1;
    cfg.argon2_parallelism = 1;
    cfg
}

#[test]
fn hash_then_verify_succeeds() {
    let cfg = fast_cfg();
    let hash = hash_password("super-secret-pw", &cfg).unwrap();
    assert!(verify_password("super-secret-pw", &hash).unwrap());
    assert!(!verify_password("wrong-pw", &hash).unwrap());
}

#[test]
fn hash_is_unique_due_to_salt() {
    let cfg = fast_cfg();
    let h1 = hash_password("same-pw", &cfg).unwrap();
    let h2 = hash_password("same-pw", &cfg).unwrap();
    assert_ne!(h1, h2);
}

#[test]
fn refused_costs_are_internal_errors() {
    let mut cfg = fast_cfg();
    cfg.argon2_memory_kib = 4;
    assert!(matches!(hash_password("pw", &cfg), Err(AppError::Internal(_))));
    let mut cfg = fast_cfg();
    cfg.argon2_iterations = 0;
    assert!(matches!(hash_password("pw", &cfg), Err(AppError::Internal(_))));
}

#[test]
fn garbage_stored_hash_is_an_error() {
    assert!(matches!(verify_password("pw", "not-a-phc-string"), Err(AppError::Internal(_))));
}

#[test]
fn hash_records_argon2id_and_the_configured_costs() {
    let mut cfg = fast_cfg();
    cfg.argon2_memory_kib = 64;
    cfg.argon2_iterations = 3;
    cfg.argon2_parallelism = 2;
    let hash = hash_password("pw", &cfg).unwrap();
    assert!(hash.starts_with("$argon2id$v=19$m=64,t=3,p=2$"), "{hash}");
}
