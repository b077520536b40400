use cmem_server::config::{
    default_api_rate_per_minute, default_login_rate_per_minute, default_trusted_proxies,
    default_true, AppConfig, SecurityConfig,
};
use cmem_server::ratelimit::{governor_params, GovernorBuildError};
use cmem_server::tokens::decode_jwt_secret;

#[test]
fn default_jwt_secret_is_filled() {
    let mut cfg = AppConfig::default();
    assert!(cfg.needs_jwt_secret());
    assert!(cfg.fill_jwt_secret());
    assert_eq!(cfg.auth.jwt_secret.len(), 64);
    assert_ne!(cfg.auth.jwt_secret, "");
}

#[test]
fn filled_secret_is_a_usable_key() {
    let mut cfg = AppConfig::default();
    assert!(cfg.fill_jwt_secret());
    let key = decode_jwt_secret(&cfg.auth.jwt_secret).expect("a generated secret decodes");
    assert_eq!(key.len(), 32);
    assert!(!cfg.needs_jwt_secret());
    assert!(!cfg.fill_jwt_secret());
}

#[test]
fn configured_secret_is_kept() {
    let mut cfg = AppConfig::default();
    cfg.auth.jwt_secret = "abcd".to_string();
    assert!(!cfg.fill_jwt_secret());
    assert_eq!(cfg.auth.jwt_secret, "abcd");
    cfg.auth.jwt_secret = "  \t".to_string();
    assert!(cfg.fill_jwt_secret());
    assert_eq!(cfg.auth.jwt_secret.len(), 64);
}

#[test]
fn defaults() {
    let cfg = AppConfig::default();
    assert_eq!(cfg.server.bind, "0.0.0.0:8080");
    assert_eq!(cfg.database.path, "./cmem-server.db");
    assert_eq!(cfg.auth.access_token_ttl_secs, 900);
    assert_eq!(cfg.auth.refresh_token_ttl_secs, 2_592_000);
    assert_eq!(cfg.auth.machine_token_ttl_secs, 15_552_000);
    assert_eq!(cfg.auth.argon2_memory_kib, 19_456);
    assert_eq!(cfg.auth.argon2_iterations, 2);
    assert_eq!(cfg.auth.argon2_parallelism, 1);
    assert!(!cfg.auth.require_invite);
    let sec = SecurityConfig::default();
    assert_eq!(sec.trusted_proxies, vec!["127.0.0.1/32".to_string(), "::1/128".to_string()]);
    assert_eq!(sec.login_rate_per_minute, 5);
    assert_eq!(sec.api_rate_per_minute, 60);
    assert!(sec.csrf_enabled);
    assert_eq!(default_trusted_proxies().len(), 2);
    assert_eq!(default_login_rate_per_minute(), 5);
    assert_eq!(default_api_rate_per_minute(), 60);
    assert!(default_true());
}

#[test]
fn build_with_zero_fails() {
    assert!(matches!(governor_params(0), Err(GovernorBuildError::InvalidRate)));
}

#[test]
fn build_with_positive_succeeds() {
    assert_eq!(governor_params(5), Ok((12_000, 5)));
    assert_eq!(governor_params(60), Ok((1_000, 60)));
    assert_eq!(governor_params(120_000), Ok((1, 120_000)));
    assert_eq!(
        GovernorBuildError::InvalidRate.message(),
        "invalid rate limit: requests per minute must be > 0"
    );
}
