use cmem_server::error::{validation, AppError};
use cmem_server::projects::{check_text_len, name_taken, patch_action, rename_needs_check, validate_name};

#[test]
fn codes_and_statuses() {
    assert_eq!(AppError::Validation("x".into()).code_status(), ("VALIDATION_FAILED", 400));
    assert_eq!(AppError::InvalidCredentials.code_status(), ("INVALID_CREDENTIALS", 401));
    assert_eq!(AppError::Forbidden.code_status(), ("FORBIDDEN", 403));
    assert_eq!(AppError::Conflict("c".into()).code_status(), ("CONFLICT", 409));
    assert_eq!(AppError::RateLimited.code_status(), ("RATE_LIMITED", 429));
    assert_eq!(AppError::Db("d".into()).code_status(), ("INTERNAL", 500));
}

#[test]
fn internal_details_stay_private() {
    assert_eq!(AppError::Internal("secret".into()).public_message(), "internal server error");
    assert_eq!(AppError::Internal("secret".into()).text(), "internal: secret");
    assert_eq!(validation("bad").public_message(), "validation failed: bad");
}

#[test]
fn project_names() {
    assert_eq!(validate_name("Research 2026").unwrap(), "research-2026");
    assert!(matches!(validate_name("!!!"), Err(AppError::Validation(m)) if m == "project name normalizes to empty"));
    assert!(matches!(validate_name(&"a".repeat(129)), Err(AppError::Validation(m)) if m == "project name too long"));
    assert_eq!(name_taken("x"), AppError::Conflict("project 'x' already exists".into()));
    assert!(rename_needs_check("a", "b"));
    assert!(!rename_needs_check("a", "a"));
    assert_eq!(patch_action(Some(true)), "project.exclude");
    assert_eq!(patch_action(Some(false)), "project.update");
    assert!(check_text_len(Some(&"d".repeat(1025)), 1024, "description too long").is_err());
    assert!(check_text_len(None, 1024, "description too long").is_ok());
}
