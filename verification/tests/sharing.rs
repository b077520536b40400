use cmem_server::error::AppError;
use cmem_server::rows::ShareRow;
use cmem_server::sharing::{
    check_not_self_share, new_share_token, notice_names, plan_share_patch, share_expiry,
    share_insert_error, share_request_mode, share_target_username, share_update_action, share_url,
};

fn share(mode: &str, target_user: Option<&str>) -> ShareRow {
    ShareRow {
        id: "s1".into(),
        project_id: "p1".into(),
        sharer_user_id: "alice".into(),
        target_type: if target_user.is_some() { "user".into() } else { "public".into() },
        target_user_id: target_user.map(str::to_string),
        share_token: None,
        share_mode: mode.into(),
        expires_at: None,
        created_at: 0,
        revoked_at: None,
    }
}

#[test]
fn link_share_forced_to_read_only() {
    assert_eq!(share_request_mode("link", "fork-allowed").unwrap(), "read-only");
    assert_eq!(share_request_mode("link", "garbage").unwrap(), "read-only");
    assert_eq!(share_request_mode("user", "fork-allowed").unwrap(), "fork-allowed");
}

#[test]
fn bad_targets_and_modes_are_refused() {
    match share_request_mode("group", "read-only") {
        Err(AppError::Validation(m)) => assert_eq!(m, r#"target_type must be one of ["user", "public", "link"]"#),
        other => panic!("unexpected {other:?}"),
    }
    match share_request_mode("public", "write") {
        Err(AppError::Validation(m)) => {
            assert_eq!(m, r#"share_mode must be one of ["read-only", "fork-allowed", "auto-copy"]"#)
        }
        other => panic!("unexpected {other:?}"),
    }
}

#[test]
fn user_targets() {
    assert_eq!(share_target_username(Some("bob")).unwrap(), "bob");
    assert!(matches!(share_target_username(None), Err(AppError::Validation(m)) if m == "target_username required"));
    assert!(check_not_self_share("bob", "alice").is_ok());
    assert!(matches!(check_not_self_share("alice", "alice"), Err(AppError::Validation(m)) if m == "cannot share a project to yourself"));
}

#[test]
fn link_tokens_and_urls() {
    let t = new_share_token();
    assert_eq!(t.chars().count(), 32);
    assert_eq!(share_url("link", Some("abc")).as_deref(), Some("/p/abc"));
    assert_eq!(share_url("user", Some("abc")), None);
    assert_eq!(share_url("link", None), None);
    assert_eq!(share_expiry(1_000, Some(60)), Some(1_060));
    assert_eq!(share_expiry(1_000, None), None);
}

#[test]
fn unique_violation_is_a_conflict() {
    assert_eq!(
        share_insert_error(Some("UNIQUE constraint failed: shares.project_id"), "x"),
        AppError::Conflict("share already exists for this target".into())
    );
    assert_eq!(share_insert_error(Some("disk I/O error"), "boom"), AppError::Internal("boom".into()));
    assert_eq!(share_insert_error(None, "boom"), AppError::Internal("boom".into()));
}

#[test]
fn mode_downgrade_records_pending_notice() {
    let row = share("fork-allowed", Some("bob"));
    let d = plan_share_patch(&row, "alice", Some("read-only")).unwrap().expect("downgrade");
    assert_eq!(d.old_mode, "fork-allowed");
    assert_eq!(d.new_mode, "read-only");
    assert_eq!(d.target_user_id, "bob");
    assert_eq!(share_update_action(true), "share.mode_downgrade");
}

#[test]
fn mode_upgrade_does_not_record_downgrade() {
    let row = share("read-only", Some("bob"));
    assert!(plan_share_patch(&row, "alice", Some("fork-allowed")).unwrap().is_none());
    assert_eq!(share_update_action(false), "share.update");
}

#[test]
fn public_share_downgrade_has_nobody_to_notify() {
    let row = share("auto-copy", None);
    assert!(plan_share_patch(&row, "alice", Some("read-only")).unwrap().is_none());
}

#[test]
fn only_the_sharer_may_change_a_share() {
    let row = share("read-only", Some("bob"));
    assert_eq!(plan_share_patch(&row, "bob", Some("read-only")).unwrap_err(), AppError::Forbidden);
    assert!(matches!(plan_share_patch(&row, "alice", Some("owner")), Err(AppError::Validation(_))));
    assert!(plan_share_patch(&row, "alice", None).unwrap().is_none());
}

#[test]
fn notice_names_for_missing_projects() {
    assert_eq!(notice_names(Some("nginx"), Some("alice"), "unknown"), ("nginx".into(), "alice".into()));
    assert_eq!(notice_names(Some("nginx"), None, "unknown"), ("nginx".into(), "unknown".into()));
    assert_eq!(notice_names(Some("nginx"), None, ""), ("nginx".into(), "".into()));
    assert_eq!(notice_names(None, Some("alice"), ""), ("(deleted)".into(), "unknown".into()));
}
