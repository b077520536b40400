use cmem_server::error::AppError;
use cmem_server::fork::{
    default_fork_name, fork_chain, fork_name_candidate, fork_name_step, fork_target_name,
    reject_own_observation_fork, reject_own_project_fork, require_fork_access,
    require_observation_fork_access, fork_copy,
    require_forker_machine, require_target_project, source_project_of, too_many_fork_names,
    ForkNameStep,
};
use cmem_server::permissions::AccessLevel;
use cmem_server::text::decimal;

#[test]
fn default_name_matches_example() {
    assert_eq!(default_fork_name("fork-target", "alice"), "fork-target-fork-of-alice");
    assert_eq!(default_fork_name("Nginx RCE", "Bob"), "nginx-rce-fork-of-bob");
}

#[test]
fn read_only_share_forbids_fork() {
    assert_eq!(require_fork_access(AccessLevel::ReadOnly).unwrap_err(), AppError::Forbidden);
    assert_eq!(require_fork_access(AccessLevel::NoAccess).unwrap_err(), AppError::Forbidden);
    assert!(require_fork_access(AccessLevel::ForkAllowed).is_ok());
    assert!(require_fork_access(AccessLevel::AutoCopy).is_ok());
}

#[test]
fn own_projects_are_not_forked() {
    assert!(matches!(
        reject_own_project_fork("alice", "alice", AccessLevel::Owner),
        Err(AppError::Validation(m)) if m == "cannot fork your own project"
    ));
    assert!(reject_own_project_fork("alice", "bob", AccessLevel::ForkAllowed).is_ok());
    assert!(matches!(
        reject_own_observation_fork("bob", "bob"),
        Err(AppError::Validation(m)) if m == "cannot fork your own observation"
    ));
}

#[test]
fn target_names() {
    assert_eq!(fork_target_name(None, "fork-target", "alice").unwrap(), "fork-target-fork-of-alice");
    assert_eq!(fork_target_name(Some("  My Copy "), "x", "alice").unwrap(), "my-copy");
    assert_eq!(fork_target_name(Some("   "), "src", "alice").unwrap(), "src-fork-of-alice");
    assert!(matches!(
        fork_target_name(Some("!!!"), "src", "alice"),
        Err(AppError::Validation(m)) if m == "fork project name normalizes to invalid value"
    ));
    assert!(fork_target_name(Some(&"a".repeat(129)), "src", "alice").is_err());
}

#[test]
fn clash_suffixes() {
    assert_eq!(fork_name_candidate("base", 0), "base");
    assert_eq!(fork_name_candidate("base", 1), "base-1");
    assert_eq!(fork_name_candidate("base", 98), "base-98");
    assert_eq!(fork_name_step(0, false), ForkNameStep::Use);
    assert_eq!(fork_name_step(0, true), ForkNameStep::Next(1));
    assert_eq!(fork_name_step(98, true), ForkNameStep::TooMany);
    assert_eq!(too_many_fork_names(), AppError::Conflict("fork target name has too many duplicates".into()));
    let d: String = decimal(1234567).into_iter().collect();
    assert_eq!(d, "1234567");
}

#[test]
fn provenance_chain() {
    assert_eq!(fork_chain(None, "o1"), r#"["o1"]"#);
    assert_eq!(fork_chain(Some(r#"["o0"]"#), "o1"), r#"["o0","o1"]"#);
    assert_eq!(fork_chain(Some("{}"), "o1"), r#"["o1"]"#);
    assert_eq!(fork_chain(Some("not json"), "o\"1"), r#"["o\"1"]"#);
}

#[test]
fn single_observation_fork_checks() {
    assert_eq!(source_project_of(Some("p1")).unwrap(), "p1");
    assert!(matches!(source_project_of(None), Err(AppError::Validation(m)) if m == "source observation has no project"));
    assert!(matches!(require_target_project(None), Err(AppError::Validation(m)) if m == "to_project_id must be one of your own projects"));
    assert!(matches!(require_forker_machine(None), Err(AppError::Validation(m)) if m == "forker must have at least one active machine before forking"));
}

#[test]
fn single_observation_fork_needs_fork_allowed() {
    assert!(require_observation_fork_access(AccessLevel::ForkAllowed).is_ok());
    assert!(require_observation_fork_access(AccessLevel::Owner).is_ok());
    assert_eq!(require_observation_fork_access(AccessLevel::AutoCopy), Err(AppError::Forbidden));
    assert_eq!(require_observation_fork_access(AccessLevel::ReadOnly), Err(AppError::Forbidden));
    assert_eq!(require_observation_fork_access(AccessLevel::NoAccess), Err(AppError::Forbidden));
    assert!(require_fork_access(AccessLevel::AutoCopy).is_ok());
}

#[test]
fn fork_copy_belongs_to_the_forker_and_keeps_provenance() {
    let src = cmem_server::rows::ObservationRow {
        id: "o1".into(),
        user_id: "alice".into(),
        machine_id: "m-a".into(),
        project_id: Some("p-a".into()),
        timestamp: 42,
        project_path: Some("/src".into()),
        content: "hello".into(),
        obs_type: Some("note".into()),
        metadata: Some("{}".into()),
        derived_from: None,
        derivation_chain: None,
        server_seq: 7,
        server_received_at: 50,
    };
    let c = fork_copy(&src, "o2".into(), "bob", "m-b", "p-b", 99, 1000);
    assert_eq!(c.id, "o2");
    assert_eq!(c.user_id, "bob");
    assert_eq!(c.machine_id, "m-b");
    assert_eq!(c.project_id.as_deref(), Some("p-b"));
    assert_eq!((c.timestamp, c.content.as_str(), c.server_seq, c.server_received_at), (42, "hello", 99, 1000));
    assert_eq!(c.derived_from.as_deref(), Some("o1"));
    assert_eq!(c.derivation_chain, Some(fork_chain(None, "o1")));
}

#[test]
fn a_new_chain_escapes_the_source_id_as_json() {
    assert_eq!(fork_chain(None, "a\\b\nc\u{1}"), "[\"a\\\\b\\nc\\u0001\"]");
    assert_eq!(fork_chain(None, "é\u{7f}"), "[\"é\u{7f}\"]");
}
