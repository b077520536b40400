use cmem_server::auth::Principal;
use cmem_server::error::AppError;
use cmem_server::rows::MachineRow;
use cmem_server::sync::{
    check_batch_size, check_push_machine, next_since_seq, project_cache_key, pull_has_more,
    pull_machine_id, pull_window, push_machine_id, revoke_lookback, validate_obs,
    validate_push_items, ProjectCache, PushObservation, PushTally,
};

fn obs(id: &str, content: &str, path: Option<&str>) -> PushObservation {
    PushObservation {
        id: id.into(),
        timestamp: 1_700_000_000,
        project_marker_id: None,
        project_name: Some("nginx-rce".into()),
        project_path: path.map(str::to_string),
        content: content.into(),
        obs_type: Some("decision".into()),
        metadata: None,
        derived_from: None,
        derivation_chain: None,
    }
}

fn machine(user: &str, revoked: i64) -> MachineRow {
    MachineRow {
        id: "m1".into(),
        user_id: user.into(),
        name: "alice-mac".into(),
        description: None,
        last_seen_at: None,
        created_at: 0,
        revoked,
    }
}

#[test]
fn batch_limit() {
    assert!(check_batch_size(1000).is_ok());
    assert!(matches!(check_batch_size(1001), Err(AppError::Validation(m)) if m == "batch too large (max 1000)"));
}

#[test]
fn push_needs_a_machine() {
    let u = Principal::User { user_id: "u".into(), machine_id: None };
    assert!(matches!(push_machine_id(&u), Err(AppError::Validation(_))));
    let u = Principal::User { user_id: "u".into(), machine_id: Some("m1".into()) };
    assert_eq!(push_machine_id(&u).unwrap(), "m1");
    let m = Principal::Machine { user_id: "u".into(), machine_id: "m2".into() };
    assert_eq!(push_machine_id(&m).unwrap(), "m2");
    assert!(check_push_machine(Some(&machine("u", 0)), "u").is_ok());
    assert_eq!(check_push_machine(Some(&machine("u", 1)), "u").unwrap_err(), AppError::Unauthorized);
    assert_eq!(check_push_machine(Some(&machine("v", 0)), "u").unwrap_err(), AppError::Unauthorized);
    assert_eq!(check_push_machine(None, "u").unwrap_err(), AppError::Unauthorized);
}

#[test]
fn item_checks_report_the_first_problem() {
    let ok = obs("a", "x", Some("/p"));
    assert!(validate_push_items(&[ok.clone()]).is_ok());
    let big = "x".repeat(1024 * 1024 + 1);
    let r = validate_push_items(&[ok.clone(), obs("b", &big, None), obs("", "y", None)]);
    assert!(matches!(r, Err(AppError::Validation(m)) if m == "observation b content > 1MiB"));
    let long_path = "p".repeat(4097);
    let r = validate_push_items(&[obs("c", "y", Some(&long_path))]);
    assert!(matches!(r, Err(AppError::Validation(m)) if m == "observation c project_path too long"));
    let r = validate_push_items(&[obs("", "y", None)]);
    assert!(matches!(r, Err(AppError::Validation(m)) if m == "observation.id required"));
    assert_eq!(validate_obs(&obs("", "y", None)), Err("id required".to_string()));
    assert_eq!(validate_obs(&obs("a", &big, None)), Err("content too long".to_string()));
    assert_eq!(validate_obs(&ok), Ok(()));
}

#[test]
fn cache_key_and_cache() {
    let mut o = obs("a", "x", Some("/p"));
    o.project_marker_id = Some("m".into());
    assert_eq!(project_cache_key(&o), "m::nginx-rce::/p");
    let o2 = obs("b", "x", None);
    assert_eq!(project_cache_key(&o2), "::nginx-rce::");
    let mut c = ProjectCache::new();
    assert_eq!(c.get("k"), None);
    c.insert("k".into(), Some("p1".into()));
    c.insert("none".into(), None);
    assert_eq!(c.get("k"), Some(Some("p1".into())));
    assert_eq!(c.get("none"), Some(None));
    c.insert("k".into(), Some("p2".into()));
    assert_eq!(c.get("k"), Some(Some("p2".into())));
    assert_eq!(c.get("none"), Some(None));
}

#[test]
fn push_dedup_by_id_tally() {
    let mut t = PushTally::new();
    t.record(true, 7);
    t.record(false, 8);
    t.record(true, 9);
    t.record(false, 10);
    assert_eq!(t.accepted, 2);
    assert_eq!(t.duplicates, 2);
    assert_eq!(t.server_seq_max, 9);
}

#[test]
fn pull_window_and_cursor() {
    assert_eq!(pull_window(None, -5), (500, 0));
    assert_eq!(pull_window(Some(0), 3), (500, 3));
    assert_eq!(pull_window(Some(5001), 3), (500, 3));
    assert_eq!(pull_window(Some(10), 3), (10, 3));
    assert_eq!(next_since_seq(&[4, 9, 2], &[7], 3), 9);
    assert_eq!(next_since_seq(&[], &[], 3), 3);
    assert_eq!(next_since_seq(&[1], &[2], 3), 3);
    assert!(pull_has_more(10, 0, 10));
    assert!(!pull_has_more(9, 9, 10));
    assert_eq!(revoke_lookback(3_000_000), 3_000_000 - 2_592_000);
}

#[test]
fn pull_machine() {
    let m = Principal::Machine { user_id: "u".into(), machine_id: "m2".into() };
    assert_eq!(pull_machine_id(&m).as_deref(), Some("m2"));
    let u = Principal::User { user_id: "u".into(), machine_id: None };
    assert_eq!(pull_machine_id(&u), None);
}

#[test]
fn pushing_the_same_batch_twice_counts_only_duplicates_the_second_time() {
    // The store holds "o0"; the batch is "o0", "o1", "o1" (an id repeated
    // within a push is ignored like a stored one).
    let mut held: Vec<&str> = vec!["o0"];
    let batch = ["o0", "o1", "o1"];
    let mut first = PushTally::new();
    for (i, id) in batch.iter().enumerate() {
        let inserted = !held.contains(id);
        if inserted {
            held.push(id);
        }
        first.record(inserted, 10 + i as i64);
    }
    assert_eq!((first.accepted, first.duplicates, first.server_seq_max), (1, 2, 11));
    let mut second = PushTally::new();
    for (i, id) in batch.iter().enumerate() {
        second.record(!held.contains(id), 20 + i as i64);
    }
    assert_eq!((second.accepted, second.duplicates, second.server_seq_max), (0, 3, 0));
}
