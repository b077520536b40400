use cmem_server::permissions::{decide_access, parse_db_mode, AccessLevel, ShareMode};

#[test]
fn rank_ordering_matches_intuition() {
    assert!(AccessLevel::Owner.rank() < AccessLevel::AutoCopy.rank());
    assert!(AccessLevel::AutoCopy.rank() < AccessLevel::ForkAllowed.rank());
    assert!(AccessLevel::ForkAllowed.rank() < AccessLevel::ReadOnly.rank());
    assert!(AccessLevel::ReadOnly.rank() < AccessLevel::NoAccess.rank());
}

#[test]
fn capabilities_per_level() {
    assert!(AccessLevel::Owner.can_share());
    assert!(!AccessLevel::ReadOnly.can_share());
    assert!(!AccessLevel::ReadOnly.can_fork());
    assert!(AccessLevel::ForkAllowed.can_fork());
    assert!(AccessLevel::AutoCopy.can_fork());
    assert!(AccessLevel::ReadOnly.can_read());
    assert!(!AccessLevel::NoAccess.can_read());
}

#[test]
fn parse_db_mode_known_values() {
    assert_eq!(parse_db_mode("read-only"), Some(AccessLevel::ReadOnly));
    assert_eq!(parse_db_mode("fork-allowed"), Some(AccessLevel::ForkAllowed));
    assert_eq!(parse_db_mode("auto-copy"), Some(AccessLevel::AutoCopy));
    assert_eq!(parse_db_mode("garbage"), None);
}

#[test]
fn owner_always_has_full_access() {
    let l = decide_access(Some("alice"), "alice", Some("read-only"), Some("read-only"));
    assert_eq!(l, AccessLevel::Owner);
    assert!(l.can_read() && l.can_fork() && l.can_share());
}

#[test]
fn direct_share_beats_public_share() {
    assert_eq!(
        decide_access(Some("alice"), "bob", Some("fork-allowed"), Some("read-only")),
        AccessLevel::ForkAllowed
    );
    assert_eq!(decide_access(Some("alice"), "bob", None, Some("read-only")), AccessLevel::ReadOnly);
    assert_eq!(
        decide_access(Some("alice"), "bob", Some("bogus"), Some("auto-copy")),
        AccessLevel::AutoCopy
    );
    assert_eq!(decide_access(Some("alice"), "bob", None, None), AccessLevel::NoAccess);
    assert_eq!(decide_access(None, "bob", Some("read-only"), None), AccessLevel::NoAccess);
}

#[test]
fn share_modes_map_to_levels() {
    assert_eq!(AccessLevel::from_mode(ShareMode::Owner), AccessLevel::Owner);
    assert_eq!(AccessLevel::from_mode(ShareMode::ReadOnly), AccessLevel::ReadOnly);
    assert_eq!(AccessLevel::from_mode(ShareMode::ForkAllowed), AccessLevel::ForkAllowed);
    assert_eq!(AccessLevel::from_mode(ShareMode::AutoCopy), AccessLevel::AutoCopy);
}
