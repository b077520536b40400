use cmem_server::settings::{effective_registration_mode, RegistrationMode};

#[test]
fn registration_mode_round_trip() {
    for m in [RegistrationMode::Open, RegistrationMode::InviteOnly, RegistrationMode::Closed] {
        assert_eq!(RegistrationMode::from_str(m.as_str()), Some(m));
    }
    assert_eq!(RegistrationMode::InviteOnly.as_str(), "invite_only");
    assert_eq!(RegistrationMode::from_str("Invite_Only"), None);
}

#[test]
fn stored_mode_wins_else_config_fallback() {
    assert_eq!(effective_registration_mode(Some("closed"), true), (RegistrationMode::Closed, false));
    assert_eq!(effective_registration_mode(Some("junk"), true), (RegistrationMode::InviteOnly, true));
    assert_eq!(effective_registration_mode(None, false), (RegistrationMode::Open, true));
}
