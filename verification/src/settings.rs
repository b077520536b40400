//! Server-wide settings kept in the database: the registration policy.

use vstd::prelude::*;
use crate::text::str_eq;

verus! {

/// Who may register: anyone (an invite code is optional), only holders of
/// an invite code, or nobody.
#[derive(Debug, Clone, Copy, PartialEq, Eq, Structural)]
pub enum RegistrationMode {
    Open,
    InviteOnly,
    Closed,
}

/// The stored text of each mode.
pub open spec fn spec_mode_text(m: RegistrationMode) -> Seq<char> {
    match m {
        RegistrationMode::Open => "open"@,
        RegistrationMode::InviteOnly => "invite_only"@,
        RegistrationMode::Closed => "closed"@,
    }
}

/// The mode a stored text names, if any.
pub open spec fn spec_mode_from_text(s: Seq<char>) -> Option<RegistrationMode> {
    if s == "open"@ {
        Some(RegistrationMode::Open)
    } else if s == "invite_only"@ {
        Some(RegistrationMode::InviteOnly)
    } else if s == "closed"@ {
        Some(RegistrationMode::Closed)
    } else {
        None
    }
}

impl RegistrationMode {
    /// The stored text of this mode.
    pub fn as_str(self) -> (r: &'static str)
        ensures
            r@ == spec_mode_text(self),
    {
        match self {
            RegistrationMode::Open => "open",
            RegistrationMode::InviteOnly => "invite_only",
            RegistrationMode::Closed => "closed",
        }
    }

    /// The mode a stored text names; other texts name none.
    pub fn from_str(s: &str) -> (r: Option<RegistrationMode>)
        ensures
            r == spec_mode_from_text(s@),
    {
        if str_eq(s, "open") {
            Some(RegistrationMode::Open)
        } else if str_eq(s, "invite_only") {
            Some(RegistrationMode::InviteOnly)
        } else if str_eq(s, "closed") {
            Some(RegistrationMode::Closed)
        } else {
            None
        }
    }
}

/// Storing a mode and reading it back gives the same mode, and no other
/// text reads as that mode.
pub proof fn law_mode_roundtrip(m: RegistrationMode, s: Seq<char>)
    ensures
        spec_mode_from_text(spec_mode_text(m)) == Some(m),
        spec_mode_from_text(s) == Some(m) ==> s == spec_mode_text(m),
{
    reveal_strlit("open");
    reveal_strlit("invite_only");
    reveal_strlit("closed");
    assert("open"@.len() != "invite_only"@.len());
    assert("open"@.len() != "closed"@.len());
    assert("invite_only"@.len() != "closed"@.len());
}

/// The mode in force when the database holds `stored` (`None`: no value
/// yet): a valid stored mode; otherwise invite-only when the configuration
/// requires invites, else open. `Some(m)` in the second component means the
/// fallback `m` must be written back.
pub open spec fn spec_effective_mode(stored: Option<Seq<char>>, require_invite: bool) -> (
    RegistrationMode,
    bool,
) {
    match (match stored {
        Some(s) => spec_mode_from_text(s),
        None => None,
    }) {
        Some(m) => (m, false),
        None => (if require_invite {
            RegistrationMode::InviteOnly
        } else {
            RegistrationMode::Open
        }, true),
    }
}

/// Without a valid stored mode (none stored, or text that names no mode:
/// anything but `open`, `invite_only`, `closed`), the mode in force is
/// invite-only exactly when the configuration requires invites and open
/// otherwise, and that fallback is written back; a missing and an invalid
/// value are treated alike. A valid stored mode is used as it is and
/// nothing is written.
pub proof fn law_registration_mode_fallback(stored: Option<Seq<char>>, require_invite: bool, bad: Seq<char>)
    requires
        bad != "open"@ && bad != "invite_only"@ && bad != "closed"@,
    ensures
        spec_effective_mode(None, require_invite) == spec_effective_mode(Some(bad), require_invite),
        spec_effective_mode(None, require_invite).1,
        require_invite ==> spec_effective_mode(None, require_invite).0 == RegistrationMode::InviteOnly,
        !require_invite ==> spec_effective_mode(None, require_invite).0 == RegistrationMode::Open,
        spec_effective_mode(Some("open"@), require_invite) == (RegistrationMode::Open, false),
        spec_effective_mode(Some("invite_only"@), require_invite) == (RegistrationMode::InviteOnly, false),
        spec_effective_mode(Some("closed"@), require_invite) == (RegistrationMode::Closed, false),
{
    reveal_strlit("open");
    reveal_strlit("invite_only");
    reveal_strlit("closed");
    assert("open"@.len() != "invite_only"@.len());
    assert("open"@.len() != "closed"@.len());
    assert("invite_only"@.len() != "closed"@.len());
}

/// The registration mode in force, and whether the fallback must be stored.
pub fn effective_registration_mode(stored: Option<&str>, require_invite: bool) -> (r: (
    RegistrationMode,
    bool,
))
    ensures
        r == spec_effective_mode(crate::i18n::opt_view(stored), require_invite),
{
    if let Some(s) = stored {
        if let Some(m) = RegistrationMode::from_str(s) {
            return (m, false);
        }
    }
    if require_invite {
        (RegistrationMode::InviteOnly, true)
    } else {
        (RegistrationMode::Open, true)
    }
}

} // verus!
