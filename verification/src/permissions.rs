//! Project-level access levels and the rule that decides a user's level.
//!
//! The owner of a project always has full access; otherwise an active direct
//! share to the user decides, then an active public share, then no access.

use vstd::prelude::*;
use crate::text::str_eq;
use crate::i18n::opt_view;

verus! {

/// The access a user has to a project.
#[derive(Debug, Clone, Copy, PartialEq, Eq, Structural)]
pub enum AccessLevel {
    Owner,
    AutoCopy,
    ForkAllowed,
    ReadOnly,
    NoAccess,
}

/// The share modes a project owner can grant (and the owner's own mode).
#[derive(Debug, Clone, Copy, PartialEq, Eq, Structural)]
pub enum ShareMode {
    Owner,
    ReadOnly,
    ForkAllowed,
    AutoCopy,
}

pub open spec fn spec_rank(l: AccessLevel) -> u8 {
    match l {
        AccessLevel::Owner => 0,
        AccessLevel::AutoCopy => 1,
        AccessLevel::ForkAllowed => 2,
        AccessLevel::ReadOnly => 3,
        AccessLevel::NoAccess => 4,
    }
}

pub open spec fn spec_can_read(l: AccessLevel) -> bool {
    l != AccessLevel::NoAccess
}

pub open spec fn spec_can_fork(l: AccessLevel) -> bool {
    l == AccessLevel::Owner || l == AccessLevel::ForkAllowed || l == AccessLevel::AutoCopy
}

pub open spec fn spec_can_share(l: AccessLevel) -> bool {
    l == AccessLevel::Owner
}

pub open spec fn spec_from_mode(m: ShareMode) -> AccessLevel {
    match m {
        ShareMode::Owner => AccessLevel::Owner,
        ShareMode::ReadOnly => AccessLevel::ReadOnly,
        ShareMode::ForkAllowed => AccessLevel::ForkAllowed,
        ShareMode::AutoCopy => AccessLevel::AutoCopy,
    }
}

/// The level that a share-mode string stored in the database denotes.
pub open spec fn spec_parse_db_mode(s: Seq<char>) -> Option<AccessLevel> {
    if s == "read-only"@ {
        Some(AccessLevel::ReadOnly)
    } else if s == "fork-allowed"@ {
        Some(AccessLevel::ForkAllowed)
    } else if s == "auto-copy"@ {
        Some(AccessLevel::AutoCopy)
    } else {
        None
    }
}

impl AccessLevel {
    pub fn can_read(self) -> (r: bool)
        ensures
            r == spec_can_read(self),
    {
        !matches!(self, AccessLevel::NoAccess)
    }

    pub fn can_fork(self) -> (r: bool)
        ensures
            r == spec_can_fork(self),
    {
        matches!(self, AccessLevel::Owner | AccessLevel::ForkAllowed | AccessLevel::AutoCopy)
    }

    pub fn can_share(self) -> (r: bool)
        ensures
            r == spec_can_share(self),
    {
        matches!(self, AccessLevel::Owner)
    }

    pub fn from_mode(mode: ShareMode) -> (r: AccessLevel)
        ensures
            r == spec_from_mode(mode),
    {
        match mode {
            ShareMode::Owner => AccessLevel::Owner,
            ShareMode::ReadOnly => AccessLevel::ReadOnly,
            ShareMode::ForkAllowed => AccessLevel::ForkAllowed,
            ShareMode::AutoCopy => AccessLevel::AutoCopy,
        }
    }

    /// Smaller is more permissive; a move to a larger rank is a downgrade.
    pub fn rank(self) -> (r: u8)
        ensures
            r == spec_rank(self),
    {
        match self {
            AccessLevel::Owner => 0,
            AccessLevel::AutoCopy => 1,
            AccessLevel::ForkAllowed => 2,
            AccessLevel::ReadOnly => 3,
            AccessLevel::NoAccess => 4,
        }
    }
}

/// Parses a stored share mode (`read-only`, `fork-allowed`, `auto-copy`).
pub fn parse_db_mode(s: &str) -> (r: Option<AccessLevel>)
    ensures
        r == spec_parse_db_mode(s@),
{
    if str_eq(s, "read-only") {
        Some(AccessLevel::ReadOnly)
    } else if str_eq(s, "fork-allowed") {
        Some(AccessLevel::ForkAllowed)
    } else if str_eq(s, "auto-copy") {
        Some(AccessLevel::AutoCopy)
    } else {
        None
    }
}

/// The access of `user` to a project, from what the database holds: the
/// project's owner (`None`: no such project), the mode of the user's active
/// direct share and that of the project's active public share, if any. The
/// owner has full access; then a direct share whose mode is known decides,
/// then a public share whose mode is known; otherwise there is no access.
pub open spec fn spec_decide_access(
    owner: Option<Seq<char>>,
    user: Seq<char>,
    user_share_mode: Option<Seq<char>>,
    public_share_mode: Option<Seq<char>>,
) -> AccessLevel {
    match owner {
        None => AccessLevel::NoAccess,
        Some(o) => if o == user {
            AccessLevel::Owner
        } else {
            match (match user_share_mode {
                Some(m) => spec_parse_db_mode(m),
                None => None,
            }) {
                Some(l) => l,
                None => match (match public_share_mode {
                    Some(m) => spec_parse_db_mode(m),
                    None => None,
                }) {
                    Some(l) => l,
                    None => AccessLevel::NoAccess,
                },
            }
        },
    }
}

/// The access of `user` to a project (see `spec_decide_access`).
pub fn decide_access(
    owner: Option<&str>,
    user: &str,
    user_share_mode: Option<&str>,
    public_share_mode: Option<&str>,
) -> (r: AccessLevel)
    ensures
        r == spec_decide_access(
            opt_view(owner),
            user@,
            opt_view(user_share_mode),
            opt_view(public_share_mode),
        ),
{
    let o = match owner {
        Some(o) => o,
        None => {
            return AccessLevel::NoAccess;
        },
    };
    if str_eq(o, user) {
        return AccessLevel::Owner;
    }
    if let Some(m) = user_share_mode {
        if let Some(l) = parse_db_mode(m) {
            return l;
        }
    }
    if let Some(m) = public_share_mode {
        if let Some(l) = parse_db_mode(m) {
            return l;
        }
    }
    AccessLevel::NoAccess
}

/// The owner of a project always has full access to it: read, fork and
/// share; nobody else may share it.
pub proof fn law_owner_has_full_access(
    owner: Seq<char>,
    user: Seq<char>,
    user_share_mode: Option<Seq<char>>,
    public_share_mode: Option<Seq<char>>,
)
    ensures
        owner == user ==> spec_decide_access(Some(owner), user, user_share_mode, public_share_mode)
            == AccessLevel::Owner,
        owner == user ==> spec_can_read(
            spec_decide_access(Some(owner), user, user_share_mode, public_share_mode),
        ) && spec_can_fork(
            spec_decide_access(Some(owner), user, user_share_mode, public_share_mode),
        ) && spec_can_share(
            spec_decide_access(Some(owner), user, user_share_mode, public_share_mode),
        ),
        owner != user ==> !spec_can_share(
            spec_decide_access(Some(owner), user, user_share_mode, public_share_mode),
        ),
{
}

/// A direct share to the user takes precedence over a public share; without
/// a project there is no access at all.
pub proof fn law_direct_share_precedes_public(
    owner: Seq<char>,
    user: Seq<char>,
    user_mode: Seq<char>,
    public_share_mode: Option<Seq<char>>,
)
    requires
        owner != user,
        spec_parse_db_mode(user_mode) is Some,
    ensures
        spec_decide_access(Some(owner), user, Some(user_mode), public_share_mode)
            == spec_parse_db_mode(user_mode).unwrap(),
        spec_decide_access(None, user, Some(user_mode), public_share_mode) == AccessLevel::NoAccess,
{
}

/// The capabilities are nested: whoever may share may fork, whoever may
/// fork may read; and ranks order the levels from owner (most) to no access
/// (least), forking being allowed exactly up to rank 2.
pub proof fn law_capabilities_nested(l: AccessLevel)
    ensures
        spec_can_share(l) ==> spec_can_fork(l),
        spec_can_fork(l) ==> spec_can_read(l),
        spec_can_fork(l) <==> spec_rank(l) <= 2,
        spec_can_read(l) <==> spec_rank(l) <= 3,
        spec_can_share(l) <==> spec_rank(l) == 0,
{
}

/// Distinct levels have distinct ranks, so a rank comparison decides
/// whether one level grants more than another.
pub proof fn law_rank_injective(a: AccessLevel, b: AccessLevel)
    ensures
        spec_rank(a) == spec_rank(b) ==> a == b,
{
}

} // verus!
