//! The rules of the sharing endpoints: which share requests are accepted,
//! what a link share becomes, when a change of mode leaves a downgrade
//! notice for the recipient, and how notices name their project.

use vstd::prelude::*;
use crate::error::{validation, AppError};
use crate::permissions::{parse_db_mode, spec_parse_db_mode, spec_rank, AccessLevel};
use crate::rows::ShareRow;
use crate::text::{chars_of, concat_str, owned, str_eq};
use crate::auth::{contains_text, find_text};
use crate::crypto::{is_safe_char, nanoid_safe};
use crate::i18n::opt_view;

verus! {

/// The share targets: a named user, everyone, or whoever holds a link.
pub open spec fn spec_allowed_target(t: Seq<char>) -> bool {
    t == "user"@ || t == "public"@ || t == "link"@
}

/// The share modes a share may grant.
pub open spec fn spec_allowed_mode(m: Seq<char>) -> bool {
    m == "read-only"@ || m == "fork-allowed"@ || m == "auto-copy"@
}

/// The refusal of a target outside `user`, `public`, `link`.
pub open spec fn target_message() -> Seq<char> {
    "target_type must be one of [\"user\", \"public\", \"link\"]"@
}

/// The refusal of a mode outside `read-only`, `fork-allowed`, `auto-copy`.
pub open spec fn mode_message() -> Seq<char> {
    "share_mode must be one of [\"read-only\", \"fork-allowed\", \"auto-copy\"]"@
}

/// The mode a new share gets: as requested, except that a link share is
/// always read-only (an anonymous viewer cannot fork). `Err` carries the
/// validation message.
pub open spec fn spec_share_request_mode(target: Seq<char>, mode: Seq<char>) -> Result<
    Seq<char>,
    Seq<char>,
> {
    if !spec_allowed_target(target) {
        Err(target_message())
    } else {
        let effective = if target == "link"@ && mode != "read-only"@ {
            "read-only"@
        } else {
            mode
        };
        if !spec_allowed_mode(effective) {
            Err(mode_message())
        } else {
            Ok(effective)
        }
    }
}

fn allowed_mode(m: &str) -> (r: bool)
    ensures
        r == spec_allowed_mode(m@),
{
    str_eq(m, "read-only") || str_eq(m, "fork-allowed") || str_eq(m, "auto-copy")
}

/// Checks the target and mode of a share request and gives the mode the
/// share will have.
pub fn share_request_mode(target_type: &str, share_mode: &str) -> (r: Result<String, AppError>)
    ensures
        match spec_share_request_mode(target_type@, share_mode@) {
            Ok(m) => r matches Ok(s) && s@ == m,
            Err(msg) => r matches Err(AppError::Validation(e)) && e@ == msg,
        },
{
    if !(str_eq(target_type, "user") || str_eq(target_type, "public") || str_eq(
        target_type,
        "link",
    )) {
        return Err(validation("target_type must be one of [\"user\", \"public\", \"link\"]"));
    }
    let effective = if str_eq(target_type, "link") && !str_eq(share_mode, "read-only") {
        owned("read-only")
    } else {
        owned(share_mode)
    };
    if !allowed_mode(effective.as_str()) {
        return Err(validation("share_mode must be one of [\"read-only\", \"fork-allowed\", \"auto-copy\"]"));
    }
    Ok(effective)
}

/// A link share never grants more than reading.
pub proof fn law_link_share_is_read_only(mode: Seq<char>)
    ensures
        spec_share_request_mode("link"@, mode) == Ok::<Seq<char>, Seq<char>>("read-only"@),
{
}

/// A user or public share keeps the requested mode when it is one of
/// `read-only`, `fork-allowed`, `auto-copy`, and is refused with the mode
/// message otherwise; only a link share is forced to read-only; any other
/// target is refused with the target message.
pub proof fn law_requested_mode_kept(target: Seq<char>, mode: Seq<char>)
    ensures
        (target == "user"@ || target == "public"@) && (mode == "read-only"@ || mode
            == "fork-allowed"@ || mode == "auto-copy"@) ==> spec_share_request_mode(target, mode)
            == Ok::<Seq<char>, Seq<char>>(mode),
        (target == "user"@ || target == "public"@) && !(mode == "read-only"@ || mode
            == "fork-allowed"@ || mode == "auto-copy"@) ==> spec_share_request_mode(target, mode)
            == Err::<Seq<char>, Seq<char>>(mode_message()),
        !(target == "user"@ || target == "public"@ || target == "link"@) ==> spec_share_request_mode(
            target,
            mode,
        ) == Err::<Seq<char>, Seq<char>>(target_message()),
{
    reveal_strlit("user");
    reveal_strlit("public");
    reveal_strlit("link");
    assert("user"@.len() != "public"@.len());
    assert("public"@.len() != "link"@.len());
    assert("user"@ != "link"@) by {
        assert("user"@[0] != "link"@[0]);
    }
}

/// The user a user share names: `target_username` is required.
pub fn share_target_username(target_username: Option<&str>) -> (r: Result<String, AppError>)
    ensures
        match target_username {
            Some(u) => r matches Ok(s) && s@ == u@,
            None => r matches Err(AppError::Validation(e)) && e@ == "target_username required"@,
        },
{
    match target_username {
        Some(u) => Ok(owned(u)),
        None => Err(validation("target_username required")),
    }
}

/// A project cannot be shared with its own owner.
pub fn check_not_self_share(target_user_id: &str, owner_id: &str) -> (r: Result<(), AppError>)
    ensures
        target_user_id@ != owner_id@ ==> r is Ok,
        target_user_id@ == owner_id@ ==> (r matches Err(AppError::Validation(e)) && e@
            == "cannot share a project to yourself"@),
{
    if str_eq(target_user_id, owner_id) {
        Err(validation("cannot share a project to yourself"))
    } else {
        Ok(())
    }
}

/// A new link-share token: 32 random URL-safe characters.
pub fn new_share_token() -> (r: String)
    ensures
        r@.len() == 32,
        forall|i: int| 0 <= i < 32 ==> is_safe_char(#[trigger] r@[i]),
{
    nanoid_safe(32)
}

/// When a share made at `now` expires: `expires_in_secs` later, or never.
pub fn share_expiry(now: i64, expires_in_secs: Option<i64>) -> (r: Option<i64>)
    requires
        expires_in_secs matches Some(s) ==> i64::MIN <= now + s <= i64::MAX,
    ensures
        r == match expires_in_secs {
            Some(s) => Some((now + s) as i64),
            None => None::<i64>,
        },
{
    match expires_in_secs {
        Some(s) => Some(now + s),
        None => None,
    }
}

/// The public address of a link share (`/p/<token>`); other shares have
/// none.
pub fn share_url(target_type: &str, share_token: Option<&str>) -> (r: Option<String>)
    ensures
        r matches Some(u) ==> target_type@ == "link"@ && (share_token matches Some(t) && u@
            == "/p/"@ + t@),
        r is None ==> target_type@ != "link"@ || share_token is None,
{
    if str_eq(target_type, "link") {
        match share_token {
            Some(t) => Some(concat_str("/p/", t)),
            None => None,
        }
    } else {
        None
    }
}

/// The error for a failed share insert: a uniqueness violation reported by
/// the database (its message mentions `UNIQUE`) means the target already
/// has a share; anything else is internal.
pub fn share_insert_error(db_message: Option<&str>, detail: &str) -> (r: AppError)
    ensures
        match db_message {
            Some(m) => if contains_text(m@, "UNIQUE"@) {
                r matches AppError::Conflict(c) && c@ == "share already exists for this target"@
            } else {
                r matches AppError::Internal(d) && d@ == detail@
            },
            None => r matches AppError::Internal(d) && d@ == detail@,
        },
{
    if let Some(m) = db_message {
        let mv = chars_of(m);
        let u = chars_of("UNIQUE");
        if find_text(&mv, &u) {
            return AppError::Conflict(owned("share already exists for this target"));
        }
    }
    AppError::Internal(owned(detail))
}

// ---------- changing a share ----------

/// A notice that a user share's mode was narrowed: old mode, new mode, and
/// the user to notify.
#[derive(Debug, Clone)]
pub struct Downgrade {
    pub old_mode: String,
    pub new_mode: String,
    pub target_user_id: String,
}

/// The level a stored mode string grants, unknown modes granting nothing.
pub open spec fn mode_level(m: Seq<char>) -> AccessLevel {
    match spec_parse_db_mode(m) {
        Some(l) => l,
        None => AccessLevel::NoAccess,
    }
}

/// Whether moving a share from `old_mode` to `new_mode` narrows it.
pub open spec fn spec_is_downgrade(old_mode: Seq<char>, new_mode: Seq<char>) -> bool {
    spec_rank(mode_level(new_mode)) > spec_rank(mode_level(old_mode))
}

/// What a change of share must do: refused when the caller did not make
/// the share (`Forbidden`) or the new mode is not a share mode; otherwise a
/// downgrade notice is due exactly when the share targets a user and the
/// new mode narrows it.
pub fn plan_share_patch(row: &ShareRow, caller_id: &str, new_mode: Option<&str>) -> (r: Result<
    Option<Downgrade>,
    AppError,
>)
    ensures
        row.sharer_user_id@ != caller_id@ ==> r == Err::<Option<Downgrade>, AppError>(
            AppError::Forbidden,
        ),
        row.sharer_user_id@ == caller_id@ ==> match new_mode {
            Some(m) => if !spec_allowed_mode(m@) {
                r matches Err(AppError::Validation(e)) && e@ == mode_message()
            } else {
                match row.target_user_id {
                    Some(t) => if spec_is_downgrade(row.share_mode@, m@) {
                        r matches Ok(Some(d)) && d.old_mode@ == row.share_mode@ && d.new_mode@
                            == m@ && d.target_user_id@ == t@
                    } else {
                        r matches Ok(None)
                    },
                    None => r matches Ok(None),
                }
            },
            None => r matches Ok(None),
        },
{
    if !str_eq(row.sharer_user_id.as_str(), caller_id) {
        return Err(AppError::Forbidden);
    }
    let m = match new_mode {
        Some(m) => m,
        None => {
            return Ok(None);
        },
    };
    if !allowed_mode(m) {
        return Err(validation("share_mode must be one of [\"read-only\", \"fork-allowed\", \"auto-copy\"]"));
    }
    match &row.target_user_id {
        Some(t) => {
            let old_level = match parse_db_mode(row.share_mode.as_str()) {
                Some(l) => l,
                None => AccessLevel::NoAccess,
            };
            let new_level = match parse_db_mode(m) {
                Some(l) => l,
                None => AccessLevel::NoAccess,
            };
            if new_level.rank() > old_level.rank() {
                Ok(
                    Some(
                        Downgrade {
                            old_mode: row.share_mode.clone(),
                            new_mode: owned(m),
                            target_user_id: t.clone(),
                        },
                    ),
                )
            } else {
                Ok(None)
            }
        },
        None => Ok(None),
    }
}

/// The audit action of a share change.
pub fn share_update_action(downgraded: bool) -> (r: &'static str)
    ensures
        downgraded ==> r@ == "share.mode_downgrade"@,
        !downgraded ==> r@ == "share.update"@,
{
    proof {
        reveal_strlit("share.mode_downgrade");
        reveal_strlit("share.update");
    }
    if downgraded {
        "share.mode_downgrade"
    } else {
        "share.update"
    }
}

/// Narrowing a share (fork-allowed or auto-copy to read-only, auto-copy to
/// fork-allowed) is a downgrade; keeping or widening it is not.
pub proof fn law_downgrade_iff_narrowing()
    ensures
        spec_is_downgrade("fork-allowed"@, "read-only"@),
        spec_is_downgrade("auto-copy"@, "read-only"@),
        spec_is_downgrade("auto-copy"@, "fork-allowed"@),
        !spec_is_downgrade("read-only"@, "fork-allowed"@),
        !spec_is_downgrade("read-only"@, "auto-copy"@),
        !spec_is_downgrade("fork-allowed"@, "auto-copy"@),
        forall|m: Seq<char>| !spec_is_downgrade(m, m),
{
    reveal_strlit("fork-allowed");
    reveal_strlit("read-only");
    reveal_strlit("auto-copy");
    assert("fork-allowed"@.len() != "read-only"@.len());
    assert("auto-copy"@[0] != "read-only"@[0]);
    assert("auto-copy"@.len() != "fork-allowed"@.len());
    assert(mode_level("read-only"@) == AccessLevel::ReadOnly);
    assert(mode_level("fork-allowed"@) == AccessLevel::ForkAllowed);
    assert(mode_level("auto-copy"@) == AccessLevel::AutoCopy);
}

/// A downgrade and its reverse are never both downgrades.
pub proof fn law_downgrade_antisymmetric(a: Seq<char>, b: Seq<char>)
    ensures
        !(spec_is_downgrade(a, b) && spec_is_downgrade(b, a)),
{
}

// ---------- notices ----------

/// The project name and owner name shown with a notice: the project's, or
/// `(deleted)` and `unknown` when the project is gone; an owner that cannot
/// be found reads `owner_fallback`.
pub fn notice_names(
    project_name: Option<&str>,
    owner_username: Option<&str>,
    owner_fallback: &str,
) -> (r: (String, String))
    ensures
        match project_name {
            Some(n) => r.0@ == n@ && r.1@ == match owner_username {
                Some(o) => o@,
                None => owner_fallback@,
            },
            None => r.0@ == "(deleted)"@ && r.1@ == "unknown"@,
        },
{
    match project_name {
        Some(n) => {
            let owner = match owner_username {
                Some(o) => owned(o),
                None => owned(owner_fallback),
            };
            (owned(n), owner)
        },
        None => (owned("(deleted)"), owned("unknown")),
    }
}

} // verus!
