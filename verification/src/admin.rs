//! The rules of the admin API: paging windows, invite status, and the
//! guards that keep at least one active admin and stop an admin from
//! deleting themselves.

use vstd::prelude::*;
use crate::crypto::{is_safe_char, nanoid_safe, random_bytes};
use crate::error::{validation, AppError};
use crate::rows::{InviteRow, UserRow};
use crate::text::{chars_of, owned, str_eq, string_of, trim_chars, trim_spec};

verus! {

// ---------- request and response bodies ----------

/// Paging of a list: an optional search text, a limit and an offset.
#[derive(Debug, Clone)]
pub struct PageParams {
    pub q: Option<String>,
    pub limit: Option<i64>,
    pub offset: Option<i64>,
}

/// `x` clamped into `lo..=hi`.
pub open spec fn clamp(x: i64, lo: i64, hi: i64) -> i64 {
    if x < lo {
        lo
    } else if x > hi {
        hi
    } else {
        x
    }
}

/// The page size asked for, or `default`, clamped into `1..=max`.
pub fn page_limit(limit: Option<i64>, default: i64, max: i64) -> (r: i64)
    requires
        1 <= max,
    ensures
        r == clamp(
            match limit {
                Some(l) => l,
                None => default,
            },
            1,
            max,
        ),
{
    let l = match limit {
        Some(l) => l,
        None => default,
    };
    if l < 1 {
        1
    } else if l > max {
        max
    } else {
        l
    }
}

/// The offset asked for, never negative (0 when absent).
pub fn page_offset(offset: Option<i64>) -> (r: i64)
    ensures
        r == match offset {
            Some(o) => if o < 0 {
                0
            } else {
                o
            },
            None => 0,
        },
{
    match offset {
        Some(o) => if o < 0 {
            0
        } else {
            o
        },
        None => 0,
    }
}

impl PageParams {
    /// The page size: 50 by default, within `1..=500`.
    pub fn limit(&self) -> (r: i64)
        ensures
            r == clamp(
                match self.limit {
                    Some(l) => l,
                    None => 50,
                },
                1,
                500,
            ),
            1 <= r <= 500,
    {
        page_limit(self.limit, 50, 500)
    }

    /// The offset: 0 by default, never negative.
    pub fn offset(&self) -> (r: i64)
        ensures
            r == match self.offset {
                Some(o) => if o < 0 {
                    0
                } else {
                    o
                },
                None => 0,
            },
            r >= 0,
    {
        page_offset(self.offset)
    }
}

/// The totals shown on the admin dashboard.
#[derive(Debug, Clone)]
pub struct AdminStatsResponse {
    pub users: i64,
    pub machines: i64,
    pub projects: i64,
    pub observations: i64,
    pub active_shares: i64,
    pub invites: i64,
    pub recent: Recent24h,
}

/// What happened during the last day.
#[derive(Debug, Clone)]
pub struct Recent24h {
    pub users: i64,
    pub projects: i64,
    pub observations: i64,
    pub audit_events: i64,
}

/// The start of the dashboard's "last day": 86 400 seconds before `now`.
pub fn recent_since(now: i64) -> (r: i64)
    requires
        now >= i64::MIN + 86400,
    ensures
        r == now - 86400,
{
    now - 86_400
}

/// A user as the admin API lists it.
#[derive(Debug, Clone)]
pub struct AdminUserView {
    pub id: String,
    pub username: String,
    pub email: Option<String>,
    pub is_admin: bool,
    pub is_active: bool,
    pub created_at: i64,
    pub last_login_at: Option<i64>,
    pub registration_ip: Option<String>,
    pub last_login_ip: Option<String>,
    pub machine_count: i64,
    pub project_count: i64,
    pub observation_count: i64,
}

/// A request to create a user.
#[derive(Debug, Clone)]
pub struct CreateUserBody {
    pub username: String,
    pub password: String,
    pub email: Option<String>,
    pub is_admin: bool,
}

/// The user that was created.
#[derive(Debug, Clone)]
pub struct CreateUserResponse {
    pub id: String,
    pub username: String,
}

/// A change to a user: admin flag, active flag, new password.
#[derive(Debug, Clone)]
pub struct PatchUserBody {
    pub is_admin: Option<bool>,
    pub is_active: Option<bool>,
    pub password: Option<String>,
}

/// The answer to a user change (and to a password reset).
#[derive(Debug, Clone)]
pub struct PatchUserResponse {
    pub ok: bool,
    pub new_password: Option<String>,
}

/// An invite as the admin API lists it.
#[derive(Debug, Clone)]
pub struct AdminInviteView {
    pub code: String,
    pub max_uses: i64,
    pub use_count: i64,
    pub created_at: i64,
    pub expires_at: Option<i64>,
    pub used_by: Option<String>,
    pub status: &'static str,
}

/// A request to create an invite.
#[derive(Debug, Clone)]
pub struct CreateInviteBody {
    pub max_uses: i64,
    pub expires_days: Option<i64>,
}

/// The invite that was created.
#[derive(Debug, Clone)]
pub struct CreateInviteResponse {
    pub code: String,
    pub expires_at: Option<i64>,
}

/// Filters of the admin project list.
#[derive(Debug, Clone)]
pub struct ProjectsQuery {
    pub user: Option<String>,
    pub q: Option<String>,
    pub limit: Option<i64>,
    pub offset: Option<i64>,
}

/// A project as the admin API lists it.
#[derive(Debug, Clone)]
pub struct AdminProjectView {
    pub id: String,
    pub user_id: String,
    pub username: String,
    pub name: String,
    pub display_name: Option<String>,
    pub description: Option<String>,
    pub is_excluded: bool,
    pub created_at: i64,
    pub observation_count: i64,
    pub share_count: i64,
}

/// Filters of the admin observation list.
#[derive(Debug, Clone)]
pub struct ObservationsQuery {
    pub q: Option<String>,
    pub user: Option<String>,
    pub project: Option<String>,
    pub obs_type: Option<String>,
    pub from: Option<i64>,
    pub to: Option<i64>,
    pub limit: Option<i64>,
    pub offset: Option<i64>,
    pub include_deleted: bool,
}

/// An observation as the admin API lists it.
#[derive(Debug, Clone)]
pub struct AdminObservationView {
    pub id: String,
    pub user_id: String,
    pub username: String,
    pub machine_id: String,
    pub project_id: Option<String>,
    pub project_name: Option<String>,
    pub timestamp: i64,
    pub project_path: Option<String>,
    pub content: String,
    pub obs_type: Option<String>,
    pub server_seq: i64,
    pub server_received_at: i64,
    pub deleted_at: Option<i64>,
}

/// A share as the admin API lists it.
#[derive(Debug, Clone)]
pub struct AdminShareView {
    pub id: String,
    pub project_id: String,
    pub project_name: String,
    pub sharer_user_id: String,
    pub sharer_username: String,
    pub target_type: String,
    pub target_user_id: Option<String>,
    pub target_username: Option<String>,
    pub share_token: Option<String>,
    pub share_mode: String,
    pub expires_at: Option<i64>,
    pub created_at: i64,
    pub revoked_at: Option<i64>,
}

/// Filters of the admin audit list.
#[derive(Debug, Clone)]
pub struct AuditQuery {
    pub user: Option<String>,
    pub action: Option<String>,
    pub from: Option<i64>,
    pub to: Option<i64>,
    pub limit: Option<i64>,
}

/// An audit entry as the admin API lists it.
#[derive(Debug, Clone)]
pub struct AdminAuditView {
    pub id: i64,
    pub user_id: Option<String>,
    pub username: Option<String>,
    pub machine_id: Option<String>,
    pub action: String,
    pub target_type: Option<String>,
    pub target_id: Option<String>,
    pub created_at: i64,
}

// ---------- users ----------

/// The alphabet of generated passwords (URL-safe base64).
pub open spec fn password_alphabet() -> Seq<char> {
    "ABCDEFGHIJKLMNOPQRSTUVWXYZabcdefghijklmnopqrstuvwxyz0123456789-_"@
}

fn alphabet_char(i: u8) -> (c: char)
    requires
        i < 64,
    ensures
        c == password_alphabet()[i as int],
        is_safe_char(c),
{
    proof {
        reveal_strlit("ABCDEFGHIJKLMNOPQRSTUVWXYZabcdefghijklmnopqrstuvwxyz0123456789-_");
    }
    if i < 26 {
        (65u8 + i) as char
    } else if i < 52 {
        (97u8 + (i - 26)) as char
    } else if i < 62 {
        (48u8 + (i - 52)) as char
    } else if i == 62 {
        '-'
    } else {
        '_'
    }
}

/// The password that 18 random bytes give: the byte at each position,
/// modulo 64, picks that position's character of `password_alphabet`.
pub fn password_from_bytes(buf: &[u8]) -> (r: String)
    requires
        buf@.len() == 18,
    ensures
        r@.len() == 18,
        forall|i: int| 0 <= i < 18 ==> #[trigger] r@[i] == password_alphabet()[(buf@[i] % 64) as int],
{
    let mut out: Vec<char> = Vec::new();
    let mut i: usize = 0;
    while i < 18
        invariant
            i <= 18,
            buf@.len() == 18,
            out@.len() == i,
            forall|j: int| 0 <= j < i ==> #[trigger] out@[j] == password_alphabet()[(buf@[j] % 64) as int],
        decreases 18 - i,
    {
        let k: u8 = buf[i] % 64;
        let c = alphabet_char(k);
        out.push(c);
        i = i + 1;
    }
    string_of(&out)
}

/// A new random password: 18 random bytes read through
/// `password_from_bytes`, so 18 characters of `password_alphabet`.
pub fn rand_password() -> (r: String)
    ensures
        r@.len() == 18,
        forall|i: int| 0 <= i < 18 ==> password_alphabet().contains(#[trigger] r@[i]),
        exists|b: Seq<u8>| b.len() == 18 && forall|i: int| 0 <= i < 18 ==> #[trigger] r@[i]
            == password_alphabet()[(b[i] % 64) as int],
{
    let buf = random_bytes(18);
    let r = password_from_bytes(buf.as_slice());
    proof {
        reveal_strlit("ABCDEFGHIJKLMNOPQRSTUVWXYZabcdefghijklmnopqrstuvwxyz0123456789-_");
        assert(password_alphabet().len() == 64);
        assert forall|i: int| 0 <= i < 18 implies password_alphabet().contains(#[trigger] r@[i]) by {
            let k = (buf@[i] % 64) as int;
            assert(password_alphabet()[k] == r@[i]);
        }
        assert(buf@.len() == 18);
    }
    r
}

/// Checks a user that an admin creates: a non-blank username and a
/// password of at least 8 characters.
pub fn validate_admin_new_user(username: &str, password: &str) -> (r: Result<(), AppError>)
    ensures
        trim_spec(username@).len() == 0 ==> (r matches Err(AppError::Validation(e)) && e@
            == "username required"@),
        trim_spec(username@).len() > 0 && password@.len() < 8 ==> (r matches Err(
            AppError::Validation(e),
        ) && e@ == "password must be ≥8 chars"@),
        trim_spec(username@).len() > 0 && password@.len() >= 8 ==> r is Ok,
{
    let u = trim_chars(&chars_of(username));
    if u.len() == 0 {
        return Err(validation("username required"));
    }
    check_admin_password(password)
}

/// An admin-set password must have at least 8 characters.
pub fn check_admin_password(password: &str) -> (r: Result<(), AppError>)
    ensures
        password@.len() < 8 ==> (r matches Err(AppError::Validation(e)) && e@
            == "password must be ≥8 chars"@),
        password@.len() >= 8 ==> r is Ok,
{
    let p = chars_of(password);
    if p.len() < 8 {
        return Err(validation("password must be ≥8 chars"));
    }
    Ok(())
}

/// Whether a change takes away an admin's rights or disables an active
/// account (only then must the last active admin be protected).
pub open spec fn spec_patch_reduces(target: UserRow, is_admin: Option<bool>, is_active: Option<bool>) -> bool {
    (is_admin == Some(false) && target.is_admin != 0) || (is_active == Some(false)
        && target.is_active != 0)
}

/// Whether the change must count the active admins first.
pub fn patch_needs_admin_count(target: &UserRow, is_admin: Option<bool>, is_active: Option<bool>) -> (r:
    bool)
    ensures
        r == spec_patch_reduces(*target, is_admin, is_active),
{
    (is_admin == Some(false) && target.is_admin != 0) || (is_active == Some(false)
        && target.is_active != 0)
}

/// Whether `target` is an active admin.
pub open spec fn is_active_admin(target: UserRow) -> bool {
    target.is_admin != 0 && target.is_active != 0
}

/// The guard of a user change: demoting or disabling the only active admin
/// (as `active_admins` counts them) is refused.
pub fn check_patch_keeps_admin(
    target: &UserRow,
    is_admin: Option<bool>,
    is_active: Option<bool>,
    active_admins: i64,
) -> (r: Result<(), AppError>)
    ensures
        spec_patch_reduces(*target, is_admin, is_active) && is_active_admin(*target) && active_admins
            <= 1 ==> (r matches Err(AppError::Conflict(e)) && e@
            == "cannot demote/disable the last active admin"@),
        !(spec_patch_reduces(*target, is_admin, is_active) && is_active_admin(*target)
            && active_admins <= 1) ==> r is Ok,
{
    if patch_needs_admin_count(target, is_admin, is_active) && target.is_admin != 0
        && target.is_active != 0 && active_admins <= 1 {
        Err(AppError::Conflict(owned("cannot demote/disable the last active admin")))
    } else {
        Ok(())
    }
}

/// The guard of deleting a user: not the only active admin, and not the
/// admin making the request (checked in that order).
pub fn check_delete_user(target: &UserRow, active_admins: i64, admin_id: &str) -> (r: Result<
    (),
    AppError,
>)
    ensures
        is_active_admin(*target) && active_admins <= 1 ==> (r matches Err(AppError::Conflict(e))
            && e@ == "cannot delete the last active admin"@),
        !(is_active_admin(*target) && active_admins <= 1) && target.id@ == admin_id@ ==> (r matches Err(
            AppError::Conflict(e),
        ) && e@ == "admin cannot delete self"@),
        !(is_active_admin(*target) && active_admins <= 1) && target.id@ != admin_id@ ==> r is Ok,
{
    if target.is_admin != 0 && target.is_active != 0 && active_admins <= 1 {
        return Err(AppError::Conflict(owned("cannot delete the last active admin")));
    }
    if str_eq(target.id.as_str(), admin_id) {
        return Err(AppError::Conflict(owned("admin cannot delete self")));
    }
    Ok(())
}

/// The active admins left after a change that the guards let through: if
/// the target was the only active admin, it still is one.
pub proof fn law_last_admin_kept(
    target: UserRow,
    is_admin: Option<bool>,
    is_active: Option<bool>,
    active_admins: i64,
)
    requires
        is_active_admin(target),
        active_admins <= 1,
        !(spec_patch_reduces(target, is_admin, is_active) && is_active_admin(target) && active_admins
            <= 1),
    ensures
        is_admin != Some(false),
        is_active != Some(false),
{
}

/// The audit action of setting the admin flag.
pub fn admin_flag_action(is_admin: bool) -> (r: &'static str)
    ensures
        is_admin ==> r@ == "admin.user_promote"@,
        !is_admin ==> r@ == "admin.user_demote"@,
{
    proof {
        reveal_strlit("admin.user_promote");
        reveal_strlit("admin.user_demote");
    }
    if is_admin {
        "admin.user_promote"
    } else {
        "admin.user_demote"
    }
}

/// The audit action of setting the active flag.
pub fn active_flag_action(is_active: bool) -> (r: &'static str)
    ensures
        is_active ==> r@ == "admin.user_enable"@,
        !is_active ==> r@ == "admin.user_disable"@,
{
    proof {
        reveal_strlit("admin.user_enable");
        reveal_strlit("admin.user_disable");
    }
    if is_active {
        "admin.user_enable"
    } else {
        "admin.user_disable"
    }
}

/// A user filter of the admin lists: trimmed, and nothing when blank.
pub fn user_filter(raw: Option<&str>) -> (r: Option<String>)
    ensures
        match raw {
            Some(s) => if trim_spec(s@).len() > 0 {
                r matches Some(t) && t@ == trim_spec(s@)
            } else {
                r is None
            },
            None => r is None,
        },
{
    match raw {
        Some(s) => {
            let t = trim_chars(&chars_of(s));
            if t.len() > 0 {
                Some(string_of(&t))
            } else {
                None
            }
        },
        None => None,
    }
}

/// The user a filter names: the user with that id if there is one, else
/// the user with that name.
pub fn pick_filter_user(by_id: Option<String>, by_username: Option<String>) -> (r: Option<String>)
    ensures
        r == match by_id {
            Some(i) => Some(i),
            None => by_username,
        },
{
    match by_id {
        Some(i) => Some(i),
        None => by_username,
    }
}

// ---------- invites ----------

/// The default number of uses of an invite.
pub fn default_one() -> (r: i64)
    ensures
        r == 1,
{
    1
}

/// The status of an invite at time `now`: exhausted once its uses are
/// spent, else expired once its expiry has passed, else active.
pub open spec fn spec_invite_status(use_count: i64, max_uses: i64, expires_at: Option<i64>, now: i64) -> Seq<
    char,
> {
    if use_count >= max_uses {
        "exhausted"@
    } else if expires_at matches Some(e) && e <= now {
        "expired"@
    } else {
        "active"@
    }
}

/// The status of an invite at time `now`.
pub fn invite_status(use_count: i64, max_uses: i64, expires_at: Option<i64>, now: i64) -> (r:
    &'static str)
    ensures
        r@ == spec_invite_status(use_count, max_uses, expires_at, now),
{
    proof {
        reveal_strlit("exhausted");
        reveal_strlit("expired");
        reveal_strlit("active");
    }
    if use_count >= max_uses {
        "exhausted"
    } else {
        match expires_at {
            Some(e) => if e <= now {
                "expired"
            } else {
                "active"
            },
            None => "active",
        }
    }
}

/// The status of a stored invite at time `now`.
pub fn invite_row_status(row: &InviteRow, now: i64) -> (r: &'static str)
    ensures
        r@ == spec_invite_status(row.use_count, row.max_uses, row.expires_at, now),
{
    invite_status(row.use_count, row.max_uses, row.expires_at, now)
}

/// An invite must allow at least one use.
pub fn check_max_uses(max_uses: i64) -> (r: Result<(), AppError>)
    ensures
        max_uses < 1 ==> (r matches Err(AppError::Validation(e)) && e@ == "max_uses must be ≥1"@),
        max_uses >= 1 ==> r is Ok,
{
    if max_uses < 1 {
        Err(validation("max_uses must be ≥1"))
    } else {
        Ok(())
    }
}

/// When an invite made at `now` expires: after `expires_days` days, or
/// never.
pub fn invite_expiry(now: i64, expires_days: Option<i64>) -> (r: Option<i64>)
    requires
        expires_days matches Some(d) ==> i64::MIN <= d * 86400 <= i64::MAX && i64::MIN <= now + d
            * 86400 <= i64::MAX,
    ensures
        r == match expires_days {
            Some(d) => Some((now + d * 86400) as i64),
            None => None::<i64>,
        },
{
    match expires_days {
        Some(d) => {
            Some(now + d * 86_400)
        },
        None => None,
    }
}

/// A new invite code: 32 random URL-safe characters.
pub fn new_invite_code() -> (r: String)
    ensures
        r@.len() == 32,
        forall|i: int| 0 <= i < 32 ==> is_safe_char(#[trigger] r@[i]),
{
    nanoid_safe(32)
}

/// An invite whose uses are spent is exhausted whatever its expiry; an
/// unexpired invite with uses left is active.
pub proof fn law_invite_status_precedence(use_count: i64, max_uses: i64, expires_at: Option<i64>, now: i64)
    ensures
        use_count >= max_uses ==> spec_invite_status(use_count, max_uses, expires_at, now)
            == "exhausted"@,
        use_count < max_uses && (expires_at is None || expires_at.unwrap() > now)
            ==> spec_invite_status(use_count, max_uses, expires_at, now) == "active"@,
{
}

} // verus!
