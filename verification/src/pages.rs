//! The admin web pages: the values each page shows, and how stored
//! records become table rows (labels, badges, timestamps, previews).

use vstd::prelude::*;
use chrono::TimeZone;
use crate::i18n::LangCtx;
use crate::rows::{AuditRow as StoredAudit, InviteRow as StoredInvite, UserRow as StoredUser};
use crate::admin::{invite_status, spec_invite_status};
use crate::text::{chars_of, concat_str, int_text, owned, spec_int_text, str_eq, string_of, trim_chars, trim_spec};
use crate::error::AppError;
use crate::password::{spec_argon2_verify, verify_password};
use crate::auth::spec_admin_token;
use crate::cookies::{cookie_header, cookie_ok, first_value, law_cookie_read_back, pair_text};

verus! {

// ---------- timestamps ----------

/// The text chrono writes for a Unix time (UTC, `%Y-%m-%d %H:%M:%S UTC`);
/// `None` when chrono cannot represent that time.
pub uninterp spec fn spec_format_utc(ts: i64) -> Option<Seq<char>>;

/// Calls `chrono::Utc.timestamp_opt(ts, 0).single()` and formats the time
/// with `%Y-%m-%d %H:%M:%S UTC`; `None` when the time is out of chrono's
/// range (the epoch itself is within it).
#[verifier::external_body]
fn format_utc(ts: i64) -> (r: Option<String>)
    ensures
        match spec_format_utc(ts) {
            Some(s) => r matches Some(x) && x@ == s,
            None => r is None,
        },
        ts == 0 ==> r is Some,
{
    chrono::Utc.timestamp_opt(ts, 0).single().map(
        |dt| dt.format("%Y-%m-%d %H:%M:%S UTC").to_string(),
    )
}

/// A timestamp as the pages show it; a time out of range shows as the
/// epoch.
pub open spec fn spec_fmt_ts(ts: i64) -> Seq<char> {
    match spec_format_utc(ts) {
        Some(s) => s,
        None => spec_format_utc(0).unwrap(),
    }
}

/// A timestamp as the pages show it.
pub fn fmt_ts(ts: i64) -> (r: String)
    ensures
        r@ == spec_fmt_ts(ts),
{
    match format_utc(ts) {
        Some(s) => s,
        None => match format_utc(0) {
            Some(s) => s,
            None => {
                assert(false);
                String::new()
            },
        },
    }
}

/// An optional timestamp as the pages show it (`-` when absent).
pub fn fmt_opt_ts(ts: Option<i64>) -> (r: String)
    ensures
        r@ == match ts {
            Some(t) => spec_fmt_ts(t),
            None => "-"@,
        },
{
    match ts {
        Some(t) => fmt_ts(t),
        None => owned("-"),
    }
}

/// At most `max` characters of `s`; a longer text is cut and ends in `…`.
pub open spec fn spec_preview(s: Seq<char>, max: nat) -> Seq<char> {
    if s.len() <= max {
        s
    } else {
        s.take(max as int).push('…')
    }
}

/// A preview of `s` of at most `max` characters (and the ellipsis).
pub fn preview(s: &str, max: usize) -> (r: String)
    ensures
        r@ == spec_preview(s@, max as nat),
{
    let v = chars_of(s);
    if v.len() <= max {
        return owned(s);
    }
    let mut out: Vec<char> = Vec::new();
    let mut i: usize = 0;
    while i < max
        invariant
            i <= max < v.len(),
            v@ == s@,
            out@ == v@.take(i as int),
        decreases max - i,
    {
        out.push(v[i]);
        assert(v@.take(i as int).push(v@[i as int]) =~= v@.take(i + 1));
        i = i + 1;
    }
    out.push('…');
    string_of(&out)
}

// ---------- labels ----------

/// `yes` or `no`.
pub fn yes_no(b: bool) -> (r: &'static str)
    ensures
        b ==> r@ == "yes"@,
        !b ==> r@ == "no"@,
{
    proof {
        reveal_strlit("yes");
        reveal_strlit("no");
    }
    if b {
        "yes"
    } else {
        "no"
    }
}

/// The badge style of the admin flag.
pub fn admin_badge(is_admin: bool) -> (r: &'static str)
    ensures
        is_admin ==> r@ == "bg-yellow-100 text-yellow-800"@,
        !is_admin ==> r@ == "bg-gray-100 text-gray-700"@,
{
    proof {
        reveal_strlit("bg-yellow-100 text-yellow-800");
        reveal_strlit("bg-gray-100 text-gray-700");
    }
    if is_admin {
        "bg-yellow-100 text-yellow-800"
    } else {
        "bg-gray-100 text-gray-700"
    }
}

/// The badge style of the active flag.
pub fn active_badge(is_active: bool) -> (r: &'static str)
    ensures
        is_active ==> r@ == "bg-green-100 text-green-800"@,
        !is_active ==> r@ == "bg-red-100 text-red-800"@,
{
    proof {
        reveal_strlit("bg-green-100 text-green-800");
        reveal_strlit("bg-red-100 text-red-800");
    }
    if is_active {
        "bg-green-100 text-green-800"
    } else {
        "bg-red-100 text-red-800"
    }
}

/// The badge style of an invite status.
pub open spec fn spec_invite_badge(status: Seq<char>) -> Seq<char> {
    if status == "exhausted"@ {
        "bg-gray-100 text-gray-700"@
    } else if status == "expired"@ {
        "bg-orange-100 text-orange-800"@
    } else {
        "bg-green-100 text-green-800"@
    }
}

/// The badge style of an invite status.
pub fn invite_badge(status: &str) -> (r: &'static str)
    ensures
        r@ == spec_invite_badge(status@),
{
    proof {
        reveal_strlit("bg-gray-100 text-gray-700");
        reveal_strlit("bg-orange-100 text-orange-800");
        reveal_strlit("bg-green-100 text-green-800");
    }
    if str_eq(status, "exhausted") {
        "bg-gray-100 text-gray-700"
    } else if str_eq(status, "expired") {
        "bg-orange-100 text-orange-800"
    } else {
        "bg-green-100 text-green-800"
    }
}

/// The audit actions shown as a user's login history.
pub open spec fn spec_is_login_history(action: Seq<char>) -> bool {
    action == "auth.login"@ || action == "auth.register"@ || action == "auth.logout"@ || action
        == "auth.refresh"@ || action == "auth.password_change"@
}

/// Whether an audit action belongs to a user's login history.
pub fn is_login_history(action: &str) -> (r: bool)
    ensures
        r == spec_is_login_history(action@),
{
    str_eq(action, "auth.login") || str_eq(action, "auth.register") || str_eq(action, "auth.logout")
        || str_eq(action, "auth.refresh") || str_eq(action, "auth.password_change")
}

// ---------- the admin web login ----------

/// The account a web login names, if it may log in to the admin pages: it
/// must exist, be active and be an admin (anything else reads as invalid
/// credentials, so that admin accounts are not revealed).
pub fn web_login_account(row: Option<StoredUser>) -> (r: Option<StoredUser>)
    ensures
        r == match row {
            Some(u) => if u.is_active != 0 && u.is_admin != 0 {
                Some(u)
            } else {
                None
            },
            None => None,
        },
{
    match row {
        Some(u) => {
            if u.is_active != 0 && u.is_admin != 0 {
                Some(u)
            } else {
                None
            }
        },
        None => None,
    }
}

/// Whether an account may log in to the admin pages: it is active and an
/// admin.
pub open spec fn may_log_in(u: StoredUser) -> bool {
    u.is_active != 0 && u.is_admin != 0
}

/// A web login with `password` for the account `row`: the account, if it
/// exists, is active, is an admin and the password matches its hash. A
/// missing account, an inactive one, one that is no admin and a wrong
/// password all answer the same `InvalidCredentials`; a stored hash that is
/// no PHC string is an internal error.
pub fn web_login(row: Option<StoredUser>, password: &str) -> (r: Result<StoredUser, AppError>)
    ensures
        match row {
            Some(u) => if may_log_in(u) {
                match spec_argon2_verify(password@, u.password_hash@) {
                    Some(true) => r == Ok::<StoredUser, AppError>(u),
                    Some(false) => r == Err::<StoredUser, AppError>(AppError::InvalidCredentials),
                    None => r matches Err(AppError::Internal(_)),
                }
            } else {
                r == Err::<StoredUser, AppError>(AppError::InvalidCredentials)
            },
            None => r == Err::<StoredUser, AppError>(AppError::InvalidCredentials),
        },
{
    let user = match web_login_account(row) {
        Some(u) => u,
        None => {
            return Err(AppError::InvalidCredentials);
        },
    };
    match verify_password(password, user.password_hash.as_str()) {
        Ok(true) => Ok(user),
        Ok(false) => Err(AppError::InvalidCredentials),
        Err(e) => Err(e),
    }
}

/// The session cookie lifetime: the access-token lifetime, at least a
/// minute.
pub fn session_max_age(access_ttl_secs: i64) -> (r: i64)
    ensures
        r == if access_ttl_secs < 60 {
            60
        } else {
            access_ttl_secs
        },
{
    if access_ttl_secs < 60 {
        60
    } else {
        access_ttl_secs
    }
}

/// The `Set-Cookie` value that opens an admin web session: the access
/// token, for `max_age` seconds.
pub fn admin_session_cookie(token: &str, max_age: i64) -> (r: String)
    ensures
        r@ == "cmem_admin_session="@ + token@ + "; HttpOnly; Path=/; Max-Age="@ + spec_int_text(
            max_age as int,
        ) + "; SameSite=Strict"@,
{
    let a = concat_str("cmem_admin_session=", token);
    let b = concat_str(a.as_str(), "; HttpOnly; Path=/; Max-Age=");
    let n = int_text(max_age);
    let c = concat_str(b.as_str(), n.as_str());
    concat_str(c.as_str(), "; SameSite=Strict")
}

/// A web login opens the session that the admin gate reads:
/// `admin_session_cookie` sets the cookie `cmem_admin_session=<token>`, and
/// the `Cookie` header of a browser that holds it gives the token back,
/// whatever `Authorization` header comes with it.
pub proof fn law_admin_session_round_trip(
    pairs: Seq<(Seq<char>, Seq<char>)>,
    token: Seq<char>,
    max_age: i64,
    authorization: Option<Seq<char>>,
)
    requires
        pairs.len() >= 1,
        forall|i: int| 0 <= i < pairs.len() ==> cookie_ok(#[trigger] pairs[i]),
        first_value(pairs, "cmem_admin_session"@) == Some(token),
    ensures
        "cmem_admin_session="@ + token + "; HttpOnly; Path=/; Max-Age="@ + spec_int_text(
            max_age as int,
        ) + "; SameSite=Strict"@ == pair_text(("cmem_admin_session"@, token))
            + "; HttpOnly; Path=/; Max-Age="@ + spec_int_text(max_age as int)
            + "; SameSite=Strict"@,
        spec_admin_token(Some(cookie_header(pairs)), authorization) == Some(token),
{
    reveal_strlit("cmem_admin_session");
    reveal_strlit("cmem_admin_session=");
    assert(!"cmem_admin_session"@.contains('=')) by {
        let n = "cmem_admin_session"@;
        assert forall|j: int| 0 <= j < n.len() implies n[j] != '=' by {}
    }
    law_cookie_read_back(pairs, "cmem_admin_session"@);
    assert(pair_text(("cmem_admin_session"@, token)) =~= "cmem_admin_session="@ + token);
}

/// The `Set-Cookie` value that ends an admin web session.
pub fn admin_logout_cookie() -> (r: &'static str)
    ensures
        r@ == "cmem_admin_session=; HttpOnly; Path=/; Max-Age=0; SameSite=Strict"@,
{
    "cmem_admin_session=; HttpOnly; Path=/; Max-Age=0; SameSite=Strict"
}

// ---------- pages ----------

/// The login page.
pub struct LoginPage<'a> {
    pub ctx: LangCtx,
    pub error: Option<&'a str>,
    pub username: &'a str,
}

/// The dashboard.
pub struct DashboardPage<'a> {
    pub ctx: LangCtx,
    pub admin_username: &'a str,
    pub users: i64,
    pub machines: i64,
    pub projects: i64,
    pub observations: i64,
    pub active_shares: i64,
    pub invites: i64,
    pub recent_users: i64,
    pub recent_observations: i64,
    pub recent_audit: i64,
}

/// The user list.
pub struct UsersPage<'a> {
    pub ctx: LangCtx,
    pub admin_username: &'a str,
    pub query: &'a str,
    pub rows: Vec<UserRow>,
}

/// A row of the user list.
pub struct UserRow {
    pub id: String,
    pub username: String,
    pub email: String,
    pub admin_label: &'static str,
    pub active_label: &'static str,
    pub admin_class: &'static str,
    pub active_class: &'static str,
    pub is_admin: bool,
    pub is_active: bool,
    pub created_at: String,
    pub last_login_at: String,
    pub last_login_ip: String,
    pub registration_ip: String,
    pub machine_count: i64,
    pub project_count: i64,
    pub observation_count: i64,
}

/// One user's details.
pub struct UserDetailPage<'a> {
    pub ctx: LangCtx,
    pub admin_username: &'a str,
    pub user_id: &'a str,
    pub username: &'a str,
    pub email: &'a str,
    pub is_admin: bool,
    pub is_active: bool,
    pub created_at: String,
    pub registration_ip: String,
    pub last_login_at: String,
    pub last_login_ip: String,
    pub login_history: Vec<LoginHistoryRow>,
}

/// A line of a user's login history.
pub struct LoginHistoryRow {
    pub when: String,
    pub action: String,
    pub ip: String,
}

/// A login-history line for an audit entry, if it is one.
pub fn login_history_row(row: &StoredAudit) -> (r: Option<LoginHistoryRow>)
    ensures
        spec_is_login_history(row.action@) ==> (r matches Some(h) && h.when@ == spec_fmt_ts(
            row.created_at,
        ) && h.action@ == row.action@ && h.ip@ == "-"@),
        !spec_is_login_history(row.action@) ==> r is None,
{
    if is_login_history(row.action.as_str()) {
        Some(
            LoginHistoryRow {
                when: fmt_ts(row.created_at),
                action: row.action.clone(),
                ip: owned("-"),
            },
        )
    } else {
        None
    }
}

/// The invite list.
pub struct InvitesPage<'a> {
    pub ctx: LangCtx,
    pub admin_username: &'a str,
    pub rows: Vec<InviteRow>,
}

/// A row of the invite list.
pub struct InviteRow {
    pub code: String,
    pub max_uses: i64,
    pub use_count: i64,
    /// `active`, `expired` or `exhausted`.
    pub status: &'static str,
    pub status_class: &'static str,
    pub created: String,
    pub expires: String,
    pub used_by: String,
}

/// The message key of an invite status (an unknown status reads as
/// active).
pub open spec fn spec_status_key(status: Seq<char>) -> Seq<char> {
    if status == "expired"@ {
        "invites.status.expired"@
    } else if status == "exhausted"@ {
        "invites.status.exhausted"@
    } else {
        "invites.status.active"@
    }
}

impl InviteRow {
    /// The message key of this row's status.
    pub fn status_key(&self) -> (r: &'static str)
        ensures
            r@ == spec_status_key(self.status@),
    {
        proof {
            reveal_strlit("invites.status.active");
            reveal_strlit("invites.status.expired");
            reveal_strlit("invites.status.exhausted");
        }
        if str_eq(self.status, "expired") {
            "invites.status.expired"
        } else if str_eq(self.status, "exhausted") {
            "invites.status.exhausted"
        } else {
            "invites.status.active"
        }
    }
}

/// The invite-list row of a stored invite at time `now`.
pub fn invite_page_row(row: &StoredInvite, now: i64) -> (r: InviteRow)
    ensures
        r.code@ == row.code@,
        r.max_uses == row.max_uses,
        r.use_count == row.use_count,
        r.status@ == spec_invite_status(row.use_count, row.max_uses, row.expires_at, now),
        r.status_class@ == spec_invite_badge(r.status@),
        r.created@ == spec_fmt_ts(row.created_at),
        r.expires@ == match row.expires_at {
            Some(t) => spec_fmt_ts(t),
            None => "-"@,
        },
        r.used_by@ == match row.used_by {
            Some(u) => u@,
            None => Seq::<char>::empty(),
        },
{
    let status = invite_status(row.use_count, row.max_uses, row.expires_at, now);
    InviteRow {
        code: row.code.clone(),
        max_uses: row.max_uses,
        use_count: row.use_count,
        status,
        status_class: invite_badge(status),
        created: fmt_ts(row.created_at),
        expires: fmt_opt_ts(row.expires_at),
        used_by: match &row.used_by {
            Some(u) => u.clone(),
            None => String::new(),
        },
    }
}

/// The project list.
pub struct ProjectsPage<'a> {
    pub ctx: LangCtx,
    pub admin_username: &'a str,
    pub query: &'a str,
    pub user_filter: &'a str,
    pub rows: Vec<ProjectRow>,
}

/// A row of the project list.
pub struct ProjectRow {
    pub id: String,
    pub name: String,
    pub display_name: String,
    pub username: String,
    pub created: String,
    pub observation_count: i64,
    pub share_count: i64,
    pub is_excluded: bool,
}

/// The observation list.
pub struct ObservationsPage<'a> {
    pub ctx: LangCtx,
    pub admin_username: &'a str,
    pub query: &'a str,
    pub user_filter: &'a str,
    pub project_filter: &'a str,
    pub type_filter: &'a str,
    pub rows: Vec<ObservationRow>,
}

/// A row of the observation list.
pub struct ObservationRow {
    pub id: String,
    pub username: String,
    pub project_name: String,
    pub project_path: String,
    pub timestamp: String,
    pub obs_type: String,
    pub content_preview: String,
    pub server_seq: i64,
    pub deleted: bool,
}

/// The share list.
pub struct SharesPage<'a> {
    pub ctx: LangCtx,
    pub admin_username: &'a str,
    pub rows: Vec<ShareRow>,
}

/// A row of the share list.
pub struct ShareRow {
    pub id: String,
    pub project_name: String,
    pub sharer_username: String,
    pub target_type: String,
    pub target_username: String,
    pub share_mode: String,
    pub created: String,
    pub expires: String,
    pub revoked: bool,
}

/// The audit log.
pub struct AuditPage<'a> {
    pub ctx: LangCtx,
    pub admin_username: &'a str,
    pub user_filter: &'a str,
    pub action_filter: &'a str,
    pub rows: Vec<AuditRow>,
}

/// A row of the audit log.
pub struct AuditRow {
    pub id: i64,
    pub when: String,
    pub username: String,
    pub action: String,
    pub target: String,
}

/// The export page.
pub struct ExportPage<'a> {
    pub ctx: LangCtx,
    pub admin_username: &'a str,
}

/// The filters of the admin list pages.
#[derive(Debug, Clone)]
pub struct ListQuery {
    pub q: Option<String>,
    pub user: Option<String>,
    pub project: Option<String>,
    pub obs_type: Option<String>,
    pub action: Option<String>,
}

/// The form of the admin web login.
#[derive(Debug, Clone)]
pub struct LoginForm {
    pub username: String,
    pub password: String,
}

/// A web login form must name a user: a blank username is refused before
/// any lookup.
pub fn check_login_form(form: &LoginForm) -> (r: Result<(), AppError>)
    ensures
        trim_spec(form.username@).len() == 0 ==> (r matches Err(AppError::Validation(e)) && e@
            == "username required"@),
        trim_spec(form.username@).len() > 0 ==> r is Ok,
{
    let v = chars_of(form.username.as_str());
    if trim_chars(&v).len() == 0 {
        Err(AppError::Validation(owned("username required")))
    } else {
        Ok(())
    }
}

} // verus!
