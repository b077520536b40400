//! Who is calling: bearer-token extraction, the principals that tokens
//! stand for, the admin gate, and the validation of account and machine
//! names and passwords.

use vstd::prelude::*;
use vstd::string::StringSliceAdditionalSpecFns;
use crate::error::{validation, AppError};
use crate::rows::UserRow;
use crate::text::{ascii_alnum, chars_of, has_prefix, is_ascii_alnum, owned, string_of, str_eq};
use crate::cookies::{bearer_token, cookie_value, spec_bearer_token, spec_cookie_value};

verus! {

/// The kind of a JWT: short-lived access or long-lived refresh.
#[derive(Debug, Clone, Copy, PartialEq, Eq, Structural)]
pub enum TokenKind {
    Access,
    Refresh,
}

/// The claims of a JWT: subject user, kind, issue and expiry times, and the
/// machine it was issued for, if any.
#[derive(Debug, Clone)]
pub struct Claims {
    pub sub: String,
    pub kind: TokenKind,
    pub iat: i64,
    pub exp: i64,
    pub mid: Option<String>,
}

/// The authenticated caller of an API request: a user (by access token,
/// possibly bound to a machine) or a machine (by machine token).
#[derive(Debug, Clone)]
pub enum Principal {
    User { user_id: String, machine_id: Option<String> },
    Machine { user_id: String, machine_id: String },
}

/// The user behind a principal.
pub open spec fn spec_user_id(p: Principal) -> Seq<char> {
    match p {
        Principal::User { user_id, .. } => user_id@,
        Principal::Machine { user_id, .. } => user_id@,
    }
}

impl Principal {
    /// The user behind this principal.
    pub fn user_id(&self) -> (r: &str)
        ensures
            r@ == spec_user_id(*self),
    {
        match self {
            Principal::User { user_id, .. } => user_id.as_str(),
            Principal::Machine { user_id, .. } => user_id.as_str(),
        }
    }
}

/// The token of an `Authorization` header: missing, not a bearer token, or
/// empty are all refusals.
pub open spec fn spec_extract_bearer(authorization: Option<Seq<char>>) -> Option<Seq<char>> {
    match authorization {
        None => None,
        Some(v) => match spec_bearer_token(v) {
            Some(t) => if t.len() > 0 {
                Some(t)
            } else {
                None
            },
            None => None,
        },
    }
}

/// The bearer token of a request, from its `Authorization` header value
/// (`None`: no such header, or one that is not text).
pub fn extract_bearer(authorization: Option<&str>) -> (r: Result<String, AppError>)
    ensures
        match spec_extract_bearer(crate::i18n::opt_view(authorization)) {
            Some(t) => r matches Ok(s) && s@ == t,
            None => r == Err::<String, AppError>(AppError::Unauthorized),
        },
{
    let v = match authorization {
        Some(v) => v,
        None => {
            return Err(AppError::Unauthorized);
        },
    };
    match bearer_token(v) {
        Some(t) => {
            if t.len() == 0 {
                Err(AppError::Unauthorized)
            } else {
                Ok(string_of(&t))
            }
        },
        None => Err(AppError::Unauthorized),
    }
}

/// The principal that decoded JWT claims stand for: only access tokens
/// authenticate; the subject is the user and `mid` its machine.
pub fn principal_from_claims(claims: Claims) -> (r: Result<Principal, AppError>)
    ensures
        claims.kind == TokenKind::Refresh ==> r == Err::<Principal, AppError>(AppError::Unauthorized),
        claims.kind == TokenKind::Access ==> r == Ok::<Principal, AppError>(
            Principal::User { user_id: claims.sub, machine_id: claims.mid },
        ),
{
    match claims.kind {
        TokenKind::Access => Ok(Principal::User { user_id: claims.sub, machine_id: claims.mid }),
        TokenKind::Refresh => Err(AppError::Unauthorized),
    }
}

// ---------- account names and passwords ----------

/// A character allowed in user names: ASCII letters and digits, `_`, `-`.
pub open spec fn username_char(c: char) -> bool {
    is_ascii_alnum(c) || c == '_' || c == '-'
}

/// Why a user name is refused, if it is: a length outside 3..=64
/// characters, or a character other than `[a-zA-Z0-9_-]`.
pub open spec fn spec_username_problem(u: Seq<char>) -> Option<Seq<char>> {
    if u.len() < 3 || u.len() > 64 {
        Some("username length must be 3..=64"@)
    } else if exists|i: int| 0 <= i < u.len() && !username_char(#[trigger] u[i]) {
        Some("username allows [a-zA-Z0-9_-] only"@)
    } else {
        None
    }
}

/// Checks a user name for registration.
pub fn validate_username(username: &str) -> (r: Result<(), AppError>)
    ensures
        match spec_username_problem(username@) {
            None => r is Ok,
            Some(m) => r matches Err(AppError::Validation(msg)) && msg@ == m,
        },
{
    let v = chars_of(username);
    if v.len() < 3 || v.len() > 64 {
        return Err(validation("username length must be 3..=64"));
    }
    let mut i: usize = 0;
    while i < v.len()
        invariant
            i <= v.len(),
            v@ == username@,
            3 <= v.len() <= 64,
            forall|j: int| 0 <= j < i ==> username_char(#[trigger] v@[j]),
        decreases v.len() - i,
    {
        let c = v[i];
        if !(ascii_alnum(c) || c == '_' || c == '-') {
            assert(!username_char(username@[i as int]));
            return Err(validation("username allows [a-zA-Z0-9_-] only"));
        }
        i = i + 1;
    }
    Ok(())
}

/// A user name of 3 to 64 characters, each an ASCII letter (lower or upper
/// case), an ASCII digit, `_` or `-`, is accepted; a name of another length,
/// or holding any other character, is refused.
pub proof fn law_username_charset(u: Seq<char>)
    ensures
        3 <= u.len() <= 64 && (forall|i: int|
            0 <= i < u.len() ==> ('a' <= #[trigger] u[i] && u[i] <= 'z') || ('A' <= u[i] && u[i]
                <= 'Z') || ('0' <= u[i] && u[i] <= '9') || u[i] == '_' || u[i] == '-')
            ==> spec_username_problem(u) is None,
        !(3 <= u.len() <= 64) ==> spec_username_problem(u) is Some,
        (exists|i: int|
            0 <= i < u.len() && !(('a' <= #[trigger] u[i] && u[i] <= 'z') || ('A' <= u[i] && u[i]
                <= 'Z') || ('0' <= u[i] && u[i] <= '9') || u[i] == '_' || u[i] == '-'))
            ==> spec_username_problem(u) is Some,
{
}

/// Why a password is refused, if it is: a length outside 8..=1024
/// characters.
pub open spec fn spec_password_problem(p: Seq<char>) -> Option<Seq<char>> {
    if p.len() < 8 || p.len() > 1024 {
        Some("password length must be 8..=1024"@)
    } else {
        None
    }
}

/// Checks a new password.
pub fn validate_password(password: &str) -> (r: Result<(), AppError>)
    ensures
        match spec_password_problem(password@) {
            None => r is Ok,
            Some(m) => r matches Err(AppError::Validation(msg)) && msg@ == m,
        },
{
    let v = chars_of(password);
    if v.len() < 8 || v.len() > 1024 {
        return Err(validation("password length must be 8..=1024"));
    }
    Ok(())
}

/// Checks the e-mail address given at registration: at most 320 bytes.
pub fn validate_email(email: Option<&str>) -> (r: Result<(), AppError>)
    ensures
        match email {
            Some(e) => if e.len() > 320 {
                r matches Err(AppError::Validation(msg)) && msg@ == "email too long"@
            } else {
                r is Ok
            },
            None => r is Ok,
        },
{
    match email {
        Some(e) => {
            if e.len() > 320 {
                Err(validation("email too long"))
            } else {
                Ok(())
            }
        },
        None => Ok(()),
    }
}

/// The account a login attempt names, if it may log in: it must exist and
/// be active; otherwise the attempt fails like a wrong password.
pub fn login_account(row: Option<UserRow>) -> (r: Result<UserRow, AppError>)
    ensures
        match row {
            Some(u) => if u.is_active != 0 {
                r == Ok::<UserRow, AppError>(u)
            } else {
                r == Err::<UserRow, AppError>(AppError::InvalidCredentials)
            },
            None => r == Err::<UserRow, AppError>(AppError::InvalidCredentials),
        },
{
    match row {
        Some(u) => {
            if u.is_active != 0 {
                Ok(u)
            } else {
                Err(AppError::InvalidCredentials)
            }
        },
        None => Err(AppError::InvalidCredentials),
    }
}

// ---------- machines ----------

/// A character allowed in machine names: ASCII letters and digits, `.`,
/// `_`, `-`.
pub open spec fn machine_name_char(c: char) -> bool {
    is_ascii_alnum(c) || c == '_' || c == '-' || c == '.'
}

/// Why a machine name is refused, if it is: a length outside 1..=64
/// characters, or a character other than `[a-zA-Z0-9._-]`.
pub open spec fn spec_machine_name_problem(n: Seq<char>) -> Option<Seq<char>> {
    if n.len() < 1 || n.len() > 64 {
        Some("machine name length must be 1..=64"@)
    } else if exists|i: int| 0 <= i < n.len() && !machine_name_char(#[trigger] n[i]) {
        Some("machine name allows [a-zA-Z0-9._-] only"@)
    } else {
        None
    }
}

/// Checks the name of a machine being registered.
pub fn validate_machine_name(name: &str) -> (r: Result<(), AppError>)
    ensures
        match spec_machine_name_problem(name@) {
            None => r is Ok,
            Some(m) => r matches Err(AppError::Validation(msg)) && msg@ == m,
        },
{
    let v = chars_of(name);
    if v.len() < 1 || v.len() > 64 {
        return Err(validation("machine name length must be 1..=64"));
    }
    let mut i: usize = 0;
    while i < v.len()
        invariant
            i <= v.len(),
            v@ == name@,
            1 <= v.len() <= 64,
            forall|j: int| 0 <= j < i ==> machine_name_char(#[trigger] v@[j]),
        decreases v.len() - i,
    {
        let c = v[i];
        if !(ascii_alnum(c) || c == '_' || c == '-' || c == '.') {
            assert(!machine_name_char(name@[i as int]));
            return Err(validation("machine name allows [a-zA-Z0-9._-] only"));
        }
        i = i + 1;
    }
    Ok(())
}

/// Checks a machine description: at most 256 characters.
pub fn validate_machine_description(description: Option<&str>) -> (r: Result<(), AppError>)
    ensures
        match description {
            Some(d) => if d@.len() > 256 {
                r matches Err(AppError::Validation(msg)) && msg@ == "description too long"@
            } else {
                r is Ok
            },
            None => r is Ok,
        },
{
    match description {
        Some(d) => {
            let v = chars_of(d);
            if v.len() > 256 {
                Err(validation("description too long"))
            } else {
                Ok(())
            }
        },
        None => Ok(()),
    }
}

/// The user who registers a new machine: only a user's own access token
/// may; a machine token may not (machines do not register machines).
pub fn machine_registrant(principal: &Principal) -> (r: Result<String, AppError>)
    ensures
        match *principal {
            Principal::User { user_id, .. } => r matches Ok(u) && u@ == user_id@,
            Principal::Machine { .. } => r == Err::<String, AppError>(AppError::Forbidden),
        },
{
    match principal {
        Principal::User { user_id, .. } => Ok(user_id.clone()),
        Principal::Machine { .. } => Err(AppError::Forbidden),
    }
}

/// Only the owner of a record may change it.
pub fn require_owner(owner_id: &str, caller_id: &str) -> (r: Result<(), AppError>)
    ensures
        owner_id@ == caller_id@ ==> r is Ok,
        owner_id@ != caller_id@ ==> r == Err::<(), AppError>(AppError::Forbidden),
{
    if str_eq(owner_id, caller_id) {
        Ok(())
    } else {
        Err(AppError::Forbidden)
    }
}

// ---------- the admin gate ----------

/// The name of the cookie that holds the admin web session (a JWT).
pub const ADMIN_COOKIE_NAME: &'static str = "cmem_admin_session";

/// The admin account behind an admitted admin request.
#[derive(Debug, Clone)]
pub struct AdminPrincipal {
    pub user_id: String,
    pub username: String,
}

/// The session token of an admin request: the session cookie first, else a
/// bearer token (which may be empty here).
pub open spec fn spec_admin_token(cookie: Option<Seq<char>>, authorization: Option<Seq<char>>) -> Option<
    Seq<char>,
> {
    let from_cookie = match cookie {
        Some(h) => spec_cookie_value(h, "cmem_admin_session"@),
        None => None,
    };
    match from_cookie {
        Some(t) => Some(t),
        None => match authorization {
            Some(v) => spec_bearer_token(v),
            None => None,
        },
    }
}

/// The admin session cookie wins when the `Cookie` header carries one;
/// otherwise (no admin cookie, or no `Cookie` header at all) the token is
/// the bearer token of the `Authorization` header, so `Bearer <t>` gives
/// `<t>`; with neither there is no token.
pub proof fn law_admin_token_falls_back_to_bearer(
    cookie: Option<Seq<char>>,
    authorization: Option<Seq<char>>,
    t: Seq<char>,
)
    ensures
        (cookie matches Some(h) && spec_cookie_value(h, "cmem_admin_session"@) is Some) ==> spec_admin_token(
            cookie,
            authorization,
        ) == spec_cookie_value(cookie->0, "cmem_admin_session"@),
        !(cookie matches Some(h) && spec_cookie_value(h, "cmem_admin_session"@) is Some)
            ==> spec_admin_token(cookie, authorization) == spec_admin_token(None, authorization),
        spec_admin_token(None, Some("Bearer "@ + t)) == Some(t),
        spec_admin_token(None, Some("bearer "@ + t)) == Some(t),
        spec_admin_token(None, None) is None,
{
    let a = "Bearer "@ + t;
    let b = "bearer "@ + t;
    assert(a.take("Bearer "@.len() as int) =~= "Bearer "@);
    assert(a.skip("Bearer "@.len() as int) =~= t);
    assert(b.take("bearer "@.len() as int) =~= "bearer "@);
    assert(b.skip("bearer "@.len() as int) =~= t);
    reveal_strlit("Bearer ");
    reveal_strlit("bearer ");
    assert("Bearer "@[0] != "bearer "@[0]);
    assert(!has_prefix(b, "Bearer "@)) by {
        assert(b[0] != "Bearer "@[0]);
    }
}

/// The session token of an admin request, from its `Cookie` and
/// `Authorization` header values.
pub fn admin_token(cookie: Option<&str>, authorization: Option<&str>) -> (r: Option<String>)
    ensures
        match spec_admin_token(crate::i18n::opt_view(cookie), crate::i18n::opt_view(authorization)) {
            Some(t) => r matches Some(s) && s@ == t,
            None => r is None,
        },
{
    proof {
        reveal_strlit("cmem_admin_session");
    }
    if let Some(h) = cookie {
        if let Some(t) = cookie_value(h, ADMIN_COOKIE_NAME) {
            return Some(string_of(&t));
        }
    }
    match authorization {
        Some(v) => match bearer_token(v) {
            Some(t) => Some(string_of(&t)),
            None => None,
        },
        None => None,
    }
}

/// Why the admin gate turns a request away.
#[derive(Debug, Clone, Copy, PartialEq, Eq, Structural)]
pub enum AdminDenial {
    /// No valid session: status 401.
    Unauthenticated,
    /// A session of an account that is disabled or not an admin: status 403.
    NotAllowed,
}

/// The admin gate: the token must be a valid access token
/// (`access_token_ok`) of an existing account that is active and an admin.
pub fn admin_gate(access_token_ok: bool, account: Option<UserRow>) -> (r: Result<
    AdminPrincipal,
    AdminDenial,
>)
    ensures
        !access_token_ok ==> r == Err::<AdminPrincipal, AdminDenial>(AdminDenial::Unauthenticated),
        access_token_ok ==> match account {
            None => r == Err::<AdminPrincipal, AdminDenial>(AdminDenial::Unauthenticated),
            Some(u) => if u.is_active == 0 || u.is_admin == 0 {
                r == Err::<AdminPrincipal, AdminDenial>(AdminDenial::NotAllowed)
            } else {
                r matches Ok(a) && a.user_id == u.id && a.username == u.username
            },
        },
{
    if !access_token_ok {
        return Err(AdminDenial::Unauthenticated);
    }
    match account {
        None => Err(AdminDenial::Unauthenticated),
        Some(u) => {
            if u.is_active == 0 || u.is_admin == 0 {
                Err(AdminDenial::NotAllowed)
            } else {
                Ok(AdminPrincipal { user_id: u.id, username: u.username })
            }
        },
    }
}

/// Whether `sub` occurs in `s`.
pub open spec fn contains_text(s: Seq<char>, sub: Seq<char>) -> bool {
    exists|i: int| 0 <= i <= s.len() - sub.len() && #[trigger] s.subrange(i, i + sub.len()) == sub
}

/// Whether `sub` occurs in `s`.
pub fn find_text(s: &Vec<char>, sub: &Vec<char>) -> (r: bool)
    ensures
        r == contains_text(s@, sub@),
{
    if sub.len() > s.len() {
        return false;
    }
    let mut i: usize = 0;
    while i <= s.len() - sub.len()
        invariant
            sub.len() <= s.len(),
            i <= s.len() - sub.len() + 1,
            forall|k: int| 0 <= k < i ==> #[trigger] s@.subrange(k, k + sub@.len()) != sub@,
        decreases s.len() - i,
    {
        let mut j: usize = 0;
        let mut same = true;
        while j < sub.len()
            invariant
                i + sub.len() <= s.len(),
                j <= sub.len(),
                same == forall|m: int| 0 <= m < j ==> s@[i + m] == sub@[m],
            decreases sub.len() - j,
        {
            if s[i + j] != sub[j] {
                same = false;
            }
            j = j + 1;
        }
        if same {
            assert(s@.subrange(i as int, i + sub@.len()) =~= sub@);
            return true;
        }
        proof {
            let m = choose|m: int| 0 <= m < sub.len() && s@[i + m] != sub@[m];
            assert(s@.subrange(i as int, i + sub@.len())[m] != sub@[m]);
        }
        i = i + 1;
    }
    proof {
        assert forall|k: int| 0 <= k <= s@.len() - sub@.len() implies #[trigger] s@.subrange(
            k,
            k + sub@.len(),
        ) != sub@ by {
            assert(k < i);
        }
    }
    false
}

/// Whether a client prefers HTML: its `Accept` header mentions `text/html`.
pub fn wants_html(accept: Option<&str>) -> (r: bool)
    ensures
        r == match accept {
            Some(a) => contains_text(a@, "text/html"@),
            None => false,
        },
{
    match accept {
        Some(a) => {
            let v = chars_of(a);
            let t = chars_of("text/html");
            find_text(&v, &t)
        },
        None => false,
    }
}

/// How a turned-away admin request is answered.
#[derive(Debug, Clone, PartialEq, Eq)]
pub enum AdminFailure {
    /// A browser's page request without a session: redirect to the login page.
    RedirectToLogin,
    /// A browser's page request by a refused account: an HTML error page.
    HtmlError(u16),
    /// Anything else: the JSON error of the API.
    Api(AppError),
}

/// The answer to a turned-away admin request: a browser asking for a page
/// (`GET` with `Accept: text/html`) is sent to the login page, or shown a
/// 403 page; every other client gets the API's JSON error.
pub fn admin_failure(wants_html: bool, is_get: bool, denial: AdminDenial) -> (r: AdminFailure)
    ensures
        r == (if wants_html && is_get {
            match denial {
                AdminDenial::Unauthenticated => AdminFailure::RedirectToLogin,
                AdminDenial::NotAllowed => AdminFailure::HtmlError(403),
            }
        } else {
            match denial {
                AdminDenial::Unauthenticated => AdminFailure::Api(AppError::Unauthorized),
                AdminDenial::NotAllowed => AdminFailure::Api(AppError::Forbidden),
            }
        }),
{
    if wants_html && is_get {
        match denial {
            AdminDenial::Unauthenticated => AdminFailure::RedirectToLogin,
            AdminDenial::NotAllowed => AdminFailure::HtmlError(403),
        }
    } else {
        match denial {
            AdminDenial::Unauthenticated => AdminFailure::Api(AppError::Unauthorized),
            AdminDenial::NotAllowed => AdminFailure::Api(AppError::Forbidden),
        }
    }
}

} // verus!
