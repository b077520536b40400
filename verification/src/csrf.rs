//! Double-submit CSRF protection of the admin web forms: the token lives in
//! a cookie and must come back, unchanged, in the `_csrf` field of every
//! state-changing form submission.

use vstd::prelude::*;
use crate::text::{chars_of, concat_str, split_chars, split_on, strip_prefix, strip_prefix_spec,
    string_of, str_eq};
use crate::cookies::{
    cookie_header, cookie_ok, cookie_value, first_value, law_cookie_read_back, pair_text,
    spec_cookie_value,
};

verus! {

/// The name of the cookie that carries the CSRF token.
pub const CSRF_COOKIE_NAME: &'static str = "cmem_admin_csrf";

/// The form field that echoes the CSRF token.
pub const CSRF_FORM_FIELD: &'static str = "_csrf";

/// The CSRF token of the current request, handed to the page templates.
#[derive(Debug, Clone)]
pub struct CsrfToken(pub String);

impl CsrfToken {
    /// The token text.
    pub fn as_str(&self) -> (r: &str)
        ensures
            r@ == self.0@,
    {
        self.0.as_str()
    }
}

/// What `std::str::from_utf8` decodes from a byte string: the characters
/// of valid UTF-8 (no overlong forms, no surrogates), `None` otherwise.
pub open spec fn spec_utf8_decode(b: Seq<u8>) -> Option<Seq<char>> {
    if vstd::utf8::valid_utf8(b) {
        Some(vstd::utf8::decode_utf8(b))
    } else {
        None
    }
}

/// Every byte is below 128.
pub open spec fn all_ascii(b: Seq<u8>) -> bool {
    forall|i: int| 0 <= i < b.len() ==> b[i] < 128
}

/// The characters that ASCII bytes stand for.
pub open spec fn ascii_text(b: Seq<u8>) -> Seq<char> {
    b.map_values(|x: u8| x as char)
}

/// Calls `std::str::from_utf8`: the text that `body` encodes in UTF-8, or
/// `None` when it is not valid UTF-8. Bytes below 128 are ASCII, which
/// UTF-8 encodes one byte per character.
#[verifier::external_body]
fn utf8_decode(body: &[u8]) -> (r: Option<String>)
    ensures
        r matches Some(s) ==> spec_utf8_decode(body@) == Some(s@),
        r is None ==> spec_utf8_decode(body@) is None,
        all_ascii(body@) ==> r is Some && r.unwrap()@ == ascii_text(body@),
{
    std::str::from_utf8(body).ok().map(|s| s.to_string())
}

/// What follows `prefix` in the first piece of `ps` that starts with it.
pub open spec fn spec_first_with_prefix(ps: Seq<Seq<char>>, prefix: Seq<char>) -> Option<
    Seq<char>,
>
    decreases ps.len(),
{
    if ps.len() == 0 {
        None
    } else {
        match strip_prefix_spec(ps[0], prefix) {
            Some(rest) => Some(rest),
            None => spec_first_with_prefix(ps.skip(1), prefix),
        }
    }
}

/// The `_csrf` value of a url-encoded form: what follows `_csrf=` in the
/// first `&`-separated pair that starts with it, taken as it stands.
pub open spec fn spec_csrf_in_form(s: Seq<char>) -> Option<Seq<char>> {
    spec_first_with_prefix(split_on(s, '&'), "_csrf="@)
}

/// The `_csrf` field of a url-encoded form body; `None` when the body is
/// not UTF-8 or has no such field.
pub fn extract_csrf_from_form(body: &[u8]) -> (r: Option<String>)
    ensures
        spec_utf8_decode(body@) is None ==> r is None,
        spec_utf8_decode(body@) matches Some(s) ==> (match spec_csrf_in_form(s) {
            Some(v) => r matches Some(t) && t@ == v,
            None => r is None,
        }),
{
    let text = match utf8_decode(body) {
        Some(t) => t,
        None => {
            return None;
        },
    };
    let v = chars_of(text.as_str());
    let prefix = chars_of("_csrf=");
    let parts = split_chars(&v, '&');
    let ghost ps = parts@.map_values(|p: Vec<char>| p@);
    let mut i: usize = 0;
    proof {
        assert(ps.skip(0) =~= ps);
    }
    while i < parts.len()
        invariant
            i <= parts.len(),
            ps == parts@.map_values(|p: Vec<char>| p@),
            ps == split_on(text@, '&'),
            prefix@ == "_csrf="@,
            spec_utf8_decode(body@) == Some(text@),
            spec_csrf_in_form(text@) == spec_first_with_prefix(ps.skip(i as int), prefix@),
        decreases parts.len() - i,
    {
        proof {
            assert(ps.skip(i as int)[0] == parts@[i as int]@);
            assert(ps.skip(i as int).skip(1) =~= ps.skip(i + 1));
        }
        if let Some(rest) = strip_prefix(&parts[i], &prefix) {
            return Some(string_of(&rest));
        }
        i = i + 1;
    }
    None
}

/// Whether an HTTP method changes server state (and so needs the token).
pub open spec fn spec_is_state_changing(method: Seq<char>) -> bool {
    method == "POST"@ || method == "PUT"@ || method == "PATCH"@ || method == "DELETE"@
}

/// Whether the HTTP method named `method` changes server state.
pub fn is_state_changing(method: &str) -> (r: bool)
    ensures
        r == spec_is_state_changing(method@),
{
    str_eq(method, "POST") || str_eq(method, "PUT") || str_eq(method, "PATCH") || str_eq(
        method,
        "DELETE",
    )
}

/// The token already held in the request's CSRF cookie, if the `Cookie`
/// header has a non-empty one.
pub open spec fn spec_cookie_token(cookie_header: Option<Seq<char>>) -> Option<Seq<char>> {
    match cookie_header {
        Some(h) => match spec_cookie_value(h, "cmem_admin_csrf"@) {
            Some(t) => if t.len() > 0 {
                Some(t)
            } else {
                None
            },
            None => None,
        },
        None => None,
    }
}

/// The token held in the request's CSRF cookie (`None`: a new one must be
/// issued and set).
pub fn existing_csrf_token(cookie_header: Option<&str>) -> (r: Option<String>)
    ensures
        r matches Some(t) ==> spec_cookie_token(crate::i18n::opt_view(cookie_header)) == Some(
            t@,
        ),
        r is None ==> spec_cookie_token(crate::i18n::opt_view(cookie_header)) is None,
{
    match cookie_header {
        Some(h) => match cookie_value(h, CSRF_COOKIE_NAME) {
            Some(t) => {
                proof {
                    reveal_strlit("cmem_admin_csrf");
                }
                if t.len() > 0 {
                    Some(string_of(&t))
                } else {
                    None
                }
            },
            None => None,
        },
        None => None,
    }
}

/// Whether the request may go on: requests that change nothing always do;
/// a state-changing one does when protection is off, or when the submitted
/// `_csrf` field equals the cookie token.
pub open spec fn spec_csrf_allows(
    enabled: bool,
    state_changing: bool,
    token: Seq<char>,
    submitted: Option<Seq<char>>,
) -> bool {
    !state_changing || !enabled || submitted == Some(token)
}

/// The CSRF verdict for a request whose cookie token is `token` and whose
/// form submitted `submitted`.
pub fn csrf_allows(enabled: bool, state_changing: bool, token: &str, submitted: Option<&str>) -> (r:
    bool)
    ensures
        r == spec_csrf_allows(enabled, state_changing, token@, crate::i18n::opt_view(submitted)),
{
    if !state_changing || !enabled {
        return true;
    }
    match submitted {
        Some(s) => str_eq(s, token),
        None => false,
    }
}

/// The `Set-Cookie` value that issues the CSRF token.
pub open spec fn spec_csrf_set_cookie(token: Seq<char>) -> Seq<char> {
    "cmem_admin_csrf="@ + token + "; HttpOnly; Path=/admin; Max-Age=86400; SameSite=Strict"@
}

/// The `Set-Cookie` value that issues `token`.
pub fn csrf_set_cookie(token: &str) -> (r: String)
    ensures
        r@ == spec_csrf_set_cookie(token@),
{
    let head = concat_str("cmem_admin_csrf=", token);
    concat_str(head.as_str(), "; HttpOnly; Path=/admin; Max-Age=86400; SameSite=Strict")
}

/// With protection on, a state-changing request is let through exactly when
/// it echoes the cookie token; a request that changes nothing is always let
/// through.
pub proof fn law_csrf_double_submit(
    state_changing: bool,
    token: Seq<char>,
    submitted: Option<Seq<char>>,
)
    ensures
        !state_changing ==> spec_csrf_allows(true, state_changing, token, submitted),
        state_changing ==> (spec_csrf_allows(true, state_changing, token, submitted) <==> submitted
            == Some(token)),
        spec_csrf_allows(false, state_changing, token, submitted),
{
}

/// The token a response issues is the one later requests are checked
/// against: `csrf_set_cookie` sets the cookie `cmem_admin_csrf=<token>`, and
/// the `Cookie` header of a browser that holds it gives the token back.
pub proof fn law_csrf_cookie_round_trip(pairs: Seq<(Seq<char>, Seq<char>)>, token: Seq<char>)
    requires
        token.len() > 0,
        pairs.len() >= 1,
        forall|i: int| 0 <= i < pairs.len() ==> cookie_ok(#[trigger] pairs[i]),
        first_value(pairs, "cmem_admin_csrf"@) == Some(token),
    ensures
        spec_csrf_set_cookie(token) == pair_text(("cmem_admin_csrf"@, token))
            + "; HttpOnly; Path=/admin; Max-Age=86400; SameSite=Strict"@,
        spec_cookie_token(Some(cookie_header(pairs))) == Some(token),
{
    reveal_strlit("cmem_admin_csrf");
    reveal_strlit("cmem_admin_csrf=");
    assert(!"cmem_admin_csrf"@.contains('=')) by {
        let n = "cmem_admin_csrf"@;
        assert forall|j: int| 0 <= j < n.len() implies n[j] != '=' by {}
    }
    law_cookie_read_back(pairs, "cmem_admin_csrf"@);
    assert(pair_text(("cmem_admin_csrf"@, token)) =~= "cmem_admin_csrf="@ + token);
    assert(spec_csrf_set_cookie(token) =~= pair_text(("cmem_admin_csrf"@, token))
        + "; HttpOnly; Path=/admin; Max-Age=86400; SameSite=Strict"@);
}

} // verus!
