//! JSON Web Tokens signed with HMAC-SHA256: issuing access tokens and
//! reading back their claims, through `jsonwebtoken`.

use vstd::prelude::*;
use crate::auth::{Claims, TokenKind};
use crate::error::AppError;
use crate::text::{owned, str_eq};
use crate::i18n::opt_view;

verus! {

/// The claims of a token as plain values: subject, kind (as written in the
/// token), issue time, expiry and machine.
pub type RawClaims = (Seq<char>, Seq<char>, i64, i64, Option<Seq<char>>);

/// What `jsonwebtoken` reads from `token` under an HS256 `secret` when the
/// expiry is not checked: the claims of a token whose signature and
/// algorithm are right and whose payload holds a string `sub` and `kind`,
/// integer `iat` and `exp` (`exp` not negative) and an optional string
/// `mid`; `None` for any other token.
pub uninterp spec fn spec_jwt_hs256_claims(secret: Seq<u8>, token: Seq<char>) -> Option<RawClaims>;

/// The token `jsonwebtoken` writes for the given claims under an HS256
/// `secret`.
pub uninterp spec fn spec_jwt_hs256_token(secret: Seq<u8>, claims: RawClaims) -> Seq<char>;

/// Calls `jsonwebtoken::encode` with an HS256 header and the key
/// `EncodingKey::from_secret(secret)` on the claims object `sub`, `kind`,
/// `iat`, `exp` and, when there is one, `mid`. Encoding a JSON object under
/// an HMAC key does not fail. Decoding the token with the same secret gives
/// the claims back when `exp` is not negative (`jsonwebtoken` requires an
/// unsigned `exp`).
#[verifier::external_body]
fn jwt_hs256_encode(
    secret: &[u8],
    sub: &str,
    kind: &str,
    iat: i64,
    exp: i64,
    mid: Option<&str>,
) -> (r: Result<String, String>)
    ensures
        r matches Ok(t) ==> t@ == spec_jwt_hs256_token(
            secret@,
            (sub@, kind@, iat, exp, opt_view(mid)),
        ),
        r matches Ok(t) ==> (exp >= 0 ==> spec_jwt_hs256_claims(secret@, t@) == Some(
            (sub@, kind@, iat, exp, opt_view(mid)),
        )),
        r is Ok,
{
    let mut m = serde_json::Map::new();
    m.insert("sub".to_string(), sub.into());
    m.insert("kind".to_string(), kind.into());
    m.insert("iat".to_string(), iat.into());
    m.insert("exp".to_string(), exp.into());
    if let Some(x) = mid {
        m.insert("mid".to_string(), x.into());
    }
    let header = jsonwebtoken::Header::new(jsonwebtoken::Algorithm::HS256);
    let key = jsonwebtoken::EncodingKey::from_secret(secret);
    jsonwebtoken::encode(&header, &m, &key).map_err(|e| e.to_string())
}

/// Calls `jsonwebtoken::decode` into a JSON value with
/// `Validation::new(Algorithm::HS256)` less the expiry check and the key
/// `DecodingKey::from_secret(secret)`, and reads the claims' fields.
#[verifier::external_body]
fn jwt_hs256_decode(secret: &[u8], token: &str) -> (r: Option<(String, String, i64, i64, Option<String>)>)
    ensures
        r matches Some(c) ==> spec_jwt_hs256_claims(secret@, token@) == Some(
            (c.0@, c.1@, c.2, c.3, match c.4 { Some(m) => Some(m@), None => None::<Seq<char>> }),
        ),
        r is None ==> spec_jwt_hs256_claims(secret@, token@) is None,
{
    let mut v = jsonwebtoken::Validation::new(jsonwebtoken::Algorithm::HS256);
    v.validate_exp = false;
    let key = jsonwebtoken::DecodingKey::from_secret(secret);
    let c = jsonwebtoken::decode::<serde_json::Value>(token, &key, &v).ok()?.claims;
    let text = |k: &str| c.get(k).and_then(|x| x.as_str()).map(String::from);
    let mid = match c.get("mid") {
        None | Some(serde_json::Value::Null) => None,
        Some(x) => Some(x.as_str()?.to_string()),
    };
    Some((text("sub")?, text("kind")?, c.get("iat")?.as_i64()?, c.get("exp")?.as_i64()?, mid))
}

/// How a token writes its kind.
pub open spec fn spec_kind_text(k: TokenKind) -> Seq<char> {
    match k {
        TokenKind::Access => "access"@,
        TokenKind::Refresh => "refresh"@,
    }
}

/// The kind a token's text names, if any.
pub open spec fn spec_kind_of(s: Seq<char>) -> Option<TokenKind> {
    if s == "access"@ {
        Some(TokenKind::Access)
    } else if s == "refresh"@ {
        Some(TokenKind::Refresh)
    } else {
        None
    }
}

/// How a token writes its kind.
pub fn kind_text(k: TokenKind) -> (r: &'static str)
    ensures
        r@ == spec_kind_text(k),
{
    match k {
        TokenKind::Access => "access",
        TokenKind::Refresh => "refresh",
    }
}

/// The kind a token's text names, if any.
pub fn kind_of(s: &str) -> (r: Option<TokenKind>)
    ensures
        r == spec_kind_of(s@),
{
    proof {
        reveal_strlit("access");
        reveal_strlit("refresh");
    }
    if str_eq(s, "access") {
        Some(TokenKind::Access)
    } else if str_eq(s, "refresh") {
        Some(TokenKind::Refresh)
    } else {
        None
    }
}

/// The plain values of claims, their kind written as in a token.
pub open spec fn raw_claims(c: Claims) -> RawClaims {
    (
        c.sub@,
        spec_kind_text(c.kind),
        c.iat,
        c.exp,
        match c.mid {
            Some(m) => Some(m@),
            None => None::<Seq<char>>,
        },
    )
}

/// The token that carries `claims`, signed with `secret`.
pub fn encode_token(secret: &[u8], claims: &Claims) -> (r: String)
    ensures
        r@ == spec_jwt_hs256_token(secret@, raw_claims(*claims)),
        claims.exp >= 0 ==> spec_jwt_hs256_claims(secret@, r@) == Some(raw_claims(*claims)),
        claims.exp >= 0 ==> forall|now: i64|
            claims.exp >= now - 60 ==> #[trigger] spec_decode_token(secret@, r@, now) == Some(
                raw_claims(*claims),
            ),
{
    let mid = match &claims.mid {
        Some(m) => Some(m.as_str()),
        None => None,
    };
    match jwt_hs256_encode(secret, claims.sub.as_str(), kind_text(claims.kind), claims.iat, claims.exp, mid) {
        Ok(t) => {
            proof {
                reveal_strlit("access");
                reveal_strlit("refresh");
                assert(spec_kind_of(spec_kind_text(claims.kind)) is Some);
            }
            t
        },
        Err(_) => String::new(),
    }
}

/// The claims of a new access token for `user_id` (and the machine, if
/// any) issued at `now`, valid for `ttl_secs`.
pub fn access_claims(user_id: &str, machine_id: Option<&str>, now: i64, ttl_secs: i64) -> (r: Claims)
    requires
        i64::MIN <= now + ttl_secs <= i64::MAX,
    ensures
        r.sub@ == user_id@,
        r.kind == TokenKind::Access,
        r.iat == now,
        r.exp == now + ttl_secs,
        r.mid matches Some(m) ==> machine_id matches Some(x) && m@ == x@,
        r.mid is None <==> machine_id is None,
{
    Claims {
        sub: owned(user_id),
        kind: TokenKind::Access,
        iat: now,
        exp: now + ttl_secs,
        mid: match machine_id {
            Some(m) => Some(owned(m)),
            None => None,
        },
    }
}

/// The claims a valid token carries at time `now`: its signature must
/// check out under `secret`, its kind be known, and its expiry not lie
/// more than 60 seconds (the leeway of `jsonwebtoken`) before `now`.
pub open spec fn spec_decode_token(secret: Seq<u8>, token: Seq<char>, now: i64) -> Option<RawClaims> {
    match spec_jwt_hs256_claims(secret, token) {
        Some(c) => if spec_kind_of(c.1) is Some && c.3 >= now - 60 {
            Some(c)
        } else {
            None
        },
        None => None,
    }
}

/// Reads and checks a token at time `now`; any token that is not valid
/// then is unauthorized.
pub fn decode_token(secret: &[u8], token: &str, now: i64) -> (r: Result<Claims, AppError>)
    ensures
        match spec_decode_token(secret@, token@, now) {
            Some(c) => r matches Ok(x) && raw_claims(x) == c,
            None => r == Err::<Claims, AppError>(AppError::Unauthorized),
        },
{
    match jwt_hs256_decode(secret, token) {
        Some((sub, kind, iat, exp, mid)) => {
            let fresh = match now.checked_sub(60) {
                Some(t) => exp >= t,
                None => true,
            };
            match kind_of(kind.as_str()) {
                Some(k) => {
                    if fresh {
                        proof {
                            reveal_strlit("access");
                            reveal_strlit("refresh");
                        }
                        Ok(Claims { sub, kind: k, iat, exp, mid })
                    } else {
                        Err(AppError::Unauthorized)
                    }
                },
                None => Err(AppError::Unauthorized),
            }
        },
        None => Err(AppError::Unauthorized),
    }
}

} // verus!
