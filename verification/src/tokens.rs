//! Machine tokens (`cmt_` + 32 URL-safe characters), refresh tokens and
//! CSRF tokens (64 hexadecimal digits), and the SHA-256 hex digests under
//! which tokens are stored.

use vstd::prelude::*;
use vstd::string::StringSliceAdditionalSpecFns;
use vstd::utf8::{encode_utf8, is_ascii_chars, is_ascii_chars_encode_utf8};
use crate::crypto::{
    hex_byte_value, hex_decode, hex_digit_lower, hex_encode, is_safe_char, nanoid_safe,
    random_bytes, sha256_digest, spec_hex_decode, spec_hex_encode, spec_sha256,
};
use crate::text::{chars_of, concat_str, has_prefix, starts_with};

verus! {

/// The lowercase hex SHA-256 digest of the UTF-8 bytes of `s`.
pub open spec fn spec_sha256_hex(s: Seq<char>) -> Seq<char> {
    spec_hex_encode(spec_sha256(encode_utf8(s)))
}

/// SHA-256 of the UTF-8 bytes of `input`, as 64 lowercase hex digits.
pub fn sha256_hex(input: &str) -> (r: String)
    ensures
        r@ == spec_sha256_hex(input@),
        r@.len() == 64,
{
    let digest = sha256_digest(input.as_bytes());
    hex_encode(digest.as_slice())
}

/// Whether a bearer token has the machine-token form (`cmt_` prefix).
pub open spec fn spec_is_machine_token(t: Seq<char>) -> bool {
    has_prefix(t, "cmt_"@)
}

/// A new machine token: `cmt_` followed by 32 random URL-safe characters.
pub fn generate_machine_token() -> (r: String)
    ensures
        spec_is_machine_token(r@),
        r@.len() == 36,
        forall|i: int| 4 <= i < 36 ==> is_safe_char(#[trigger] r@[i]),
{
    let body = nanoid_safe(32);
    let r = concat_str("cmt_", body.as_str());
    proof {
        reveal_strlit("cmt_");
        assert(r@.take(4) =~= "cmt_"@);
        assert forall|i: int| 4 <= i < 36 implies is_safe_char(#[trigger] r@[i]) by {
            assert(r@[i] == body@[i - 4]);
        }
    }
    r
}

/// The digest stored for a machine token.
pub fn hash_machine_token(token: &str) -> (r: String)
    ensures
        r@ == spec_sha256_hex(token@),
        r@.len() == 64,
{
    sha256_hex(token)
}

/// Whether `token` has the machine-token form.
pub fn is_machine_token(token: &str) -> (r: bool)
    ensures
        r == spec_is_machine_token(token@),
{
    let t = chars_of(token);
    let p = chars_of("cmt_");
    starts_with(&t, &p)
}

/// 32 random bytes as 64 lowercase hex digits.
pub fn random_hex_secret() -> (r: String)
    ensures
        r@.len() == 64,
        exists|b: Seq<u8>| b.len() == 32 && r@ == spec_hex_encode(b),
{
    let buf = random_bytes(32);
    let r = hex_encode(buf.as_slice());
    assert(buf@.len() == 32 && r@ == spec_hex_encode(buf@));
    r
}

/// A new refresh token and its stored digest: (plain, sha256-hex of plain).
pub fn generate_refresh_token() -> (r: (String, String))
    ensures
        r.0@.len() == 64,
        exists|b: Seq<u8>| b.len() == 32 && r.0@ == spec_hex_encode(b),
        r.1@ == spec_sha256_hex(r.0@),
        r.1@.len() == 64,
{
    let plain = random_hex_secret();
    let hash = sha256_hex(plain.as_str());
    (plain, hash)
}

/// A new CSRF token: 64 random hex digits.
pub fn generate_csrf_token() -> (r: String)
    ensures
        r@.len() == 64,
        exists|b: Seq<u8>| b.len() == 32 && r@ == spec_hex_encode(b),
{
    random_hex_secret()
}

/// Why a configured JWT secret is unusable.
#[derive(Debug, Clone, Copy, PartialEq, Eq, Structural)]
pub enum SecretError {
    /// Not a hexadecimal string.
    NotHex,
    /// Decodes to fewer than 32 bytes.
    TooShort,
}

/// The key bytes of a JWT secret given in hex, which must decode to at
/// least 32 bytes.
pub open spec fn spec_decode_jwt_secret(secret_hex: Seq<char>) -> Result<Seq<u8>, SecretError> {
    match spec_hex_decode(encode_utf8(secret_hex)) {
        None => Err(SecretError::NotHex),
        Some(b) => if b.len() < 32 {
            Err(SecretError::TooShort)
        } else {
            Ok(b)
        },
    }
}

/// Key bytes written out in lowercase hex decode back to the same bytes, so
/// a secret made of 32 or more bytes is always a usable JWT key.
pub proof fn law_hex_secret_decodes(b: Seq<u8>)
    requires
        b.len() >= 32,
    ensures
        spec_decode_jwt_secret(spec_hex_encode(b)) == Ok::<Seq<u8>, SecretError>(b),
{
    let s = spec_hex_encode(b);
    assert forall|i: int| 0 <= i < s.len() implies (#[trigger] s[i] as u32) < 128 && hex_byte_value(
        s[i] as u8,
    ) == Some(if i % 2 == 0 {
        b[i / 2] as int / 16
    } else {
        b[i / 2] as int % 16
    }) by {
        let n: int = if i % 2 == 0 {
            b[i / 2] as int / 16
        } else {
            b[i / 2] as int % 16
        };
        assert(0 <= n < 16);
        assert(s[i] == hex_digit_lower(n));
    }
    assert(is_ascii_chars(s));
    is_ascii_chars_encode_utf8(s);
    let bytes = encode_utf8(s);
    assert(bytes.len() == s.len());
    assert forall|i: int| 0 <= i < bytes.len() implies hex_byte_value(#[trigger] bytes[i]) is Some by {
        assert(bytes[i] == s[i] as u8);
    }
    assert(bytes.len() % 2 == 0);
    let decoded = spec_hex_decode(bytes).unwrap();
    assert(decoded.len() == b.len());
    assert forall|j: int| 0 <= j < b.len() implies decoded[j] == b[j] by {
        assert(bytes[2 * j] == s[2 * j] as u8);
        assert(bytes[2 * j + 1] == s[2 * j + 1] as u8);
        assert((2 * j) / 2 == j);
        assert((2 * j + 1) / 2 == j);
        assert((2 * j) % 2 == 0);
        assert((2 * j + 1) % 2 == 1);
        assert(b[j] as int / 16 * 16 + b[j] as int % 16 == b[j] as int);
    }
    assert(decoded =~= b);
}

/// Decodes the configured HMAC secret; refuses one that is not hex or
/// shorter than 256 bits.
pub fn decode_jwt_secret(secret_hex: &str) -> (r: Result<Vec<u8>, SecretError>)
    ensures
        r matches Ok(v) ==> spec_decode_jwt_secret(secret_hex@) == Ok::<Seq<u8>, SecretError>(v@),
        r matches Err(e) ==> spec_decode_jwt_secret(secret_hex@) == Err::<Seq<u8>, SecretError>(e),
{
    match hex_decode(secret_hex.as_bytes()) {
        None => Err(SecretError::NotHex),
        Some(bytes) => {
            if bytes.len() < 32 {
                Err(SecretError::TooShort)
            } else {
                Ok(bytes)
            }
        },
    }
}

} // verus!
