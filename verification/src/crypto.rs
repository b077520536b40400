//! Hashing, hexadecimal encoding and randomness, through the outside crates
//! that provide them (`sha2`, `hex`, `rand`, `nanoid`).

use vstd::prelude::*;
use rand::RngCore;
use sha2::Digest;
use crate::text::is_ascii_alnum;

verus! {

/// The SHA-256 digest of a byte string.
pub uninterp spec fn spec_sha256(data: Seq<u8>) -> Seq<u8>;

/// Calls `sha2::Sha256::digest`: the 32-byte SHA-256 digest of `data`.
#[verifier::external_body]
pub fn sha256_digest(data: &[u8]) -> (r: Vec<u8>)
    ensures
        r@ == spec_sha256(data@),
        r@.len() == 32,
{
    sha2::Sha256::digest(data).to_vec()
}

/// The lowercase hexadecimal digit for a value below 16.
pub open spec fn hex_digit_lower(n: int) -> char {
    if n < 10 {
        (48 + n) as char
    } else {
        (87 + n) as char
    }
}

/// Lowercase hexadecimal encoding: two digits per byte, high nibble first.
pub open spec fn spec_hex_encode(b: Seq<u8>) -> Seq<char> {
    Seq::new(
        2 * b.len(),
        |i: int|
            if i % 2 == 0 {
                hex_digit_lower(b[i / 2] as int / 16)
            } else {
                hex_digit_lower(b[i / 2] as int % 16)
            },
    )
}

/// Calls `hex::encode`: two lowercase hexadecimal digits per byte.
#[verifier::external_body]
pub fn hex_encode(data: &[u8]) -> (r: String)
    ensures
        r@ == spec_hex_encode(data@),
{
    hex::encode(data)
}

/// The value of a hexadecimal digit byte (either case).
pub open spec fn hex_byte_value(b: u8) -> Option<int> {
    if 48 <= b && b <= 57 {
        Some(b - 48)
    } else if 97 <= b && b <= 102 {
        Some(b - 87)
    } else if 65 <= b && b <= 70 {
        Some(b - 55)
    } else {
        None
    }
}

/// Hexadecimal decoding of a byte string: defined when its length is even
/// and every byte is a hexadecimal digit.
pub open spec fn spec_hex_decode(b: Seq<u8>) -> Option<Seq<u8>> {
    if b.len() % 2 == 0 && forall|i: int| 0 <= i < b.len() ==> hex_byte_value(b[i]) is Some {
        Some(
            Seq::new(
                b.len() / 2,
                |i: int|
                    (hex_byte_value(b[2 * i]).unwrap() * 16 + hex_byte_value(
                        b[2 * i + 1],
                    ).unwrap()) as u8,
            ),
        )
    } else {
        None
    }
}

/// Calls `hex::decode`: the bytes that a hexadecimal string encodes; `None`
/// for an odd length or a non-hexadecimal byte.
#[verifier::external_body]
pub fn hex_decode(data: &[u8]) -> (r: Option<Vec<u8>>)
    ensures
        r matches Some(v) ==> spec_hex_decode(data@) == Some(v@),
        r is None ==> spec_hex_decode(data@) is None,
{
    hex::decode(data).ok()
}

/// Calls `rand::rngs::OsRng::fill_bytes` on a buffer of `n` bytes: `n`
/// bytes from the operating system's generator.
#[verifier::external_body]
pub fn random_bytes(n: usize) -> (r: Vec<u8>)
    ensures
        r@.len() == n,
{
    let mut buf = vec![0u8; n];
    rand::rngs::OsRng.fill_bytes(&mut buf);
    buf
}

/// A character of nanoid's URL-safe alphabet (`_`, `-`, digits, letters).
pub open spec fn is_safe_char(c: char) -> bool {
    is_ascii_alnum(c) || c == '_' || c == '-'
}

/// Calls `nanoid::format` with nanoid's default generator and its `SAFE`
/// alphabet: `size` random characters of that alphabet.
#[verifier::external_body]
pub fn nanoid_safe(size: usize) -> (r: String)
    requires
        size > 0,
    ensures
        r@.len() == size,
        forall|i: int| 0 <= i < r@.len() ==> is_safe_char(#[trigger] r@[i]),
{
    nanoid::format(nanoid::rngs::default, &nanoid::alphabet::SAFE, size)
}

} // verus!
