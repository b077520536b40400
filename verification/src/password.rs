//! Password hashing with Argon2id (through the `argon2` crate) under the
//! configured memory, time and parallelism costs.

use vstd::prelude::*;
use crate::config::AuthConfig;
use crate::error::AppError;
use crate::text::{concat_str, has_prefix, owned, spec_decimal};
use vstd::utf8::encode_utf8;

verus! {

/// Whether `argon2::Params::new` accepts the costs: at least 8 KiB of
/// memory and 8 KiB per lane, at least one pass, between 1 and 2^24 - 1
/// lanes.
pub open spec fn spec_argon2_costs_ok(m_cost: u32, t_cost: u32, p_cost: u32) -> bool {
    &&& m_cost >= 8
    &&& m_cost >= p_cost * 8
    &&& t_cost >= 1
    &&& p_cost >= 1
    &&& p_cost <= 0xFF_FFFF
}

/// What checking `password` against the stored PHC string `stored` gives:
/// `None` when `stored` is not a PHC string, else whether it matches.
pub uninterp spec fn spec_argon2_verify(password: Seq<char>, stored: Seq<char>) -> Option<bool>;

/// Calls `argon2::PasswordHash::new` on `stored` and, when it parses,
/// `PasswordVerifier::verify_password` of `Argon2::default()` on the UTF-8
/// bytes of `password`: `Some(true)` when they match, `Some(false)` when
/// not, `None` when `stored` is no PHC string.
#[verifier::external_body]
fn argon2_verify(password: &str, stored: &str) -> (r: Option<bool>)
    ensures
        r == spec_argon2_verify(password@, stored@),
{
    match argon2::PasswordHash::new(stored) {
        Ok(parsed) => Some(
            argon2::PasswordVerifier::verify_password(
                &argon2::Argon2::default(),
                password.as_bytes(),
                &parsed,
            ).is_ok(),
        ),
        Err(_) => None,
    }
}

/// The start of the PHC string of an Argon2id (version 19) hash under the
/// costs `m_cost`, `t_cost`, `p_cost`: `$argon2id$v=19$m=<m>,t=<t>,p=<p>$`,
/// followed by the salt and the hash.
pub open spec fn spec_phc_prefix(m_cost: u32, t_cost: u32, p_cost: u32) -> Seq<char> {
    "$argon2id$v=19$m="@ + spec_decimal(m_cost as nat) + ",t="@ + spec_decimal(t_cost as nat)
        + ",p="@ + spec_decimal(p_cost as nat) + "$"@
}

/// Calls `argon2::Params::new(m_cost, t_cost, p_cost, None)`, then
/// `Argon2::new` (Argon2id, version 0x13, those params),
/// `SaltString::generate` with the operating system's generator and
/// `PasswordHasher::hash_password` on the UTF-8 bytes of `password`,
/// returning the PHC string or the failure's message.
/// - Costs that `Params::new` refuses give an error. (`Params::new`
///   multiplies `p_cost` by 8 in `u32`, hence the bound.)
/// - Costs it accepts and a password of at most 2^32 - 1 bytes give a
///   hash: the generated salt (16 bytes) and the default 32-byte output
///   pass every check that follows.
/// - The PHC string records the algorithm, the version and the costs, in
///   that order, ahead of the salt and the hash.
/// - It verifies `password`, since it carries what verification reruns.
/// - The salt is random, so nothing more is said of the string.
#[verifier::external_body]
fn argon2id_hash(m_cost: u32, t_cost: u32, p_cost: u32, password: &str) -> (r: Result<String, String>)
    requires
        p_cost * 8 <= u32::MAX,
    ensures
        !spec_argon2_costs_ok(m_cost, t_cost, p_cost) ==> r is Err,
        spec_argon2_costs_ok(m_cost, t_cost, p_cost) && encode_utf8(password@).len() <= 0xFFFF_FFFF
            ==> r is Ok,
        r matches Ok(h) ==> spec_argon2_verify(password@, h@) == Some(true),
        r matches Ok(h) ==> has_prefix(h@, spec_phc_prefix(m_cost, t_cost, p_cost)),
{
    let params = argon2::Params::new(m_cost, t_cost, p_cost, None).map_err(|e| e.to_string())?;
    let hasher = argon2::Argon2::new(argon2::Algorithm::Argon2id, argon2::Version::V0x13, params);
    let salt = argon2::password_hash::SaltString::generate(&mut rand::rngs::OsRng);
    argon2::PasswordHasher::hash_password(&hasher, password.as_bytes(), &salt).map(
        |h| h.to_string(),
    ).map_err(|e| e.to_string())
}

/// Hashes `password` with Argon2id under the configured costs, with a fresh
/// salt. Costs that Argon2 refuses give an internal error, and costs it
/// accepts give a hash (for any password below 4 GiB); the hash verifies
/// `password` and records Argon2id and those costs.
pub fn hash_password(password: &str, cfg: &AuthConfig) -> (r: Result<String, AppError>)
    requires
        cfg.argon2_parallelism * 8 <= u32::MAX,
    ensures
        !spec_argon2_costs_ok(cfg.argon2_memory_kib, cfg.argon2_iterations, cfg.argon2_parallelism)
            ==> r matches Err(AppError::Internal(_)),
        spec_argon2_costs_ok(cfg.argon2_memory_kib, cfg.argon2_iterations, cfg.argon2_parallelism)
            && encode_utf8(password@).len() <= 0xFFFF_FFFF ==> r is Ok,
        r matches Ok(h) ==> spec_argon2_verify(password@, h@) == Some(true),
        r matches Ok(h) ==> has_prefix(
            h@,
            spec_phc_prefix(cfg.argon2_memory_kib, cfg.argon2_iterations, cfg.argon2_parallelism),
        ),
        r matches Err(e) ==> e is Internal,
{
    match argon2id_hash(cfg.argon2_memory_kib, cfg.argon2_iterations, cfg.argon2_parallelism, password) {
        Ok(h) => Ok(h),
        Err(msg) => Err(AppError::Internal(concat_str("argon2 hash: ", msg.as_str()))),
    }
}

/// Whether `password` matches the stored hash; a stored value that is no
/// PHC string is an internal error.
pub fn verify_password(password: &str, stored_hash: &str) -> (r: Result<bool, AppError>)
    ensures
        match spec_argon2_verify(password@, stored_hash@) {
            Some(b) => r == Ok::<bool, AppError>(b),
            None => r matches Err(AppError::Internal(_)),
        },
{
    match argon2_verify(password, stored_hash) {
        Some(b) => Ok(b),
        None => Err(AppError::Internal(owned("parse stored password hash"))),
    }
}

} // verus!
