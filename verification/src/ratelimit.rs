//! Rate limits per client address: a token bucket that refills one request
//! every `60 / per_minute` seconds and holds at most `per_minute`.

use vstd::prelude::*;

verus! {

/// Why a rate limit cannot be built.
#[derive(Debug, Clone, Copy, PartialEq, Eq, Structural)]
pub enum GovernorBuildError {
    /// The rate must be at least one request per minute.
    InvalidRate,
}

impl GovernorBuildError {
    /// The message of the error.
    pub fn message(self) -> (r: &'static str)
        ensures
            r@ == "invalid rate limit: requests per minute must be > 0"@,
    {
        proof {
            reveal_strlit("invalid rate limit: requests per minute must be > 0");
        }
        "invalid rate limit: requests per minute must be > 0"
    }
}

/// The bucket for `per_minute` requests per minute: refill period in
/// milliseconds (`60000 / per_minute`, at least 1) and burst size
/// (`per_minute`).
pub fn governor_params(per_minute: u32) -> (r: Result<(u64, u32), GovernorBuildError>)
    ensures
        per_minute == 0 ==> r == Err::<(u64, u32), GovernorBuildError>(
            GovernorBuildError::InvalidRate,
        ),
        per_minute > 0 ==> r == Ok::<(u64, u32), GovernorBuildError>(
            (if 60000u64 / (per_minute as u64) < 1 {
                1u64
            } else {
                60000u64 / (per_minute as u64)
            }, per_minute),
        ),
        r matches Ok(p) ==> p.0 >= 1 && p.1 >= 1,
{
    if per_minute == 0 {
        return Err(GovernorBuildError::InvalidRate);
    }
    let interval = 60_000u64 / (per_minute as u64);
    let interval = if interval < 1 {
        1
    } else {
        interval
    };
    Ok((interval, per_minute))
}

} // verus!
