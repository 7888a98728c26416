//! Wall-clock time as seconds since the Unix epoch, and the small expiry
//! arithmetic the lifecycle engine does with it.
//!
//! Every computation on timestamps takes the current time as an argument, so
//! it is specified for every value of the clock; only `now_secs` reads the
//! clock itself.

use vstd::prelude::*;

verus! {

/// Relies on chrono's `Utc::now` and `DateTime::timestamp`: seconds since the
/// Unix epoch. The result depends on the clock, so nothing is promised of it.
#[verifier::external_body]
fn now_timestamp() -> (r: i64) {
    chrono::Utc::now().timestamp()
}

/// The current wall-clock time in whole seconds since the Unix epoch,
/// clamped below at zero.
pub fn now_secs() -> (r: u64) {
    let t = now_timestamp();
    if t < 0 {
        0
    } else {
        t as u64
    }
}

/// The absolute expiry timestamp a TTL of `ttl_secs` yields at time `now`.
pub fn compute_expiry(now: u64, ttl_secs: u64) -> (r: u64)
    requires
        now + ttl_secs <= u64::MAX,
    ensures
        r == now + ttl_secs,
{
    now + ttl_secs
}

/// How many seconds remain until `expiry` at time `now`; zero once passed.
pub fn ttl_secs_until(expiry: u64, now: u64) -> (r: u64)
    ensures
        expiry > now ==> r == expiry - now,
        expiry <= now ==> r == 0,
{
    if expiry > now {
        expiry - now
    } else {
        0
    }
}

} // verus!
