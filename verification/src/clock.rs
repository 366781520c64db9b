//! Wall-clock time as nanoseconds since the UNIX epoch, and the expiry rule
//! of cache entries.

use vstd::prelude::*;

verus! {

/// Nanoseconds in one second.
pub const NANOS_PER_SEC: i128 = 1_000_000_000i128;

/// Reads `chrono::Utc::now()` and hands back its whole seconds since the
/// epoch and the nanoseconds past that second.
/// Trusted: only the documented range of the sub-second part is stated; the
/// instant itself depends on the machine's clock.
#[verifier::external_body]
fn utc_now_parts() -> (parts: (i64, u32))
    ensures
        parts.1 < 2_000_000_000,
{
    let t = chrono::Utc::now();
    (t.timestamp(), t.timestamp_subsec_nanos())
}

/// The instant `secs` seconds and `nanos` nanoseconds after the epoch, in nanoseconds.
pub open spec fn instant_nanos(secs: i64, nanos: u32) -> int {
    secs * 1_000_000_000 + nanos
}

/// The current time in nanoseconds since the UNIX epoch.
pub fn now_nanos() -> (t: i128)
    ensures
        exists|secs: i64, nanos: u32| nanos < 2_000_000_000 && t == instant_nanos(secs, nanos),
{
    let (secs, nanos) = utc_now_parts();
    let t = (secs as i128) * NANOS_PER_SEC + (nanos as i128);
    assert(t == instant_nanos(secs, nanos));
    t
}

/// An entry created at `created_at` is stale at `now` when more than the
/// time-to-live has elapsed; a creation time in the future counts as no
/// time elapsed.
pub open spec fn expired(created_at: i128, now: i128, ttl_seconds: u64) -> bool {
    now - created_at > ttl_seconds * 1_000_000_000
}

/// Decides whether an entry created at `created_at` has outlived the
/// time-to-live at instant `now` (both in nanoseconds since the epoch).
pub fn is_expired(created_at: i128, now: i128, ttl_seconds: u64) -> (stale: bool)
    ensures
        stale == expired(created_at, now, ttl_seconds),
{
    let ttl_nanos: i128 = (ttl_seconds as i128) * NANOS_PER_SEC;
    if now <= created_at {
        false
    } else {
        match now.checked_sub(created_at) {
            Some(elapsed) => elapsed > ttl_nanos,
            None => true,
        }
    }
}

} // verus!
