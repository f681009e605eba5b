//! The one window onto the wall clock.
//!
//! Creation timestamps come from here; everything computed from them
//! (the recall schedule, field relations) is verified over the returned
//! value, whatever it is.

use vstd::prelude::*;

verus! {

/// Seconds in one day.
pub const DAY_SECONDS: i64 = 86400;

/// The largest creation timestamp the recall scheduler accepts: five
/// days before the end of the representable range, so the whole
/// schedule stays within `i64`.
pub const MAX_SCHEDULABLE: i64 = i64::MAX - 5 * DAY_SECONDS;

/// Relies on `chrono::Local::now` and `chrono::DateTime::timestamp`:
/// the current wall-clock time as whole seconds since the Unix epoch.
/// Nothing can be promised of the value itself.
#[verifier::external_body]
pub fn now_timestamp() -> i64 {
    chrono::Local::now().timestamp()
}

/// A creation timestamp clamped into the range the recall scheduler
/// accepts; the clamp is unreachable for any realistic clock reading.
pub fn now_schedulable() -> (t: i64)
    ensures
        t <= MAX_SCHEDULABLE,
{
    let now = now_timestamp();
    if now > MAX_SCHEDULABLE {
        MAX_SCHEDULABLE
    } else {
        now
    }
}

} // verus!
