//! Access to the wall clock, as whole seconds since the Unix epoch.

use vstd::prelude::*;

verus! {

/// Relies on `chrono::Utc::now`: reads the wall clock and returns the Unix
/// timestamp in whole seconds. The result depends on when the call runs, so
/// nothing can be promised of its value.
#[verifier::external_body]
fn unix_now_seconds() -> i64 {
    chrono::Utc::now().timestamp()
}

/// The current wall-clock time as seconds since the Unix epoch, clamped to
/// zero for clocks set before the epoch. Callers can rely on nothing about
/// the value itself; contracts downstream quantify over it.
pub(crate) fn clock_now_seconds() -> u64 {
    let t = unix_now_seconds();
    if t < 0 {
        0
    } else {
        t as u64
    }
}

} // verus!
