//! Clocks: the wall clock for cache timestamps, and a monotonic clock for the
//! admission window.
use vstd::prelude::*;

use std::time::Instant;

verus! {

/// A reading of the monotonic clock.
#[verifier::external_type_specification]
#[verifier::external_body]
pub struct ExInstant(Instant);

/// Relies on `SystemTime::now` and `SystemTime::duration_since(UNIX_EPOCH)`:
/// `Ok` with the milliseconds since the Unix epoch, or `Err` with the
/// milliseconds by which the clock reads earlier than the epoch. Nothing is
/// promised of the value: the wall clock may jump in either direction.
#[verifier::external_body]
fn wall_clock() -> (r: Result<u128, u128>) {
    match std::time::SystemTime::now().duration_since(std::time::UNIX_EPOCH) {
        Ok(d) => Ok(d.as_millis()),
        Err(e) => Err(e.duration().as_millis()),
    }
}

/// Relies on `Instant::now`: the current reading of the monotonic clock.
#[verifier::external_body]
pub(crate) fn monotonic_now() -> (r: Instant) {
    Instant::now()
}

/// Relies on `Instant::elapsed` and `Duration::as_millis`: whole milliseconds
/// since `origin`. The standard library documents `elapsed` as saturating at
/// zero; nothing else is promised of the value.
#[verifier::external_body]
pub(crate) fn millis_since(origin: &Instant) -> (r: u128) {
    origin.elapsed().as_millis()
}

/// `n`, or `i64::MAX` where it does not fit.
pub fn clamp_to_i64(n: u128) -> (r: i64)
    ensures
        r as int == if n as int > i64::MAX as int {
            i64::MAX as int
        } else {
            n as int
        },
{
    if n > i64::MAX as u128 {
        i64::MAX
    } else {
        n as i64
    }
}

/// The wall clock as milliseconds since the Unix epoch, negative before it;
/// readings beyond the range of `i64` are clamped to it.
pub fn now_millis() -> (r: i64)
    ensures
        r > i64::MIN,
{
    match wall_clock() {
        Ok(after) => clamp_to_i64(after),
        Err(before) => 0 - clamp_to_i64(before),
    }
}

/// Whole seconds since the Unix epoch for a timestamp in milliseconds.
pub open spec fn secs_of_millis(ms: i64) -> int {
    (ms as int) / 1000
}

/// Converts a millisecond timestamp, not before the epoch, to whole seconds.
pub fn millis_to_secs(ms: i64) -> (r: i64)
    requires
        ms >= 0,
    ensures
        r == secs_of_millis(ms),
{
    ms / 1000
}

} // verus!
