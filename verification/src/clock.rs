//! The wall clock.

use chrono::Utc;
use vstd::prelude::*;

verus! {

/// Calls `Utc::now` of chrono and reads its Unix timestamp in seconds. chrono
/// refuses, by panicking, a system clock that stands before the epoch, so a
/// timestamp is never negative. Nothing more is known of it: two calls may differ.
#[verifier::external_body]
pub(crate) fn now_timestamp() -> (seconds: i64)
    ensures
        0 <= seconds,
{
    Utc::now().timestamp()
}

/// A call of the clock has given this time.
pub closed spec fn clock_gave(seconds: i64) -> bool {
    call_ensures(now_timestamp, (), seconds)
}

fn call_clock<F: Fn() -> i64>(clock: F) -> (seconds: i64)
    requires
        call_requires(clock, ()),
    ensures
        call_ensures(clock, (), seconds),
{
    clock()
}

/// The time that the clock gives.
pub(crate) fn read_clock() -> (seconds: i64)
    ensures
        0 <= seconds,
        clock_gave(seconds),
{
    call_clock(now_timestamp)
}

} // verus!
