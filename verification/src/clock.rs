use vstd::prelude::*;

use std::time::Instant;

verus! {

#[verifier::external_type_specification]
#[verifier::external_body]
pub struct ExInstant(std::time::Instant);

/// `std::time::Instant::now`: a reading of the monotonic clock. Nothing is
/// stated of it; it depends on the time.
#[verifier::external_body]
pub(crate) fn instant_now() -> Instant {
    Instant::now()
}

/// `Instant::elapsed` on `start`, in whole microseconds. It depends on the
/// time: nothing is stated of the value.
#[verifier::external_body]
pub(crate) fn micros_since(start: &Instant) -> u64 {
    start.elapsed().as_micros() as u64
}

/// A moment in UTC: whole seconds since the Unix epoch and the nanoseconds
/// past them. Moments order by seconds, then nanoseconds.
#[derive(Clone, Copy, Debug, PartialEq, Eq, Structural)]
pub struct UtcTime {
    pub secs: i64,
    pub nanos: u32,
}

/// Whether the moment `a` comes after the moment `b`.
pub open spec fn is_later(a: UtcTime, b: UtcTime) -> bool {
    a.secs > b.secs || (a.secs == b.secs && a.nanos > b.nanos)
}

/// Whether `a` comes after `b`.
pub fn later_than(a: UtcTime, b: UtcTime) -> (r: bool)
    ensures
        r == is_later(a, b),
{
    a.secs > b.secs || (a.secs == b.secs && a.nanos > b.nanos)
}

/// `chrono::Utc::now`, split into seconds and nanoseconds as `timestamp` and
/// `timestamp_subsec_nanos` give them. It depends on the time: nothing is
/// stated of the value.
#[verifier::external_body]
pub(crate) fn utc_now() -> UtcTime {
    let now = chrono::Utc::now();
    UtcTime { secs: now.timestamp(), nanos: now.timestamp_subsec_nanos() }
}

/// `chrono::Utc::now`, as milliseconds since the Unix epoch. It depends on the
/// time: nothing is stated of the value.
#[verifier::external_body]
pub(crate) fn utc_now_ms() -> i64 {
    chrono::Utc::now().timestamp_millis()
}

} // verus!
