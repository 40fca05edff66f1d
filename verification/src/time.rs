//! Clock readings turned into smoltcp instants.

use vstd::prelude::*;
use smoltcp::time::Instant;

verus! {

#[verifier::external_type_specification]
#[verifier::external_body]
pub struct ExInstant(Instant);

/// The milliseconds that a clock reading of `seconds` and `nanoseconds` stands
/// for; the nanoseconds below a whole millisecond are dropped.
pub open spec fn time_millis(seconds: u64, nanoseconds: u32) -> int {
    seconds * 1000 + nanoseconds / 1_000_000
}

/// The milliseconds that a clock reading stands for.
pub fn millis_from_time(seconds: u64, nanoseconds: u32) -> (millis: u64)
    requires
        time_millis(seconds, nanoseconds) <= u64::MAX,
    ensures
        millis == time_millis(seconds, nanoseconds),
{
    seconds * 1000 + (nanoseconds as u64 / 1_000_000)
}

/// What smoltcp's `Instant::from_millis` returns for `millis`.
pub uninterp spec fn smoltcp_instant_from_millis(millis: i64) -> Instant;

/// smoltcp's `Instant::from_millis`: the instant `millis` milliseconds after
/// smoltcp's origin, kept in microseconds. The contract claims only that the
/// result is the one named for `millis`; the multiplication by 1000 must not
/// overflow an `i64`, where smoltcp would panic.
#[verifier::external_body]
fn instant_from_millis(millis: i64) -> (instant: Instant)
    requires
        i64::MIN <= millis * 1000 <= i64::MAX,
    ensures
        instant == smoltcp_instant_from_millis(millis),
{
    Instant::from_millis(millis)
}

/// The smoltcp instant for a clock reading of `seconds` and `nanoseconds`:
/// its milliseconds, taken as an `i64` (a count above `i64::MAX` wraps to a
/// negative one), after smoltcp's origin.
pub fn instant_from_time(seconds: u64, nanoseconds: u32) -> (instant: Instant)
    requires
        time_millis(seconds, nanoseconds) <= u64::MAX,
        i64::MIN <= (time_millis(seconds, nanoseconds) as i64) * 1000 <= i64::MAX,
    ensures
        instant == smoltcp_instant_from_millis(time_millis(seconds, nanoseconds) as i64),
{
    let millis = millis_from_time(seconds, nanoseconds);
    instant_from_millis(millis as i64)
}

} // verus!
