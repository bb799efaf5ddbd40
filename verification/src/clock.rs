//! The monotonic clock of the standard library, as far as the throttler uses
//! it: readings of the clock, and durations counted in nanoseconds.
//!
//! What this module states of `Instant` and `Duration` is taken on trust from
//! their documentation. The two conversions at its end are proved from that.

use std::time::Duration;
use std::time::Instant;
use vstd::prelude::*;

verus! {

/// Nanoseconds in a second.
pub const NANOS_PER_SECOND: u128 = 1_000_000_000;

/// The length in nanoseconds of the longest duration that `duration_of` makes:
/// the largest `u64` in whole seconds, and one nanosecond short of a second more.
pub const LONGEST: u128 = 18_446_744_073_709_551_615_999_999_999;

/// `std::time::Instant`, a reading of the monotonic clock. A proof sees
/// nothing inside it.
#[verifier::external_type_specification]
#[verifier::external_body]
pub struct ExInstant(Instant);

/// The length of a duration in whole nanoseconds: what `Duration::as_nanos`
/// returns for it.
pub uninterp spec fn nanos_in(d: Duration) -> nat;

/// `Instant::now` reads the clock. Nothing is claimed of the reading.
pub assume_specification[ Instant::now ]() -> Instant;

/// `Instant::elapsed` measures the time from an earlier reading to the
/// present. Nothing is claimed of the length it measures.
pub assume_specification[ Instant::elapsed ](since: &Instant) -> Duration;

/// `Duration::as_nanos` returns the total number of nanoseconds in the
/// duration. The claim gives that number its name and says no more of it.
pub assume_specification[ Duration::as_nanos ](d: &Duration) -> (n: u128)
    ensures
        n == nanos_in(*d),
;

/// `Duration::new` makes a duration of `secs` whole seconds and `nanos`
/// nanoseconds more. The claim is made only where `nanos` is less than a
/// second, so that nothing carries over into the seconds and the call cannot
/// overflow them.
pub assume_specification[ Duration::new ](secs: u64, nanos: u32) -> (d: Duration)
    requires
        nanos < NANOS_PER_SECOND,
    ensures
        nanos_in(d) == secs * NANOS_PER_SECOND + nanos,
;

/// Splits a length in nanoseconds into whole seconds and the nanoseconds
/// beyond them, fewer than a second. A length beyond `LONGEST`, whose seconds
/// no `u64` holds, is cut down to it.
pub fn seconds_and_nanos(nanos: u128) -> (parts: (u64, u32))
    ensures
        parts.1 < NANOS_PER_SECOND,
        parts.0 * NANOS_PER_SECOND + parts.1 == if nanos <= LONGEST {
            nanos
        } else {
            LONGEST
        },
{
    let capped: u128 = if nanos <= LONGEST {
        nanos
    } else {
        LONGEST
    };
    let secs: u128 = capped / NANOS_PER_SECOND;
    let rest: u128 = capped % NANOS_PER_SECOND;
    (secs as u64, rest as u32)
}

/// The duration that is `nanos` nanoseconds long. A length beyond `LONGEST`
/// is cut down to it.
pub fn duration_of(nanos: u128) -> (d: Duration)
    ensures
        nanos_in(d) == if nanos <= LONGEST {
            nanos
        } else {
            LONGEST
        },
{
    let (secs, rest) = seconds_and_nanos(nanos);
    Duration::new(secs, rest)
}

} // verus!
