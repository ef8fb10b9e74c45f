//! The wall clock, in milliseconds.
use std::time::{Duration, SystemTime, SystemTimeError, UNIX_EPOCH};
use vstd::prelude::*;

verus! {

/// An instant of the system clock.
#[verifier::external_type_specification]
#[verifier::external_body]
pub struct ExSystemTime(SystemTime);

/// The error of asking for the time since a later instant.
#[verifier::external_type_specification]
#[verifier::external_body]
pub struct ExSystemTimeError(SystemTimeError);

/// The nanoseconds from the Unix epoch to an instant, negative for one before it.
pub uninterp spec fn unix_nanos(t: SystemTime) -> int;

/// The length of a duration in nanoseconds.
pub uninterp spec fn duration_nanos(d: Duration) -> nat;

/// `SystemTime::now` reads the clock. Nothing is claimed of the instant that comes back.
pub assume_specification[ SystemTime::now ]() -> SystemTime
;

/// `SystemTime::duration_since` with the Unix epoch: the time from the epoch to `t`, or the error
/// where `t` lies before the epoch.
#[verifier::external_body]
fn since_epoch(t: SystemTime) -> (r: Result<Duration, SystemTimeError>)
    ensures
        match r {
            Ok(d) => duration_nanos(d) == unix_nanos(t),
            Err(_) => unix_nanos(t) < 0,
        },
{
    t.duration_since(UNIX_EPOCH)
}

/// `Duration::as_millis` gives the number of whole milliseconds in a duration.
pub assume_specification[ Duration::as_millis ](d: &Duration) -> (millis: u128)
    ensures
        millis == duration_nanos(*d) / 1_000_000,
;

/// The timestamp of an instant: the whole milliseconds since the Unix epoch, reduced to 64 bits,
/// and 0 for an instant before the epoch.
pub open spec fn timestamp(nanos: int) -> int {
    if nanos < 0 {
        0
    } else {
        (nanos / 1_000_000) % 0x1_0000_0000_0000_0000
    }
}

/// Whether `ms` is the timestamp of an instant of the clock.
pub open spec fn is_reading(ms: u64) -> bool {
    exists|t: SystemTime| ms == timestamp(#[trigger] unix_nanos(t))
}

/// The timestamp of the instant `t`.
pub fn timestamp_of(t: SystemTime) -> (ms: u64)
    ensures
        ms == timestamp(unix_nanos(t)),
{
    match since_epoch(t) {
        Ok(elapsed) => {
            let millis = elapsed.as_millis();
            assert(millis as u64 == millis % 0x1_0000_0000_0000_0000) by (bit_vector);
            #[verifier::truncate]
            (millis as u64)
        },
        Err(_) => 0,
    }
}

/// The timestamp of the present instant.
pub fn now_ms() -> (ms: u64)
    ensures
        is_reading(ms),
{
    timestamp_of(SystemTime::now())
}

/// A timestamp counts the whole milliseconds since the Unix epoch: it is not ahead of its instant,
/// and less than a millisecond behind it.
pub proof fn law_timestamp_counts_milliseconds(nanos: int)
    requires
        0 <= nanos < 0x1_0000_0000_0000_0000 * 1_000_000,
    ensures
        timestamp(nanos) * 1_000_000 <= nanos < (timestamp(nanos) + 1) * 1_000_000,
{
}

/// The timestamp of an instant before the Unix epoch is 0.
pub proof fn law_timestamp_before_the_epoch_is_zero(nanos: int)
    requires
        nanos < 0,
    ensures
        timestamp(nanos) == 0,
{
}

/// A reading of the clock is the timestamp of an instant.
pub proof fn law_reading_is_of_an_instant(ms: u64)
    requires
        is_reading(ms),
    ensures
        exists|t: SystemTime| ms == timestamp(#[trigger] unix_nanos(t)),
{
}

} // verus!
