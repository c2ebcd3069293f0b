//! Wall-clock time in whole milliseconds since the Unix epoch.
use vstd::prelude::*;
use std::time::{Duration, SystemTime};

verus! {

/// A point in wall-clock time, as the operating system reports it.
#[verifier::external_type_specification]
#[verifier::external_body]
pub struct ExSystemTime(SystemTime);

/// `std::time::SystemTime::now`: the current wall-clock time. Nothing is
/// claimed of the value, which depends on the clock.
#[verifier::external_body]
fn system_time_now() -> SystemTime {
    SystemTime::now()
}

/// `SystemTime::duration_since` measured from `UNIX_EPOCH`: the span since the
/// epoch, or `None` where `t` lies before it. Nothing is claimed of the span,
/// which depends on `t`, a value that carries no model here.
#[verifier::external_body]
fn since_unix_epoch(t: &SystemTime) -> Option<Duration> {
    t.duration_since(std::time::UNIX_EPOCH).ok()
}

/// `Duration::as_millis`: the whole milliseconds of the span. The span carries
/// no model here, so nothing more is claimed.
#[verifier::external_body]
fn duration_as_millis(d: &Duration) -> u128 {
    d.as_millis()
}

/// The timestamp for a span since the epoch of `since_epoch_ms` whole
/// milliseconds: that number cut to 64 bits, as `as u64` cuts it; none where the
/// clock read a time before the epoch (`None`).
pub open spec fn timestamp_of(since_epoch_ms: Option<u128>) -> Option<u64> {
    match since_epoch_ms {
        Some(m) => Some((m % 0x1_0000_0000_0000_0000) as u64),
        None => None,
    }
}

/// The timestamp for a span since the epoch of `since_epoch_ms` whole
/// milliseconds (`None` where the clock read a time before the epoch).
pub fn millis_since_epoch(since_epoch_ms: Option<u128>) -> (r: Option<u64>)
    ensures
        r == timestamp_of(since_epoch_ms),
{
    match since_epoch_ms {
        Some(m) => {
            assert(m as u64 == m % 0x1_0000_0000_0000_0000) by (bit_vector);
            #[verifier::truncate]
            let t: u64 = m as u64;
            Some(t)
        },
        None => None,
    }
}

/// The whole milliseconds since the Unix epoch on the wall clock, or `None`
/// where it reads a time before the epoch. Nothing is claimed of the value,
/// which depends on the clock.
pub fn unix_millis_now() -> Option<u128> {
    let now = system_time_now();
    match since_unix_epoch(&now) {
        Some(d) => Some(duration_as_millis(&d)),
        None => None,
    }
}

/// Milliseconds since the Unix epoch on the wall clock, or `None` where the
/// clock reads a time before the epoch (the caller's "time went backwards"):
/// the timestamp of what `unix_millis_now` reads.
pub fn get_time() -> Option<u64> {
    millis_since_epoch(unix_millis_now())
}

/// Timestamps keep the order of the readings they come from, and a reading at
/// least a second later gives a timestamp at least 1000 higher, wherever both
/// readings lie after the epoch and within 2^64 milliseconds of it.
pub proof fn lemma_timestamps_ordered(m1: u128, m2: u128)
    requires
        m1 <= m2 < 0x1_0000_0000_0000_0000,
    ensures
        timestamp_of(Some(m1))->0 <= timestamp_of(Some(m2))->0,
        m2 - m1 >= 1000 ==> timestamp_of(Some(m2))->0 - timestamp_of(Some(m1))->0 >= 1000,
{
}

} // verus!
