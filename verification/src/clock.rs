use vstd::prelude::*;

verus! {

/// Relies on chrono's `Utc::now` and `DateTime::timestamp_millis`:
/// the current wall-clock time as milliseconds since the Unix epoch.
/// Nothing can be promised of the clock's reading.
#[verifier::external_body]
pub fn now_ms() -> i64 {
    chrono::Utc::now().timestamp_millis()
}

/// Milliseconds elapsed since `started_at_ms`, never negative, read
/// from the wall clock.
pub fn elapsed_ms(started_at_ms: i64) -> u64 {
    let now = now_ms();
    let d: i128 = (now as i128) - (started_at_ms as i128);
    if d <= 0 {
        0
    } else if d > u64::MAX as i128 {
        u64::MAX
    } else {
        d as u64
    }
}

} // verus!
