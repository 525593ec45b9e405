//! Wall-clock timestamps for reports.
use vstd::prelude::*;
use std::time::SystemTime;

verus! {

#[verifier::external_type_specification]
#[verifier::external_body]
pub struct ExSystemTime(SystemTime);

/// `SystemTime::now()`: the current wall-clock time. Nothing is stated of it.
#[verifier::external_body]
fn system_now() -> (t: SystemTime) {
    SystemTime::now()
}

/// `SystemTime::duration_since(UNIX_EPOCH)`, in whole milliseconds
/// (`Duration::as_millis`); `None` when `t` lies before the epoch. What the
/// clock reads is not stated.
#[verifier::external_body]
fn millis_since_epoch(t: &SystemTime) -> (ms: Option<u128>) {
    match t.duration_since(std::time::UNIX_EPOCH) {
        Ok(d) => Some(d.as_millis()),
        Err(_) => None,
    }
}

/// The timestamp of a reading of the clock: its milliseconds since the Unix
/// epoch as an `i64` (`as` truncates), or 0 for a time before the epoch.
pub open spec fn epoch_ms(millis: Option<u128>) -> i64 {
    match millis {
        Some(m) => m as i64,
        None => 0,
    }
}

/// The timestamp of a reading of the clock (see [`epoch_ms`]).
pub fn epoch_ms_from(millis: Option<u128>) -> (r: i64)
    ensures
        r == epoch_ms(millis),
{
    match millis {
        Some(m) => m as i64,
        None => 0,
    }
}

/// Milliseconds since the Unix epoch, for timestamps in reports.
pub fn now_ms() -> (r: i64)
    ensures
        exists|millis: Option<u128>| r == epoch_ms(millis),
{
    let t = system_now();
    let ms = millis_since_epoch(&t);
    epoch_ms_from(ms)
}

} // verus!
