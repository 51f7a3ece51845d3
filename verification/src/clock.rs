//! Reading the wall clock, rendered as decimal timestamps.
use vstd::prelude::*;

use std::time::{Duration, SystemTime, SystemTimeError};

use crate::num::{decimal, decimal_string};

verus! {

#[verifier::external_type_specification]
#[verifier::external_body]
pub struct ExSystemTime(SystemTime);

#[verifier::external_type_specification]
#[verifier::external_body]
pub struct ExSystemTimeError(SystemTimeError);

/// The current wall-clock time (`SystemTime::now`). Nothing is stated of it.
#[verifier::external_body]
fn system_now() -> SystemTime {
    SystemTime::now()
}

/// The time elapsed since the Unix epoch (`SystemTime::duration_since`
/// with `UNIX_EPOCH`); an error when `t` lies before the epoch. Nothing is
/// stated of the duration: it depends on the clock.
#[verifier::external_body]
fn since_epoch(t: &SystemTime) -> Result<Duration, SystemTimeError> {
    t.duration_since(std::time::UNIX_EPOCH)
}

/// Whole seconds of a duration (`Duration::as_secs`).
#[verifier::external_body]
fn whole_seconds(d: &Duration) -> u64 {
    d.as_secs()
}

/// Whole nanoseconds of a duration (`Duration::as_nanos`).
#[verifier::external_body]
fn whole_nanos(d: &Duration) -> u128 {
    d.as_nanos()
}

/// Seconds since the Unix epoch as a decimal string; `0` when the clock
/// reads earlier than the epoch.
pub fn iso_timestamp_now() -> (s: String)
    ensures
        exists|n: u64| s@ == decimal(n as nat),
{
    let now = system_now();
    let secs: u64 = match since_epoch(&now) {
        Ok(d) => whole_seconds(&d),
        Err(_) => 0,
    };
    decimal_string(secs as u128)
}

/// Nanoseconds since the Unix epoch as a decimal string; `0` when the clock
/// reads earlier than the epoch.
pub fn now_nanos() -> (s: String)
    ensures
        exists|n: u128| s@ == decimal(n as nat),
{
    let now = system_now();
    let nanos: u128 = match since_epoch(&now) {
        Ok(d) => whole_nanos(&d),
        Err(_) => 0,
    };
    decimal_string(nanos)
}

} // verus!
