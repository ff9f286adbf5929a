//! The wall clock, read through std one call at a time.

use vstd::prelude::*;
use std::time::{Duration, SystemTime, SystemTimeError};

verus! {

#[verifier::external_type_specification]
#[verifier::external_body]
pub struct ExSystemTime(std::time::SystemTime);

#[verifier::external_type_specification]
#[verifier::external_body]
pub struct ExSystemTimeError(std::time::SystemTimeError);

/// `SystemTime::now`: the current wall-clock time; nothing is claimed
/// of it.
#[verifier::external_body]
fn system_now() -> (r: SystemTime) {
    SystemTime::now()
}

/// `SystemTime::duration_since` with `UNIX_EPOCH`: the time elapsed since
/// the epoch, or an error when the clock reads an earlier time; which of
/// the two, and the duration, depend on the clock.
#[verifier::external_body]
fn since_epoch(t: &SystemTime) -> (r: Result<Duration, SystemTimeError>) {
    t.duration_since(std::time::UNIX_EPOCH)
}

/// `Duration::as_secs`: the whole seconds of `d`; nothing is claimed of
/// the value, which belongs to the clock.
#[verifier::external_body]
fn whole_secs(d: &Duration) -> (r: u64) {
    d.as_secs()
}

/// `Duration::subsec_nanos`: the fractional part of `d` in nanoseconds,
/// documented to be less than one billion.
#[verifier::external_body]
fn sub_nanos(d: &Duration) -> (r: u32)
    ensures
        r < 1_000_000_000,
{
    d.subsec_nanos()
}

/// The current Unix time in whole seconds (0 if the clock reads before
/// the epoch).
pub(crate) fn now_unix_secs() -> u64 {
    match since_epoch(&system_now()) {
        Ok(d) => whole_secs(&d),
        Err(_) => 0,
    }
}

/// The sub-second nanoseconds of the wall clock (0 when the clock reads
/// before 1970).
pub(crate) fn clock_subsec_nanos() -> (r: u32)
    ensures
        r < 1_000_000_000,
{
    match since_epoch(&system_now()) {
        Ok(d) => sub_nanos(&d),
        Err(_) => 0,
    }
}

} // verus!
