//! The machine's clock, read as whole seconds since the Unix epoch.

use vstd::prelude::*;
use std::time::{Duration, SystemTime, SystemTimeError};

verus! {

/// `std::time::SystemTime`, carried through unread.
#[verifier::external_type_specification]
#[verifier::external_body]
pub struct ExSystemTime(SystemTime);

/// `std::time::SystemTimeError`, carried through unread.
#[verifier::external_type_specification]
#[verifier::external_body]
pub struct ExSystemTimeError(SystemTimeError);

/// `SystemTime::now`: the machine's clock at the call. Nothing is stated of
/// it: it depends on the machine and the moment.
#[verifier::external_body]
fn clock_now() -> (t: SystemTime) {
    SystemTime::now()
}

/// `SystemTime::duration_since` against `UNIX_EPOCH`: the time since the
/// epoch, or an error where the clock reads earlier than the epoch. Nothing
/// is stated of which comes back: the time is opaque here.
#[verifier::external_body]
fn since_epoch(t: &SystemTime) -> (d: Result<Duration, SystemTimeError>) {
    t.duration_since(std::time::UNIX_EPOCH)
}

/// `Duration::as_secs`: the whole seconds of a duration. Nothing is stated
/// of it: the duration is opaque here.
#[verifier::external_body]
fn whole_secs(d: &Duration) -> (secs: u64) {
    d.as_secs()
}

/// Whole seconds since the epoch on the machine's clock, or `None` where
/// the clock reads earlier than the epoch.
pub fn secs_since_epoch() -> (secs: Option<u64>) {
    let now = clock_now();
    match since_epoch(&now) {
        Ok(d) => Some(whole_secs(&d)),
        Err(_) => None,
    }
}

/// Whole seconds since the epoch as the MySQL models store them: the
/// unsigned count read as a signed integer.
pub fn timestamp_from_secs(secs: u64) -> (t: i64)
    ensures
        t == secs as i64,
{
    secs as i64
}

/// The current time as the MySQL models store it: whole seconds since the
/// epoch, as a signed integer; `None` where the clock reads earlier than
/// the epoch.
pub fn unix_timestamp() -> (t: Option<i64>) {
    match secs_since_epoch() {
        Some(s) => Some(timestamp_from_secs(s)),
        None => None,
    }
}

} // verus!
