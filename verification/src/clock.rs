//! The wall clock.

use vstd::prelude::*;

verus! {

/// `std::time::SystemTime`: carried from the clock to the subtraction,
/// nothing is known of what it holds.
#[verifier::external_type_specification]
#[verifier::external_body]
pub struct ExSystemTime(std::time::SystemTime);

/// `SystemTime::now`. Nothing is known of the time that it gives.
#[verifier::external_body]
fn system_now() -> std::time::SystemTime {
    std::time::SystemTime::now()
}

/// `SystemTime::duration_since` with `UNIX_EPOCH`: how long after the epoch
/// `time` is, or `None` where it is before the epoch.
#[verifier::external_body]
fn since_unix_epoch(time: &std::time::SystemTime) -> Option<std::time::Duration> {
    match time.duration_since(std::time::UNIX_EPOCH) {
        Ok(elapsed) => Some(elapsed),
        Err(_) => None,
    }
}

/// `Duration::as_secs`: the whole seconds of `elapsed`.
#[verifier::external_body]
fn whole_seconds(elapsed: &std::time::Duration) -> u64 {
    elapsed.as_secs()
}

/// The seconds since the Unix epoch, or `None` where the clock stands before
/// the epoch or so far after it that an `i64` does not hold the seconds.
pub fn unix_seconds() -> (r: Option<i64>)
    ensures
        r matches Some(seconds) ==> seconds >= 0,
{
    let now = system_now();
    let elapsed = match since_unix_epoch(&now) {
        Some(elapsed) => Some(whole_seconds(&elapsed)),
        None => None,
    };
    time_of_reading(elapsed)
}

/// The time that a reading of the clock stands for. `elapsed` is the number
/// of whole seconds that the clock is after the epoch, `None` where it is
/// before the epoch. The time is that number where an `i64` holds it, and
/// no time else.
pub open spec fn reading_time(elapsed: Option<u64>) -> Option<i64> {
    match elapsed {
        Some(seconds) => if seconds <= i64::MAX {
            Some(seconds as i64)
        } else {
            None
        },
        None => None,
    }
}

/// Turns a reading of the clock into a time.
pub fn time_of_reading(elapsed: Option<u64>) -> (r: Option<i64>)
    ensures
        r == reading_time(elapsed),
{
    match elapsed {
        Some(seconds) => {
            if seconds <= 0x7fff_ffff_ffff_ffff {
                Some(seconds as i64)
            } else {
                None
            }
        },
        None => None,
    }
}

} // verus!
