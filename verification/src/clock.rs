//! The wall clock that stamps every snapshot.

use std::time::{Duration, SystemTime, SystemTimeError};
use vstd::prelude::*;

verus! {

/// The system's clock reading, carried through unread.
#[verifier::external_type_specification]
#[verifier::external_body]
pub struct ExSystemTime(SystemTime);

/// The error of a clock reading that lies before another.
#[verifier::external_type_specification]
#[verifier::external_body]
pub struct ExSystemTimeError(SystemTimeError);

/// `SystemTime::now` reads the clock: nothing is claimed of the reading.
pub assume_specification[ SystemTime::now ]() -> (now: SystemTime);

/// `SystemTime::duration_since` measures from an earlier reading to a later
/// one, and fails where the order is the other way. Readings are opaque, so
/// nothing is claimed of the outcome.
pub assume_specification[ SystemTime::duration_since ](
    later: &SystemTime,
    earlier: SystemTime,
) -> (elapsed: Result<Duration, SystemTimeError>);

/// `Duration::as_secs` gives the whole seconds of a duration. Durations are
/// opaque, so nothing is claimed of the number.
pub assume_specification[ Duration::as_secs ](elapsed: &Duration) -> (seconds: u64);

/// The constant `std::time::UNIX_EPOCH`, an opaque reading.
#[verifier::external_body]
fn unix_epoch() -> (epoch: SystemTime)
{
    std::time::UNIX_EPOCH
}

/// The stamp for a clock that is `elapsed` seconds past the epoch; a clock set
/// before the epoch has no such number and is stamped 0.
pub fn timestamp_of(elapsed: Option<u64>) -> (timestamp: u64)
    ensures
        timestamp == (match elapsed {
            Some(seconds) => seconds,
            None => 0u64,
        }),
{
    match elapsed {
        Some(seconds) => seconds,
        None => 0,
    }
}

/// Whether a stamp is the one for a clock that reads `now`: the whole seconds
/// of what `SystemTime::duration_since` measured from the epoch to that reading,
/// or 0 where the reading lies before the epoch.
pub closed spec fn stamps(now: SystemTime, timestamp: u64) -> bool {
    exists|epoch: SystemTime, elapsed: Result<Duration, SystemTimeError>|
        {
            &&& call_ensures(unix_epoch, (), epoch)
            &&& #[trigger] call_ensures(SystemTime::duration_since, (&now, epoch), elapsed)
            &&& match elapsed {
                Ok(duration) => call_ensures(Duration::as_secs, (&duration,), timestamp),
                Err(_) => timestamp == 0,
            }
        }
}

/// Whether a stamp is that of a reading of the clock.
pub open spec fn is_read_now(timestamp: u64) -> bool {
    exists|now: SystemTime|
        call_ensures(SystemTime::now, (), now) && #[trigger] stamps(now, timestamp)
}

/// A stamp that was read now is the whole seconds that were measured from the
/// epoch to a reading of the clock, or 0 where measuring failed.
proof fn lemma_stamp_is_measured(timestamp: u64)
    requires
        is_read_now(timestamp),
    ensures
        exists|now: SystemTime, epoch: SystemTime, elapsed: Result<Duration, SystemTimeError>|
            {
                &&& call_ensures(SystemTime::now, (), now)
                &&& call_ensures(unix_epoch, (), epoch)
                &&& #[trigger] call_ensures(SystemTime::duration_since, (&now, epoch), elapsed)
                &&& elapsed matches Ok(duration) ==> call_ensures(
                    Duration::as_secs,
                    (&duration,),
                    timestamp,
                )
                &&& elapsed is Err ==> timestamp == 0
            },
{
}

/// Seconds since the epoch, now: the stamp for what `SystemTime::now` read. The
/// clock decides the number.
pub fn now_timestamp() -> (timestamp: u64)
    ensures
        is_read_now(timestamp),
{
    let now = SystemTime::now();
    let elapsed = now.duration_since(unix_epoch());
    let seconds: Option<u64> = match &elapsed {
        Ok(duration) => Some(duration.as_secs()),
        Err(_) => None,
    };
    let timestamp: u64 = timestamp_of(seconds);
    assert(stamps(now, timestamp));
    timestamp
}

} // verus!
