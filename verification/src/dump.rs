//! The start of the observer's day, from which a dump of today's messages
//! is taken.

use vstd::prelude::*;
use chrono::{DateTime, FixedOffset, TimeZone, Utc};

verus! {

/// The time stamps, in seconds of Unix time, between which the calendar is
/// asked: some 250,000 years to either side of 1970.
pub const MAX_TIMESTAMP: i64 = 8_000_000_000_000;

/// What can keep the start of the day from being found.
#[derive(Debug, Clone, Copy, PartialEq, Eq, Structural)]
pub enum DumpError {
    /// The offset in minutes is too large to be turned into seconds.
    OffsetTooLarge,
    /// The offset is a day or more.
    InvalidOffset,
    /// No local midnight is found: the time lies outside [`MAX_TIMESTAMP`].
    NoLocalMidnight,
}

/// The seconds of one day.
pub const DAY: i64 = 86_400;

/// Midnight at the start of the local day that holds the time `now_ts`, for
/// a zone `offset_secs` east of Greenwich, in seconds of Unix time: the
/// local time, `now_ts + offset_secs`, taken down to a whole number of
/// days, and back to Greenwich. The days are counted downwards, so that a
/// time before 1970 lies in the day that starts before it.
pub open spec fn local_midnight_utc(now_ts: i64, offset_secs: i32) -> int {
    ((now_ts + offset_secs) / (DAY as int)) * DAY - offset_secs
}

/// Calls `FixedOffset::east_opt`, which makes an offset exactly from a
/// number of seconds that is less than a day to either side.
#[verifier::external_body]
fn offset_exists(offset_secs: i32) -> (b: bool)
    ensures
        b == (-86_400 < offset_secs && offset_secs < 86_400),
{
    FixedOffset::east_opt(offset_secs).is_some()
}

/// Asks `chrono` for the local date of a time and for the midnight that
/// starts it: `DateTime::from_timestamp`, `with_timezone`, `date_naive`,
/// `and_hms_opt`, `from_local_datetime`, `timestamp`. With a fixed offset
/// every local day has one midnight, and `chrono` counts days of 86,400
/// seconds from 1970, downwards for times before it; so the call is taken
/// to give [`local_midnight_utc`]. Times far from the present, at which
/// `date_naive` may panic, are left out.
#[verifier::external_body]
fn chrono_local_midnight(now_ts: i64, offset_secs: i32) -> (start: Option<i64>)
    requires
        -86_400 < offset_secs < 86_400,
        -MAX_TIMESTAMP <= now_ts <= MAX_TIMESTAMP,
    ensures
        start == Some(local_midnight_utc(now_ts, offset_secs) as i64),
{
    let offset = FixedOffset::east_opt(offset_secs)?;
    let today = DateTime::from_timestamp(now_ts, 0)?.with_timezone(&offset).date_naive();
    let local_start = offset.from_local_datetime(&today.and_hms_opt(0, 0, 0)?).single()?;
    Some(local_start.with_timezone(&Utc).timestamp())
}

/// A time-zone offset in minutes as seconds, if it fits in 32 bits.
pub open spec fn seconds_of(offset_minutes: i32) -> Option<i32> {
    if i32::MIN <= offset_minutes * 60 <= i32::MAX {
        Some((offset_minutes * 60) as i32)
    } else {
        None
    }
}

/// What is made of the midnight that the calendar gave.
pub open spec fn midnight_or_error(found: Option<i64>) -> Result<i64, DumpError> {
    match found {
        Some(start) => Ok(start),
        None => Err(DumpError::NoLocalMidnight),
    }
}

/// The start of the local day that holds `now_ts`, for an offset given in
/// minutes east of Greenwich: refused for an offset that cannot be turned
/// into seconds or is a day or more, and for a time outside
/// [`MAX_TIMESTAMP`]; else the local midnight.
pub open spec fn start_of_day(now_ts: i64, offset_minutes: i32) -> Result<i64, DumpError> {
    match seconds_of(offset_minutes) {
        None => Err(DumpError::OffsetTooLarge),
        Some(secs) => if !(-86_400 < secs && secs < 86_400) {
            Err(DumpError::InvalidOffset)
        } else if !(-MAX_TIMESTAMP <= now_ts && now_ts <= MAX_TIMESTAMP) {
            Err(DumpError::NoLocalMidnight)
        } else {
            Ok(local_midnight_utc(now_ts, secs) as i64)
        },
    }
}

/// The start of the day is a local midnight, and the day that it starts
/// holds the present time.
pub proof fn lemma_start_of_day_holds_now(now_ts: i64, offset_minutes: i32)
    ensures
        start_of_day(now_ts, offset_minutes) matches Ok(start) ==> start <= now_ts < start + DAY
            && (start + offset_minutes * 60) % (DAY as int) == 0,
{
    if start_of_day(now_ts, offset_minutes) is Ok {
        let secs = offset_minutes * 60;
        let local = now_ts + secs;
        let days = local / (DAY as int);
        assert(local == days * DAY + local % (DAY as int) && 0 <= local % (DAY as int) < DAY)
            by (nonlinear_arith)
            requires
                days == local / (DAY as int),
                DAY == 86_400,
        ;
        assert((days * DAY) % (DAY as int) == 0) by (nonlinear_arith)
            requires
                DAY == 86_400,
        ;
    }
}

/// A time-zone offset in minutes as seconds, if it fits in 32 bits.
pub fn offset_seconds(offset_minutes: i32) -> (secs: Option<i32>)
    ensures
        secs == seconds_of(offset_minutes),
{
    if offset_minutes > i32::MAX / 60 || offset_minutes < i32::MIN / 60 {
        None
    } else {
        Some(offset_minutes * 60)
    }
}

/// What is made of the midnight that the calendar gave.
pub fn midnight_found(found: Option<i64>) -> (r: Result<i64, DumpError>)
    ensures
        r == midnight_or_error(found),
{
    match found {
        Some(start) => Ok(start),
        None => Err(DumpError::NoLocalMidnight),
    }
}

/// The start of today in the observer's zone, in seconds of Unix time,
/// where `now_ts` is the present time and `offset_minutes` the zone's
/// offset east of Greenwich.
pub fn start_of_today_utc_from_offset(now_ts: i64, offset_minutes: i32) -> (r: Result<
    i64,
    DumpError,
>)
    ensures
        r == start_of_day(now_ts, offset_minutes),
{
    let secs = match offset_seconds(offset_minutes) {
        Some(secs) => secs,
        None => {
            return Err(DumpError::OffsetTooLarge);
        },
    };
    if !offset_exists(secs) {
        return Err(DumpError::InvalidOffset);
    }
    if now_ts < -MAX_TIMESTAMP || now_ts > MAX_TIMESTAMP {
        return Err(DumpError::NoLocalMidnight);
    }
    midnight_found(chrono_local_midnight(now_ts, secs))
}

} // verus!
