//! The clocks the application reads: wall-clock seconds, the local time of
//! day, and a monotonic instant for save intervals.
use vstd::prelude::*;

verus! {

/// A local time of day as the clock gives it: `HH:MM:SS`, two digits each.
pub open spec fn clock_text(t: Seq<char>) -> bool {
    &&& t.len() == 8
    &&& t[2] == ':'
    &&& t[5] == ':'
    &&& forall|i: int| 0 <= i < 8 && i != 2 && i != 5 ==> '0' <= #[trigger] t[i] <= '9'
}

#[verifier::external_type_specification]
#[verifier::external_body]
pub struct ExInstant(std::time::Instant);

#[verifier::external_type_specification]
#[verifier::external_body]
pub struct ExSystemTime(std::time::SystemTime);

/// `std::time::SystemTime::now`: the current wall-clock time.
#[verifier::external_body]
fn system_now() -> (t: std::time::SystemTime) {
    std::time::SystemTime::now()
}

/// `std::time::SystemTime::duration_since(UNIX_EPOCH)`: how long after the
/// Unix epoch `t` is, as whole seconds and the nanoseconds beyond them
/// (`Duration::as_secs`, `Duration::subsec_nanos`, which is below one
/// billion), or, when `t` lies before the epoch, how long before it
/// (`SystemTimeError::duration`) in the same form. Which it is depends on
/// the clock.
#[verifier::external_body]
fn since_epoch(t: &std::time::SystemTime) -> (r: Result<(u64, u32), (u64, u32)>)
    ensures
        r matches Ok((_, n)) ==> n < 1_000_000_000,
        r matches Err((_, n)) ==> n < 1_000_000_000,
{
    match t.duration_since(std::time::UNIX_EPOCH) {
        Ok(d) => Ok((d.as_secs(), d.subsec_nanos())),
        Err(e) => Err((e.duration().as_secs(), e.duration().subsec_nanos())),
    }
}

/// `chrono::DateTime::<Utc>::from_timestamp(secs, nanos)` read back with
/// `DateTime::timestamp`: the crate gives `None` for a time out of its range
/// or an invalid nanosecond count, and otherwise a time whose timestamp is
/// `secs`; every second from the epoch to the end of year 9999 with fewer
/// than a billion nanoseconds is in range.
#[verifier::external_body]
fn utc_timestamp(secs: i64, nanos: u32) -> (r: Option<i64>)
    ensures
        r matches Some(t) ==> t == secs,
        0 <= secs <= 253_402_300_799 && nanos < 1_000_000_000 ==> r is Some,
{
    match chrono::DateTime::from_timestamp(secs, nanos) {
        Some(d) => Some(d.timestamp()),
        None => None,
    }
}

/// `chrono::DateTime::<Utc>::from_timestamp(secs, nanos)` shown in the local
/// time zone (`with_timezone(&Local)`) as `%H:%M:%S`. The zone comes from
/// the environment, so which time of day it is is not stated; every
/// outcome is two zero-padded digits each for hours, minutes and seconds,
/// separated by `:`, as the crate documents for those specifiers. `None`
/// comes, as for the timestamp, only for a time out of the crate's range.
#[verifier::external_body]
fn local_time_text(secs: i64, nanos: u32) -> (r: Option<String>)
    ensures
        r matches Some(s) ==> clock_text(s@),
        0 <= secs <= 253_402_300_799 && nanos < 1_000_000_000 ==> r is Some,
{
    match chrono::DateTime::from_timestamp(secs, nanos) {
        Some(d) => Some(d.with_timezone(&chrono::Local).format("%H:%M:%S").to_string()),
        None => None,
    }
}

/// A time `after` seconds and nanoseconds from the Unix epoch (`before` it
/// when `before` holds) as a timestamp: whole seconds from the epoch,
/// rounded down (negative before the epoch), and the nanoseconds beyond
/// them; `None` when the seconds do not fit.
pub open spec fn timestamp_of(secs: u64, nanos: u32, before: bool) -> Option<(int, int)> {
    if !before {
        if secs <= i64::MAX {
            Some((secs as int, nanos as int))
        } else {
            None
        }
    } else if nanos == 0 {
        if secs <= i64::MAX {
            Some((-(secs as int), 0))
        } else {
            None
        }
    } else if secs < i64::MAX {
        Some((-(secs as int) - 1, 1_000_000_000 - nanos))
    } else {
        None
    }
}

/// The timestamp of a reading of the clock (see `timestamp_of`).
fn timestamp_from(reading: Result<(u64, u32), (u64, u32)>) -> (r: Option<(i64, u32)>)
    requires
        reading matches Ok((_, n)) ==> n < 1_000_000_000,
        reading matches Err((_, n)) ==> n < 1_000_000_000,
    ensures
        match reading {
            Ok((s, n)) => match timestamp_of(s, n, false) {
                Some((ts, tn)) => r == Some((ts as i64, tn as u32)),
                None => r is None,
            },
            Err((s, n)) => match timestamp_of(s, n, true) {
                Some((ts, tn)) => r == Some((ts as i64, tn as u32)),
                None => r is None,
            },
        },
        r matches Some((_, n)) ==> n < 1_000_000_000,
{
    match reading {
        Ok((s, n)) => if s <= 9_223_372_036_854_775_807u64 {
            Some((s as i64, n))
        } else {
            None
        },
        Err((s, n)) => if n == 0 {
            if s <= 9_223_372_036_854_775_807u64 {
                Some((0 - (s as i64), 0))
            } else {
                None
            }
        } else if s < 9_223_372_036_854_775_807u64 {
            Some((0 - (s as i64) - 1, 1_000_000_000 - n))
        } else {
            None
        },
    }
}

/// Seconds from the Unix epoch as the wall clock gives them (through
/// chrono), negative before the epoch; 0 when the reading lies beyond what
/// the crate's times hold.
pub(crate) fn utc_now_seconds() -> (t: i64) {
    let t = system_now();
    let reading = since_epoch(&t);
    match timestamp_from(reading) {
        Some((s, n)) => match utc_timestamp(s, n) {
            Some(t) => t,
            None => 0,
        },
        None => 0,
    }
}

/// The local time of day as `HH:MM:SS` (through chrono); `00:00:00` when the
/// reading lies beyond what the crate's times hold.
pub(crate) fn local_time_of_day() -> (s: String)
    ensures
        clock_text(s@),
{
    let midnight = "00:00:00";
    proof {
        reveal_strlit("00:00:00");
    }
    assert(clock_text(midnight@));
    let t = system_now();
    let reading = since_epoch(&t);
    match timestamp_from(reading) {
        Some((s, n)) => match local_time_text(s, n) {
            Some(t) => t,
            None => midnight.to_string(),
        },
        None => midnight.to_string(),
    }
}

/// `std::time::Instant::now`: the current monotonic instant, from which a
/// document's save interval is counted.
#[verifier::external_body]
pub(crate) fn default_instant() -> (i: std::time::Instant) {
    std::time::Instant::now()
}

} // verus!
