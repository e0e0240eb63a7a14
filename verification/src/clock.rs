use vstd::prelude::*;

verus! {

/// std's point in time of the system clock; only carried through here.
#[verifier::external_type_specification]
#[verifier::external_body]
pub struct ExSystemTime(std::time::SystemTime);

/// `SystemTime::now`: the system clock's current time. Nothing is stated of
/// the value, which is the machine's clock.
#[verifier::external_body]
pub(crate) fn system_now() -> (r: std::time::SystemTime) {
    std::time::SystemTime::now()
}

/// `SystemTime::duration_since(UNIX_EPOCH)`, as (whole seconds, nanoseconds
/// of the second): `Ok` with how long after the epoch `t` lies, or `Err`
/// with how long before it (the error's `duration`). The nanoseconds are a
/// `Duration`'s `subsec_nanos`, below one billion; how the reading relates
/// to `t` is not stated, as `t` is opaque here.
#[verifier::external_body]
pub(crate) fn since_epoch(t: &std::time::SystemTime) -> (r: Result<(u64, u32), (u64, u32)>)
    ensures
        match r {
            Ok((_, n)) => n < 1_000_000_000,
            Err((_, n)) => n < 1_000_000_000,
        },
{
    match t.duration_since(std::time::SystemTime::UNIX_EPOCH) {
        Ok(d) => Ok((d.as_secs(), d.subsec_nanos())),
        Err(e) => Err((e.duration().as_secs(), e.duration().subsec_nanos())),
    }
}

/// The earliest Unix timestamp the time crate accepts as built here (its
/// default features, without `large-dates`): -9999-01-01 00:00:00 UTC.
pub const MIN_UNIX_SECONDS: i64 = -377_705_116_800;

/// The latest such timestamp: 9999-12-31 23:59:59 UTC.
pub const MAX_UNIX_SECONDS: i64 = 253_402_300_799;

/// The UTC (year, month, day, hour, minute, second) that the time crate's
/// `OffsetDateTime::from_unix_timestamp(secs)` holds, read with its
/// `year`, `month` (as a number), `day`, `hour`, `minute` and `second`.
pub uninterp spec fn utc_date_time(secs: int) -> (int, nat, nat, nat, nat, nat);

/// `OffsetDateTime::from_unix_timestamp`, read field by field: the UTC date
/// and time `secs` seconds after the epoch, or `None` (its `ComponentRange`
/// error) outside the dates the crate represents. The crate is built with
/// its default features, so those dates are the years -9999 to 9999. The
/// fields are `utc_date_time(secs)`; the getters document the hour, minute
/// and second ranges and the day range, the month is `From<Month> for u8`
/// (January 1 to December 12), and the year is a ranged integer.
#[verifier::external_body]
pub(crate) fn utc_fields(secs: i64) -> (r: Option<(i32, u8, u8, u8, u8, u8)>)
    ensures
        r is Some <==> MIN_UNIX_SECONDS <= secs <= MAX_UNIX_SECONDS,
        r matches Some(f) ==> {
            &&& (f.0 as int, f.1 as nat, f.2 as nat, f.3 as nat, f.4 as nat, f.5 as nat)
                == utc_date_time(secs as int)
            &&& -9999 <= f.0 <= 9999
            &&& 1 <= f.1 <= 12
            &&& 1 <= f.2 <= 31
            &&& f.3 < 24
            &&& f.4 < 60
            &&& f.5 < 60
        },
{
    match time::OffsetDateTime::from_unix_timestamp(secs) {
        Ok(t) => Some((t.year(), u8::from(t.month()), t.day(), t.hour(), t.minute(), t.second())),
        Err(_) => None,
    }
}

/// Whole seconds since the epoch, rounded down, of a reading of the clock
/// that lies `after` the epoch (`Ok`) or before it (`Err`).
pub open spec fn floor_seconds(reading: Result<(u64, u32), (u64, u32)>) -> int {
    match reading {
        Ok((s, _)) => s as int,
        Err((s, n)) => -(s as int) - if n > 0 { 1int } else { 0int },
    }
}

/// The Unix timestamp of a clock reading: its whole seconds since the
/// epoch, rounded down, if they fit an `i64`.
pub fn unix_seconds(reading: Result<(u64, u32), (u64, u32)>) -> (r: Option<i64>)
    ensures
        (i64::MIN <= floor_seconds(reading) <= i64::MAX) <==> r is Some,
        r matches Some(v) ==> v == floor_seconds(reading),
{
    match reading {
        Ok((s, _)) => {
            if s <= i64::MAX as u64 {
                Some(s as i64)
            } else {
                None
            }
        },
        Err((s, n)) => {
            let extra: u64 = if n > 0 { 1 } else { 0 };
            if s <= i64::MAX as u64 {
                Some(-(s as i64) - extra as i64)
            } else if s == i64::MAX as u64 + 1 && extra == 0 {
                Some(i64::MIN)
            } else {
                None
            }
        },
    }
}

} // verus!
