//! Calendar timestamps as instants.
use vstd::prelude::*;

verus! {

/// An instant, as seconds and nanoseconds after the Unix epoch.
#[derive(Debug, Clone, Copy, PartialEq, Eq, Structural)]
pub struct Timestamp {
    pub secs: i64,
    pub nanos: u32,
}

impl Timestamp {
    /// The Unix epoch, the fallback for missing or invalid times.
    pub fn epoch() -> (r: Timestamp)
        ensures
            r.secs == 0 && r.nanos == 0,
    {
        Timestamp { secs: 0, nanos: 0 }
    }
}

pub open spec fn is_leap_year(y: int) -> bool {
    y % 4 == 0 && (y % 100 != 0 || y % 400 == 0)
}

pub open spec fn days_in_month(y: int, m: int) -> int {
    if m == 2 {
        if is_leap_year(y) {
            29
        } else {
            28
        }
    } else if m == 4 || m == 6 || m == 9 || m == 11 {
        30
    } else {
        31
    }
}

/// A date of the proleptic Gregorian calendar with a time of day, in range.
pub open spec fn valid_civil(y: int, mo: int, d: int, h: int, mi: int, s: int) -> bool {
    &&& 1 <= mo <= 12
    &&& 1 <= d <= days_in_month(y, mo)
    &&& 0 <= h < 24
    &&& 0 <= mi < 60
    &&& 0 <= s < 60
}

/// The days from 1970-01-01 to the given day of the proleptic Gregorian
/// calendar (for years from 1 on), counting years from March so that the leap day
/// comes last.
pub open spec fn days_from_civil(y: int, mo: int, d: int) -> int {
    let y2 = if mo <= 2 {
        y - 1
    } else {
        y
    };
    let era = y2 / 400;
    let yoe = y2 - era * 400;
    let mp = (mo + 9) % 12;
    let doy = (153 * mp + 2) / 5 + d - 1;
    let doe = yoe * 365 + yoe / 4 - yoe / 100 + doy;
    era * 146097 + doe - 719468
}

/// The instant (seconds after the Unix epoch) of a civil date and time read at a
/// UTC offset of `offset` seconds.
pub open spec fn civil_instant(y: int, mo: int, d: int, h: int, mi: int, s: int, offset: int) -> int {
    days_from_civil(y, mo, d) * 86400 + h * 3600 + mi * 60 + s - offset
}

/// Relies on chrono's `FixedOffset::east_opt`, `TimeZone::with_ymd_and_hms`,
/// `MappedLocalTime::single` and `DateTime::timestamp`: in the years a FAT
/// timestamp can name, a civil date and time at a fixed offset is one instant (the
/// non-leap seconds since 1970-01-01T00:00:00Z) when the date and time exist, and
/// none otherwise.
#[verifier::external_body]
fn fixed_offset_seconds(
    y: i32,
    mo: u32,
    d: u32,
    h: u32,
    mi: u32,
    s: u32,
    offset: i32,
) -> (r: Option<i64>)
    requires
        1980 <= y <= 2107,
        -86400 < offset < 86400,
    ensures
        r is Some <==> valid_civil(y as int, mo as int, d as int, h as int, mi as int, s as int),
        r matches Some(t) ==> t == civil_instant(
            y as int,
            mo as int,
            d as int,
            h as int,
            mi as int,
            s as int,
            offset as int,
        ),
{
    let tz = chrono::FixedOffset::east_opt(offset)?;
    let dt = chrono::TimeZone::with_ymd_and_hms(&tz, y, mo, d, h, mi, s).single()?;
    Some(dt.timestamp())
}

/// Relies on chrono's `Local.with_ymd_and_hms`, `MappedLocalTime::single` and
/// `DateTime::timestamp`: the machine's time zone decides the instant, and there is
/// none when the date or time does not exist.
#[verifier::external_body]
fn local_seconds(y: i32, mo: u32, d: u32, h: u32, mi: u32, s: u32) -> (r: Option<i64>)
    ensures
        r is Some ==> valid_civil(y as int, mo as int, d as int, h as int, mi as int, s as int),
{
    let dt = chrono::TimeZone::with_ymd_and_hms(&chrono::Local, y, mo, d, h, mi, s).single()?;
    Some(dt.timestamp())
}

/// The calendar fields packed in a 16-bit FAT date (`date`) and time (`time`):
/// years since 1980, month, day, hour, minute and two-second count.
pub open spec fn fat_fields(date: u16, time: u16) -> (int, int, int, int, int, int) {
    (
        1980 + date as int / 512,
        (date as int / 32) % 16,
        date as int % 32,
        time as int / 2048,
        (time as int / 32) % 64,
        (time as int % 32) * 2,
    )
}

/// The instant of a FAT date and time read at a UTC offset in seconds; the Unix
/// epoch where the fields name no valid date and time.
pub open spec fn fat_instant(date: u16, time: u16, offset: int) -> Timestamp {
    let (y, mo, d, h, mi, s) = fat_fields(date, time);
    if valid_civil(y, mo, d, h, mi, s) {
        Timestamp { secs: civil_instant(y, mo, d, h, mi, s, offset) as i64, nanos: 0 }
    } else {
        Timestamp { secs: 0, nanos: 0 }
    }
}

/// A FAT date and time read at a fixed UTC offset of `offset` seconds.
pub fn fat_time_at_offset(date: u16, time: u16, offset: i32) -> (r: Timestamp)
    requires
        -86400 < offset < 86400,
    ensures
        r == fat_instant(date, time, offset as int),
{
    let y: i32 = 1980 + (date / 512) as i32;
    let mo: u32 = ((date / 32) % 16) as u32;
    let d: u32 = (date % 32) as u32;
    let h: u32 = (time / 2048) as u32;
    let mi: u32 = ((time / 32) % 64) as u32;
    let s: u32 = ((time % 32) * 2) as u32;
    match fixed_offset_seconds(y, mo, d, h, mi, s, offset) {
        Some(t) => Timestamp { secs: t, nanos: 0 },
        None => Timestamp::epoch(),
    }
}

/// Whether the fields of a FAT date and time name a valid date and time.
pub open spec fn fat_valid(date: u16, time: u16) -> bool {
    let (y, mo, d, h, mi, s) = fat_fields(date, time);
    valid_civil(y, mo, d, h, mi, s)
}

pub fn fat_fields_valid(date: u16, time: u16) -> (r: bool)
    ensures
        r == fat_valid(date, time),
{
    let y: u32 = 1980 + (date / 512) as u32;
    let mo: u32 = ((date / 32) % 16) as u32;
    let d: u32 = (date % 32) as u32;
    let h: u32 = (time / 2048) as u32;
    let mi: u32 = ((time / 32) % 64) as u32;
    let s: u32 = ((time % 32) * 2) as u32;
    let leap = y % 4 == 0 && (y % 100 != 0 || y % 400 == 0);
    let dim: u32 = if mo == 2 {
        if leap {
            29
        } else {
            28
        }
    } else if mo == 4 || mo == 6 || mo == 9 || mo == 11 {
        30
    } else {
        31
    };
    1 <= mo && mo <= 12 && 1 <= d && d <= dim && h < 24 && mi < 60 && s < 60
}

/// A FAT date and time read in the machine's time zone; none where the fields
/// name no valid date and time, or the zone skips that local time.
pub fn fat_time_local(date: u16, time: u16) -> (r: Option<Timestamp>)
    ensures
        r is Some ==> fat_valid(date, time),
        r matches Some(t) ==> t.nanos == 0,
{
    let y: i32 = 1980 + (date / 512) as i32;
    let mo: u32 = ((date / 32) % 16) as u32;
    let d: u32 = (date % 32) as u32;
    let h: u32 = (time / 2048) as u32;
    let mi: u32 = ((time / 32) % 64) as u32;
    let s: u32 = ((time % 32) * 2) as u32;
    match local_seconds(y, mo, d, h, mi, s) {
        Some(t) => Some(Timestamp { secs: t, nanos: 0 }),
        None => None,
    }
}

impl Timestamp {
    pub open spec fn epoch_spec() -> Timestamp {
        Timestamp { secs: 0, nanos: 0 }
    }

    /// This instant moved forward by `cs` hundredths of a second.
    pub fn plus_centis(self, cs: u8) -> (r: Timestamp)
        requires
            self.nanos < 1_000_000_000,
            self.secs < i64::MAX - 3,
        ensures
            r == self.plus_centis_spec(cs),
            r.secs * 1_000_000_000 + r.nanos == self.secs * 1_000_000_000 + self.nanos + cs
                * 10_000_000,
            r.nanos < 1_000_000_000,
    {
        let total: u64 = self.nanos as u64 + (cs as u64) * 10_000_000;
        Timestamp { secs: self.secs + (total / 1_000_000_000) as i64, nanos: (total % 1_000_000_000) as u32 }
    }

    pub open spec fn plus_centis_spec(self, cs: u8) -> Timestamp {
        let total = self.nanos + cs * 10_000_000;
        Timestamp { secs: (self.secs + total / 1_000_000_000) as i64, nanos: (total % 1_000_000_000) as u32 }
    }
}

} // verus!
