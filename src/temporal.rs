//! Integer timestamps and RFC 3339 text of a date-time value.
use vstd::prelude::*;
use crate::value::BoltDateTime;

verus! {

/// The resolution of an integer timestamp.
#[derive(Clone, Copy, Debug, PartialEq, Eq, Structural)]
pub enum TimeUnit {
    Seconds,
    Millis,
    Micros,
    Nanos,
}

/// Units of `unit` in one second.
pub open spec fn per_second(unit: TimeUnit) -> int {
    match unit {
        TimeUnit::Seconds => 1,
        TimeUnit::Millis => 1_000,
        TimeUnit::Micros => 1_000_000,
        TimeUnit::Nanos => 1_000_000_000,
    }
}

/// The nanosecond part lies within its second.
pub open spec fn nanos_valid(d: BoltDateTime) -> bool {
    0 <= d.nanoseconds < 1_000_000_000
}

/// The instant as a count of `unit` since the Unix epoch, rounded towards the
/// past; `None` where the nanoseconds are out of range or the count does not
/// fit in 64 bits.
pub open spec fn timestamp_of(d: BoltDateTime, unit: TimeUnit) -> Option<int> {
    let v = d.seconds as int * per_second(unit) + d.nanoseconds as int / (1_000_000_000int / per_second(unit));
    if nanos_valid(d) && i64::MIN <= v <= i64::MAX {
        Some(v)
    } else {
        None
    }
}

/// The instant as an integer timestamp in `unit`.
pub fn timestamp(d: &BoltDateTime, unit: TimeUnit) -> (r: Option<i64>)
    ensures
        r matches Some(v) ==> timestamp_of(*d, unit) == Some(v as int),
        r is None ==> timestamp_of(*d, unit) is None,
{
    if d.nanoseconds < 0 || d.nanoseconds >= 1_000_000_000 {
        return None;
    }
    let scale: i64 = match unit {
        TimeUnit::Seconds => 1,
        TimeUnit::Millis => 1_000,
        TimeUnit::Micros => 1_000_000,
        TimeUnit::Nanos => 1_000_000_000,
    };
    let divisor: i64 = 1_000_000_000 / scale;
    let sub: i64 = d.nanoseconds / divisor;
    assert(0 <= sub <= d.nanoseconds) by (nonlinear_arith)
        requires
            sub == d.nanoseconds / divisor,
            divisor >= 1,
            d.nanoseconds >= 0,
    ;
    let wide: i128 = d.seconds as i128 * scale as i128;
    assert(-1_000_000_000 * 0x8000_0000_0000_0000 <= wide <= 1_000_000_000 * 0x8000_0000_0000_0000)
        by (nonlinear_arith)
        requires
            wide == d.seconds * scale,
            1 <= scale <= 1_000_000_000,
            i64::MIN <= d.seconds <= i64::MAX,
    ;
    let v: i128 = wide + sub as i128;
    if v < i64::MIN as i128 || v > i64::MAX as i128 {
        None
    } else {
        Some(v as i64)
    }
}

/// What chrono's `DateTime::to_rfc3339` renders for the instant of `secs`
/// seconds and `nanos` nanoseconds after the Unix epoch, shown at an offset of
/// `offset` seconds from UTC; `None` where chrono cannot represent it.
pub uninterp spec fn rfc3339_of(secs: int, nanos: int, offset: int) -> Option<Seq<char>>;

/// Relies on chrono: `DateTime::from_timestamp`, `FixedOffset::east_opt` and
/// `DateTime::to_rfc3339` (chrono's `east_opt` rejects offsets of a day or more).
#[verifier::external_body]
fn render_rfc3339(secs: i64, nanos: u32, offset: i32) -> (r: Option<String>)
    ensures
        r is Some <==> rfc3339_of(secs as int, nanos as int, offset as int) is Some,
        r matches Some(s) ==> rfc3339_of(secs as int, nanos as int, offset as int) == Some(s@),
        !(-86_400 < offset < 86_400) ==> r is None,
{
    let tz = chrono::FixedOffset::east_opt(offset)?;
    let utc = chrono::DateTime::from_timestamp(secs, nanos)?;
    Some(utc.with_timezone(&tz).to_rfc3339())
}

/// The RFC 3339 text of a date-time, where its fields fit chrono's.
pub open spec fn datetime_text(d: BoltDateTime) -> Option<Seq<char>> {
    if 0 <= d.nanoseconds <= u32::MAX && i32::MIN <= d.tz_offset_seconds <= i32::MAX {
        rfc3339_of(d.seconds as int, d.nanoseconds as int, d.tz_offset_seconds as int)
    } else {
        None
    }
}

/// The date-time rendered in extended ISO 8601 with its offset.
pub fn rfc3339(d: &BoltDateTime) -> (r: Option<String>)
    ensures
        r is Some <==> datetime_text(*d) is Some,
        r matches Some(s) ==> datetime_text(*d) == Some(s@),
{
    if d.nanoseconds < 0 || d.nanoseconds > u32::MAX as i64 || d.tz_offset_seconds < i32::MIN as i64
        || d.tz_offset_seconds > i32::MAX as i64 {
        return None;
    }
    render_rfc3339(d.seconds, d.nanoseconds as u32, d.tz_offset_seconds as i32)
}

} // verus!
