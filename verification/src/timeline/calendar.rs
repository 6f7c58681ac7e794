//! Dates, wall-clock times and instants as plain values, and the `chrono`, `chrono-tz` and
//! `lunar-lite` calls that convert between them.
use chrono::{Datelike, Offset, TimeZone};
use vstd::prelude::*;

verus! {

/// A calendar date (`chrono::NaiveDate`).
#[derive(Debug, Clone, Copy, PartialEq, Eq, Structural)]
pub struct CivilDate {
    pub year: i32,
    pub month: u32,
    pub day: u32,
}

/// A wall-clock date and time without a zone (`chrono::NaiveDateTime`), held as the
/// seconds and nanoseconds it would be since the Unix epoch if it were read at UTC.
#[derive(Debug, Clone, Copy, PartialEq, Eq, Structural)]
pub struct LocalDateTime {
    pub secs: i64,
    pub nanos: u32,
}

/// An instant with the UTC offset it is shown in (`chrono::DateTime<FixedOffset>`):
/// seconds and nanoseconds since the Unix epoch, and the offset east of UTC in seconds.
#[derive(Debug, Clone, Copy, PartialEq, Eq, Structural)]
pub struct Timestamp {
    pub secs: i64,
    pub nanos: u32,
    pub offset: i32,
}

impl Timestamp {
    /// The instant in RFC 3339 form at its offset, as `chrono` writes it; `None` when the
    /// parts do not form a `chrono` time.
    pub fn to_rfc3339(self) -> (r: Option<String>)
        ensures
            match r {
                Some(s) => rfc3339_format_spec(self) == Some(s@),
                None => rfc3339_format_spec(self) is None,
            },
    {
        format_rfc3339(self)
    }
}

/// How a wall-clock time maps to instants in a zone (`chrono::LocalResult`).
#[derive(Debug, Clone, Copy, PartialEq, Eq, Structural)]
pub enum LocalMapping {
    Single(Timestamp),
    Ambiguous(Timestamp, Timestamp),
    Nonexistent,
}

/// A date of the Chinese lunar calendar (`lunar_lite::LunarDate`).
#[derive(Debug, Clone, Copy, PartialEq, Eq, Structural)]
pub struct LunarDate {
    pub year: i32,
    pub month: u8,
    pub day: u8,
    pub is_leap_month: bool,
}

/// A lunar date within the calendar's bounds: month `1..=12`, day `1..=30`.
pub open spec fn lunar_in_range(l: LunarDate) -> bool {
    1 <= l.month <= 12 && 1 <= l.day <= 30
}

/// Seconds from the epoch that lie well inside `chrono`'s range of dates, so that an
/// instant there, moved by less than a day, still has a date.
pub open spec fn instant_in_range(secs: int) -> bool {
    -8_000_000_000_000 <= secs <= 8_000_000_000_000
}

/// An offset that `chrono::FixedOffset` can hold: less than a day either way.
pub open spec fn offset_in_range(offset: int) -> bool {
    -86_400 < offset < 86_400
}

/// A wall-clock time and the offset of an instant that shows it: the instant is the wall
/// clock moved back by the offset.
pub open spec fn shows_wall_clock(t: Timestamp, local: LocalDateTime) -> bool {
    &&& t.secs == local.secs - t.offset
    &&& t.nanos == local.nanos
    &&& offset_in_range(t.offset as int)
}

/// Whether `chrono-tz` knows a zone by this name.
pub uninterp spec fn tz_valid_spec(name: Seq<char>) -> bool;

/// The wall-clock mapping of `Tz::from_local_datetime` in the named zone.
pub uninterp spec fn tz_local_mapping_spec(name: Seq<char>, local: LocalDateTime) -> LocalMapping;

/// The offset, in seconds east of UTC, that the named zone has at an instant.
pub uninterp spec fn tz_offset_spec(name: Seq<char>, secs: int) -> Option<i32>;

/// `NaiveDateTime::parse_from_str(value, format)`.
pub uninterp spec fn naive_parse_spec(value: Seq<char>, format: Seq<char>) -> Option<LocalDateTime>;

/// `FixedOffset::from_local_datetime(..).single()` at the given offset.
pub uninterp spec fn fixed_local_spec(local: LocalDateTime, offset: int) -> Option<Timestamp>;

/// `DateTime::parse_from_rfc3339`.
pub uninterp spec fn rfc3339_parse_spec(value: Seq<char>) -> Option<Timestamp>;

/// `<DateTime<FixedOffset> as FromStr>::from_str`.
pub uninterp spec fn datetime_from_str_spec(value: Seq<char>) -> Option<Timestamp>;

/// `DateTime::to_rfc3339` of an instant at its offset.
pub uninterp spec fn rfc3339_format_spec(ts: Timestamp) -> Option<Seq<char>>;

/// `DateTime::date_naive`: the calendar date that an instant shows at an offset.
pub uninterp spec fn local_date_spec(secs: int, offset: int) -> Option<CivilDate>;

/// `name.parse::<chrono_tz::Tz>()`. Trusted: the result is the named validity of the name.
#[verifier::external_body]
pub(crate) fn tz_is_valid(name: &str) -> (ok: bool)
    ensures
        ok == tz_valid_spec(name@),
{
    name.parse::<chrono_tz::Tz>().is_ok()
}

/// `Tz::from_local_datetime` in the named zone. Trusted: the result is the named mapping;
/// as `chrono`'s `TimeZone::from_local_datetime` builds it, every instant in it shows the
/// wall-clock time at its own offset, and an offset is less than a day. An unknown zone
/// maps nothing.
#[verifier::external_body]
pub(crate) fn tz_local_mapping(name: &str, local: LocalDateTime) -> (m: LocalMapping)
    ensures
        m == tz_local_mapping_spec(name@, local),
        m matches LocalMapping::Single(t) ==> shows_wall_clock(t, local),
        m matches LocalMapping::Ambiguous(a, b) ==> shows_wall_clock(a, local) && shows_wall_clock(b, local),
{
    let tz = match name.parse::<chrono_tz::Tz>() {
        Ok(tz) => tz,
        Err(_) => return LocalMapping::Nonexistent,
    };
    let n = match chrono::DateTime::from_timestamp(local.secs, local.nanos) {
        Some(n) => n,
        None => return LocalMapping::Nonexistent,
    };
    let st = |t: chrono::DateTime<chrono_tz::Tz>| Timestamp { secs: t.timestamp(), nanos: t.timestamp_subsec_nanos(), offset: t.offset().fix().local_minus_utc() };
    match tz.from_local_datetime(&n.naive_utc()) {
        chrono::LocalResult::Single(t) => LocalMapping::Single(st(t)),
        chrono::LocalResult::Ambiguous(a, b) => LocalMapping::Ambiguous(st(a), st(b)),
        chrono::LocalResult::None => LocalMapping::Nonexistent,
    }
}

/// `DateTime::with_timezone` into the named zone, then its offset. Trusted: the result is
/// the named offset, less than a day; `chrono-tz` finds it from the whole seconds of the
/// instant. It is there whenever the zone is known and the instant lies in range, and
/// only when the zone is known.
#[verifier::external_body]
pub(crate) fn tz_offset_at(name: &str, secs: i64) -> (r: Option<i32>)
    ensures
        r == tz_offset_spec(name@, secs as int),
        r matches Some(o) ==> offset_in_range(o as int) && tz_valid_spec(name@),
        tz_valid_spec(name@) && instant_in_range(secs as int) ==> r is Some,
{
    let tz = name.parse::<chrono_tz::Tz>().ok()?;
    let utc = chrono::DateTime::from_timestamp(secs, 0)?;
    Some(utc.with_timezone(&tz).offset().fix().local_minus_utc())
}

/// `NaiveDateTime::parse_from_str`. Trusted: the result is the named parse of the value
/// with the format.
#[verifier::external_body]
pub(crate) fn naive_parse(value: &str, format: &str) -> (r: Option<LocalDateTime>)
    ensures
        r == naive_parse_spec(value@, format@),
{
    let n = chrono::NaiveDateTime::parse_from_str(value, format).ok()?.and_utc();
    Some(LocalDateTime { secs: n.timestamp(), nanos: n.timestamp_subsec_nanos() })
}

/// `FixedOffset::east_opt(offset)` and its `from_local_datetime(..).single()`. Trusted: the
/// result is the named instant, which shows the wall-clock time at the offset given; it
/// is there whenever the wall-clock time lies in range.
#[verifier::external_body]
pub(crate) fn fixed_local(local: LocalDateTime, offset: i32) -> (r: Option<Timestamp>)
    requires
        offset_in_range(offset as int),
    ensures
        r == fixed_local_spec(local, offset as int),
        r matches Some(t) ==> shows_wall_clock(t, local) && t.offset == offset,
        instant_in_range(local.secs as int) && local.nanos < 1_000_000_000 ==> r is Some,
{
    let n = chrono::DateTime::from_timestamp(local.secs, local.nanos)?.naive_utc();
    let t = chrono::FixedOffset::east_opt(offset)?.from_local_datetime(&n).single()?;
    Some(Timestamp { secs: t.timestamp(), nanos: t.timestamp_subsec_nanos(), offset: t.offset().local_minus_utc() })
}

/// `DateTime::parse_from_rfc3339`. Trusted: the result is the named parse; its offset is
/// less than a day, and its four-digit year puts it well inside the range of instants.
#[verifier::external_body]
pub(crate) fn parse_rfc3339(value: &str) -> (r: Option<Timestamp>)
    ensures
        r == rfc3339_parse_spec(value@),
        r matches Some(t) ==> offset_in_range(t.offset as int) && instant_in_range(t.secs as int),
{
    let t = chrono::DateTime::parse_from_rfc3339(value).ok()?;
    Some(Timestamp { secs: t.timestamp(), nanos: t.timestamp_subsec_nanos(), offset: t.offset().local_minus_utc() })
}

/// `value.parse::<DateTime<FixedOffset>>()`. Trusted: the result is the named parse; its
/// offset is less than a day.
#[verifier::external_body]
pub(crate) fn parse_datetime(value: &str) -> (r: Option<Timestamp>)
    ensures
        r == datetime_from_str_spec(value@),
        r matches Some(t) ==> offset_in_range(t.offset as int),
{
    let t = value.parse::<chrono::DateTime<chrono::FixedOffset>>().ok()?;
    Some(Timestamp { secs: t.timestamp(), nanos: t.timestamp_subsec_nanos(), offset: t.offset().local_minus_utc() })
}

/// `DateTime::to_rfc3339` of the instant at its offset. Trusted: the result is the named
/// rendering (`None` when the parts do not form a `chrono` time).
#[verifier::external_body]
pub(crate) fn format_rfc3339(ts: Timestamp) -> (r: Option<String>)
    ensures
        match r {
            Some(s) => rfc3339_format_spec(ts) == Some(s@),
            None => rfc3339_format_spec(ts) is None,
        },
{
    let offset = chrono::FixedOffset::east_opt(ts.offset)?;
    Some(chrono::DateTime::from_timestamp(ts.secs, ts.nanos)?.with_timezone(&offset).to_rfc3339())
}

/// `DateTime::date_naive` of an instant at an offset. Trusted: the result is the named
/// date, which the instant and offset always have in this range. Instants near the ends
/// of `chrono`'s range, where it panics, are left out.
#[verifier::external_body]
pub(crate) fn local_date(secs: i64, offset: i32) -> (r: Option<CivilDate>)
    requires
        instant_in_range(secs as int),
        offset_in_range(offset as int),
    ensures
        r == local_date_spec(secs as int, offset as int),
        r is Some,
{
    let offset = chrono::FixedOffset::east_opt(offset)?;
    let d = chrono::DateTime::from_timestamp(secs, 0)?.with_timezone(&offset).date_naive();
    Some(CivilDate { year: d.year(), month: d.month(), day: d.day() })
}

/// `lunar_lite::solar_to_lunar`, `None` when the crate reports an error. Trusted: a lunar
/// date that comes back has the month in `1..=12` and the day in `1..=30`, as the crate's
/// `LunarDate` documents. Which lunar date a Gregorian date maps to is left unsaid: the
/// crate computes new moons in floating point, and nothing shows that the result is the
/// same on every machine.
#[verifier::external_body]
pub(crate) fn solar_to_lunar(date: CivilDate) -> (r: Option<LunarDate>)
    ensures
        r matches Some(l) ==> lunar_in_range(l),
{
    let solar = lunar_lite::SolarDate { year: date.year, month: date.month as u8, day: date.day as u8 };
    let l = lunar_lite::solar_to_lunar(solar).ok()?;
    Some(LunarDate { year: l.year, month: l.month, day: l.day, is_leap_month: l.is_leap_month })
}

} // verus!
