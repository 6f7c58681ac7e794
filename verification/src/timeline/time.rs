//! When a photo was taken: from EXIF, else from a camera-style file name, else from the
//! file's modification time.
use crate::pattern::{regex_captures, regex_captures_spec};
use crate::digest::digit_char;
use crate::text::{all_ascii, concat, lemma_encode_ascii};
use crate::timeline::calendar::{
    fixed_local, fixed_local_spec, instant_in_range, local_date, local_date_spec, naive_parse,
    naive_parse_spec, offset_in_range, tz_local_mapping, tz_local_mapping_spec, tz_offset_at,
    tz_offset_spec, tz_valid_spec, CivilDate, LocalDateTime, LocalMapping, Timestamp,
};
use crate::timeline::models::TimeSource;
use vstd::prelude::*;
use vstd::string::StringSliceAdditionalSpecFns;
use vstd::utf8::{encode_utf8, is_char_boundary};

verus! {

/// What the resolver reads of a photo. `mtime` is an instant at UTC; its offset is not read.
#[derive(Debug, Clone, PartialEq, Eq)]
pub struct TimeInput {
    pub exif_datetime: Option<String>,
    pub exif_offset: Option<String>,
    pub filename: String,
    pub mtime: Timestamp,
}

/// A capture time and where it came from.
#[derive(Debug, Clone, Copy, PartialEq, Eq, Structural)]
pub struct ResolvedTime {
    pub timestamp: Timestamp,
    pub source: TimeSource,
}

/// The layout of EXIF `DateTimeOriginal`.
pub open spec fn exif_format() -> Seq<char> {
    "%Y:%m:%d %H:%M:%S"@
}

/// File names such as `IMG_20240102_153012.jpg`.
pub open spec fn img_pattern() -> Seq<char> {
    "^IMG_(\\d{8})_(\\d{6})\\.[^.]+$"@
}

/// File names such as `Screenshot_2024-01-03-16-31-13.png`.
pub open spec fn screenshot_pattern() -> Seq<char> {
    "^Screenshot_(\\d{4}-\\d{2}-\\d{2})-(\\d{2}-\\d{2}-\\d{2})\\.[^.]+$"@
}

pub open spec fn is_ascii_digit(b: u8) -> bool {
    48 <= b <= 57
}

/// `i32::from_str` on a string of two bytes.
pub open spec fn parse_two_spec(b0: u8, b1: u8) -> Option<int> {
    if is_ascii_digit(b0) && is_ascii_digit(b1) {
        Some(10 * (b0 - 48) + (b1 - 48))
    } else if b0 == 43 && is_ascii_digit(b1) {
        Some(b1 - 48)
    } else if b0 == 45 && is_ascii_digit(b1) {
        Some(-(b1 - 48))
    } else {
        None
    }
}

/// A UTC offset written `+HH:MM` or `-HH:MM`, in seconds east of UTC. Each two-byte field
/// is read as a signed number, so `+-5:00` is five hours west.
pub open spec fn parse_offset_spec(b: Seq<u8>) -> Option<int> {
    if b.len() != 6 || b[3] != 58 {
        None
    } else if b[0] != 43 && b[0] != 45 {
        None
    } else {
        match (parse_two_spec(b[1], b[2]), parse_two_spec(b[4], b[5])) {
            (Some(h), Some(m)) => if h > 23 || m > 59 {
                None
            } else if b[0] == 43 {
                Some(h * 3600 + m * 60)
            } else {
                Some(-(h * 3600 + m * 60))
            },
            _ => None,
        }
    }
}

/// The offset text can be cut where the reader cuts it: a six-byte text is cut after its
/// third and fourth bytes, and, when its fourth byte is `:`, after its first.
pub open spec fn offset_text_cuttable(b: Seq<u8>) -> bool {
    b.len() == 6 ==> {
        &&& is_char_boundary(b, 3)
        &&& is_char_boundary(b, 4)
        &&& (b[3] == 58 ==> is_char_boundary(b, 1))
    }
}

/// A wall-clock time in a zone: the single instant, the earlier of two, or none in a gap.
pub open spec fn localize_spec(local: LocalDateTime, tz: Seq<char>) -> Option<Timestamp> {
    match tz_local_mapping_spec(tz, local) {
        LocalMapping::Single(t) => Some(t),
        LocalMapping::Ambiguous(t, _) => Some(t),
        LocalMapping::Nonexistent => None,
    }
}

/// An EXIF wall-clock time at its recorded offset, or in the zone when no usable offset
/// is recorded.
pub open spec fn resolve_exif_spec(local: LocalDateTime, offset: Option<Seq<char>>, tz: Seq<char>) -> Option<Timestamp> {
    match offset {
        Some(o) => match parse_offset_spec(encode_utf8(o)) {
            Some(secs) => fixed_local_spec(local, secs),
            None => localize_spec(local, tz),
        },
        None => localize_spec(local, tz),
    }
}

/// The wall-clock time a camera-style file name records.
pub open spec fn filename_datetime_spec(name: Seq<char>) -> Option<LocalDateTime> {
    match regex_captures_spec(img_pattern(), name) {
        Some(g) => if g.len() > 2 && g[1] is Some && g[2] is Some {
            naive_parse_spec(g[1]->0 + g[2]->0, "%Y%m%d%H%M%S"@)
        } else {
            None
        },
        None => match regex_captures_spec(screenshot_pattern(), name) {
            Some(g) => if g.len() > 2 && g[1] is Some && g[2] is Some {
                naive_parse_spec(g[1]->0 + "-"@ + g[2]->0, "%Y-%m-%d-%H-%M-%S"@)
            } else {
                None
            },
            None => None,
        },
    }
}

/// The instant the EXIF fields give, if they give one.
pub open spec fn exif_time_spec(input: TimeInput, tz: Seq<char>) -> Option<Timestamp> {
    match input.exif_datetime {
        Some(dt) => match naive_parse_spec(dt@, exif_format()) {
            Some(local) => resolve_exif_spec(
                local,
                match input.exif_offset {
                    Some(o) => Some(o@),
                    None => None,
                },
                tz,
            ),
            None => None,
        },
        None => None,
    }
}

/// The instant the file name gives, if it gives one.
pub open spec fn filename_time_spec(input: TimeInput, tz: Seq<char>) -> Option<Timestamp> {
    match filename_datetime_spec(input.filename@) {
        Some(local) => localize_spec(local, tz),
        None => None,
    }
}

/// The modification time shown in the zone.
pub open spec fn mtime_time_spec(input: TimeInput, tz: Seq<char>) -> Option<Timestamp> {
    match tz_offset_spec(tz, input.mtime.secs as int) {
        Some(o) => Some(Timestamp { secs: input.mtime.secs, nanos: input.mtime.nanos, offset: o }),
        None => None,
    }
}

/// EXIF first, then the file name, then the modification time.
pub open spec fn resolve_taken_at_spec(input: TimeInput, tz: Seq<char>) -> Option<ResolvedTime> {
    match exif_time_spec(input, tz) {
        Some(t) => Some(ResolvedTime { timestamp: t, source: TimeSource::Exif }),
        None => match filename_time_spec(input, tz) {
            Some(t) => Some(ResolvedTime { timestamp: t, source: TimeSource::Filename }),
            None => match mtime_time_spec(input, tz) {
                Some(t) => Some(ResolvedTime { timestamp: t, source: TimeSource::Mtime }),
                None => None,
            },
        },
    }
}

/// The text `±HH:MM` of a sign and two-digit hours and minutes.
pub open spec fn signed_hhmm_text(sign: char, hours: int, minutes: int) -> Seq<char> {
    seq![
        sign,
        digit_char(hours / 10),
        digit_char(hours % 10),
        ':',
        digit_char(minutes / 10),
        digit_char(minutes % 10),
    ]
}

/// An offset written `+HH:MM` is `HH` hours and `MM` minutes east of UTC, and one
/// written `-HH:MM` is as far west: the parsed offset is `±(HH · 3600 + MM · 60)`
/// seconds, so the two signs give opposite offsets.
pub proof fn lemma_offset_sign_and_magnitude(hours: int, minutes: int)
    requires
        0 <= hours <= 23,
        0 <= minutes <= 59,
    ensures
        parse_offset_spec(encode_utf8(signed_hhmm_text('+', hours, minutes))) == Some(hours * 3600 + minutes * 60),
        parse_offset_spec(encode_utf8(signed_hhmm_text('-', hours, minutes))) == Some(-(hours * 3600 + minutes * 60)),
{
    let plus = signed_hhmm_text('+', hours, minutes);
    let minus = signed_hhmm_text('-', hours, minutes);
    assert(all_ascii(plus));
    assert(all_ascii(minus));
    lemma_encode_ascii(plus);
    lemma_encode_ascii(minus);
    let bp = encode_utf8(plus);
    let bm = encode_utf8(minus);
    assert(bp[0] == 43 && bp[1] == 48 + hours / 10 && bp[2] == 48 + hours % 10 && bp[3] == 58);
    assert(bp[4] == 48 + minutes / 10 && bp[5] == 48 + minutes % 10);
    assert(bm[0] == 45 && bm[1] == bp[1] && bm[2] == bp[2] && bm[3] == 58 && bm[4] == bp[4] && bm[5] == bp[5]);
}

/// Swapping the sign of an offset text negates the parsed offset: for any six bytes
/// `±HH:MM`, the `-` form parses exactly when the `+` form does, to its opposite.
pub proof fn lemma_offset_sign_negates(b: Seq<u8>)
    requires
        b.len() == 6,
        b[0] == 43,
    ensures
        parse_offset_spec(b.update(0, 45)) == match parse_offset_spec(b) {
            Some(secs) => Some(-secs),
            None => None::<int>,
        },
{
    let m = b.update(0, 45);
    assert(m[1] == b[1] && m[2] == b[2] && m[3] == b[3] && m[4] == b[4] && m[5] == b[5]);
}

/// Whether the recorded offset, if any, can be read without cutting a character apart.
pub open spec fn offset_readable(input: TimeInput) -> bool {
    input.exif_offset matches Some(o) ==> offset_text_cuttable(encode_utf8(o@))
}

fn parse_two(b0: u8, b1: u8) -> (r: Option<i32>)
    ensures
        r matches Some(v) ==> parse_two_spec(b0, b1) == Some(v as int),
        r is None ==> parse_two_spec(b0, b1) is None,
{
    let d0 = 48 <= b0 && b0 <= 57;
    let d1 = 48 <= b1 && b1 <= 57;
    if d0 && d1 {
        Some(10 * (b0 as i32 - 48) + (b1 as i32 - 48))
    } else if b0 == 43 && d1 {
        Some(b1 as i32 - 48)
    } else if b0 == 45 && d1 {
        Some(-(b1 as i32 - 48))
    } else {
        None
    }
}

/// Whether `value` can be cut where [`parse_offset`] cuts it.
pub fn offset_is_cuttable(value: &str) -> (ok: bool)
    ensures
        ok == offset_text_cuttable(encode_utf8(value@)),
{
    assert(value.spec_bytes() == encode_utf8(value@));
    let b = value.as_bytes();
    if b.len() != 6 {
        return true;
    }
    if !value.is_char_boundary(3) || !value.is_char_boundary(4) {
        return false;
    }
    b[3] != 58 || value.is_char_boundary(1)
}

/// Reads a `+HH:MM` / `-HH:MM` offset, in seconds east of UTC.
pub fn parse_offset(value: &str) -> (r: Option<i32>)
    requires
        offset_text_cuttable(encode_utf8(value@)),
    ensures
        r matches Some(v) ==> parse_offset_spec(encode_utf8(value@)) == Some(v as int),
        r is None ==> parse_offset_spec(encode_utf8(value@)) is None,
        r matches Some(v) ==> offset_in_range(v as int),
{
    assert(value.spec_bytes() == encode_utf8(value@));
    let b = value.as_bytes();
    if b.len() != 6 || b[3] != 58 {
        return None;
    }
    if b[0] != 43 && b[0] != 45 {
        return None;
    }
    let hours = match parse_two(b[1], b[2]) {
        Some(h) => h,
        None => return None,
    };
    let minutes = match parse_two(b[4], b[5]) {
        Some(m) => m,
        None => return None,
    };
    if hours > 23 || minutes > 59 {
        return None;
    }
    let secs = hours * 3600 + minutes * 60;
    if b[0] == 43 {
        Some(secs)
    } else {
        Some(-secs)
    }
}

/// Reads an EXIF `DateTimeOriginal` value.
pub fn parse_exif_datetime(value: &str) -> (r: Option<LocalDateTime>)
    ensures
        r == naive_parse_spec(value@, exif_format()),
{
    naive_parse(value, "%Y:%m:%d %H:%M:%S")
}

/// Reads the wall-clock time from `IMG_YYYYMMDD_HHMMSS.ext` or
/// `Screenshot_YYYY-MM-DD-HH-MM-SS.ext`; both patterns span the whole name.
pub fn parse_filename_datetime(filename: &str) -> (r: Option<LocalDateTime>)
    ensures
        r == filename_datetime_spec(filename@),
{
    if let Some(g) = regex_captures("^IMG_(\\d{8})_(\\d{6})\\.[^.]+$", filename) {
        if g.len() > 2 {
            if let (Some(date), Some(time)) = (&g[1], &g[2]) {
                let value = concat(date.as_str(), time.as_str());
                return naive_parse(value.as_str(), "%Y%m%d%H%M%S");
            }
        }
        return None;
    }
    match regex_captures("^Screenshot_(\\d{4}-\\d{2}-\\d{2})-(\\d{2}-\\d{2}-\\d{2})\\.[^.]+$", filename) {
        Some(g) => {
            if g.len() > 2 {
                if let (Some(date), Some(time)) = (&g[1], &g[2]) {
                    let head = concat(date.as_str(), "-");
                    let value = concat(head.as_str(), time.as_str());
                    return naive_parse(value.as_str(), "%Y-%m-%d-%H-%M-%S");
                }
            }
            None
        },
        None => None,
    }
}

/// The instant a wall-clock time denotes in the zone; the earlier one where the clock is
/// set back, none where it skips ahead.
pub fn localize(local: LocalDateTime, tz: &str) -> (r: Option<Timestamp>)
    ensures
        r == localize_spec(local, tz@),
        r matches Some(t) ==> t.secs == local.secs - t.offset && t.nanos == local.nanos,
{
    match tz_local_mapping(tz, local) {
        LocalMapping::Single(t) => Some(t),
        LocalMapping::Ambiguous(first, _) => Some(first),
        LocalMapping::Nonexistent => None,
    }
}

/// An EXIF wall-clock time at its recorded offset, or in the zone when no usable offset
/// is recorded.
pub fn resolve_exif(local: LocalDateTime, offset: Option<&str>, tz: &str) -> (r: Option<Timestamp>)
    requires
        offset matches Some(o) ==> offset_text_cuttable(encode_utf8(o@)),
    ensures
        r == resolve_exif_spec(
            local,
            match offset {
                Some(o) => Some(o@),
                None => None,
            },
            tz@,
        ),
{
    match offset {
        Some(o) => match parse_offset(o) {
            Some(secs) => fixed_local(local, secs),
            None => localize(local, tz),
        },
        None => localize(local, tz),
    }
}

/// When a photo was taken, in the zone named `tz`: the EXIF time if it reads and maps to
/// an instant, else the time in a camera-style file name, else the modification time.
pub fn resolve_taken_at(input: &TimeInput, tz: &str) -> (r: Option<ResolvedTime>)
    requires
        offset_readable(*input),
    ensures
        r == resolve_taken_at_spec(*input, tz@),
        tz_valid_spec(tz@) && instant_in_range(input.mtime.secs as int) ==> r is Some,
{
    if let Some(dt) = &input.exif_datetime {
        if let Some(local) = parse_exif_datetime(dt.as_str()) {
            let offset = match &input.exif_offset {
                Some(o) => Some(o.as_str()),
                None => None,
            };
            if let Some(t) = resolve_exif(local, offset, tz) {
                return Some(ResolvedTime { timestamp: t, source: TimeSource::Exif });
            }
        }
    }
    if let Some(local) = parse_filename_datetime(input.filename.as_str()) {
        if let Some(t) = localize(local, tz) {
            return Some(ResolvedTime { timestamp: t, source: TimeSource::Filename });
        }
    }
    match tz_offset_at(tz, input.mtime.secs) {
        Some(o) => Some(
            ResolvedTime {
                timestamp: Timestamp { secs: input.mtime.secs, nanos: input.mtime.nanos, offset: o },
                source: TimeSource::Mtime,
            },
        ),
        None => None,
    }
}

/// The calendar day an instant shows in the zone.
pub open spec fn local_day_spec(secs: int, tz: Seq<char>) -> Option<CivilDate> {
    match tz_offset_spec(tz, secs) {
        Some(o) => local_date_spec(secs, o as int),
        None => None,
    }
}

/// The calendar day an instant falls on in the zone named `tz`; `None` only when the zone
/// is unknown.
pub fn local_day(timestamp: Timestamp, tz: &str) -> (r: Option<CivilDate>)
    requires
        instant_in_range(timestamp.secs as int),
    ensures
        r == local_day_spec(timestamp.secs as int, tz@),
        tz_valid_spec(tz@) ==> r is Some,
{
    match tz_offset_at(tz, timestamp.secs) {
        Some(o) => local_date(timestamp.secs, o),
        None => None,
    }
}


/// The configured time zone: accepted when `chrono-tz` knows it, else
/// ``invalid timeline timezone `NAME` ``.
pub fn check_timezone(name: &str) -> (r: Result<(), String>)
    ensures
        r is Ok <==> tz_valid_spec(name@),
        r matches Err(e) ==> e@ == "invalid timeline timezone `"@ + name@ + "`"@,
{
    if crate::timeline::calendar::tz_is_valid(name) {
        Ok(())
    } else {
        let mut e = "invalid timeline timezone `".to_owned();
        crate::text::push_str(&mut e, name);
        crate::text::push_str(&mut e, "`");
        Err(e)
    }
}

} // verus!
