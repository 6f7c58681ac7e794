//! Values shared by the timeline's scanner, album builder and store.
use crate::text::{chars_of, eq_str};
use crate::timeline::calendar::CivilDate;
use vstd::prelude::*;

verus! {

/// Where a photo's capture time came from.
#[derive(Debug, Clone, Copy, PartialEq, Eq, Structural)]
pub enum TimeSource {
    Exif,
    Filename,
    Mtime,
    Unknown,
}

/// The name under which a time source is stored.
pub open spec fn time_source_name(source: TimeSource) -> Seq<char> {
    match source {
        TimeSource::Exif => "exif"@,
        TimeSource::Filename => "filename"@,
        TimeSource::Mtime => "mtime"@,
        TimeSource::Unknown => "unknown"@,
    }
}

/// The time source stored under a name, if any.
pub open spec fn time_source_from_name(name: Seq<char>) -> Option<TimeSource> {
    if name == "exif"@ {
        Some(TimeSource::Exif)
    } else if name == "filename"@ {
        Some(TimeSource::Filename)
    } else if name == "mtime"@ {
        Some(TimeSource::Mtime)
    } else if name == "unknown"@ {
        Some(TimeSource::Unknown)
    } else {
        None
    }
}

impl TimeSource {
    /// The name under which the source is stored.
    pub fn as_str(self) -> (r: &'static str)
        ensures
            r@ == time_source_name(self),
    {
        match self {
            TimeSource::Exif => "exif",
            TimeSource::Filename => "filename",
            TimeSource::Mtime => "mtime",
            TimeSource::Unknown => "unknown",
        }
    }

    /// Reads a stored name back; `None` for a name no source has.
    pub fn from_db(value: &str) -> (r: Option<TimeSource>)
        ensures
            r == time_source_from_name(value@),
    {
        let v = chars_of(value);
        if eq_str(&v, "exif") {
            Some(TimeSource::Exif)
        } else if eq_str(&v, "filename") {
            Some(TimeSource::Filename)
        } else if eq_str(&v, "mtime") {
            Some(TimeSource::Mtime)
        } else if eq_str(&v, "unknown") {
            Some(TimeSource::Unknown)
        } else {
            None
        }
    }
}

/// Every source reads back from the name it is stored under.
pub proof fn lemma_time_source_round_trip(source: TimeSource)
    ensures
        time_source_from_name(time_source_name(source)) == Some(source),
{
    reveal_strlit("exif");
    reveal_strlit("filename");
    reveal_strlit("mtime");
    reveal_strlit("unknown");
    assert("exif"@.len() == 4);
    assert("filename"@.len() == 8);
    assert("mtime"@.len() == 5);
    assert("unknown"@.len() == 7);
}

/// Whether a photo is analysed afresh or its stored analysis is kept.
#[derive(Debug, Clone, Copy, PartialEq, Eq, Structural)]
pub enum AnalysisDecision {
    Analyze,
    Reuse,
}

/// A photo found under the library root, before it is analysed.
#[derive(Debug, Clone, PartialEq, Eq)]
pub struct PhotoCandidate {
    pub id: String,
    pub relative_path: String,
    pub filename: String,
    pub extension: String,
    pub size_bytes: u64,
    pub mtime_ns: i64,
    pub fingerprint: String,
    pub scan_id: String,
}

/// What analysing a photo found. Its GPS position and full EXIF record, which hold
/// floating-point numbers and JSON, are kept outside the library.
#[derive(Debug, Clone, PartialEq, Eq)]
pub struct PhotoAnalysis {
    pub id: String,
    pub taken_at: Option<String>,
    pub time_source: TimeSource,
    pub timezone: Option<String>,
    pub width: u32,
    pub height: u32,
    pub camera_make: Option<String>,
    pub camera_model: Option<String>,
    pub lens: Option<String>,
}

/// A photo on the timeline. Its GPS position is held as the bucket (`"lat,lon"` at three
/// decimals) that places are looked up by; `None` when it has no usable position.
#[derive(Debug, Clone, PartialEq, Eq)]
pub struct TimelinePhoto {
    pub id: String,
    pub relative_path: String,
    pub name: String,
    pub width: u32,
    pub height: u32,
    pub size_bytes: u64,
    pub mtime_ns: i64,
    pub format: String,
    pub taken_at: Option<String>,
    pub time_source: TimeSource,
    pub fingerprint: String,
    pub gps_bucket: Option<String>,
}

/// An album of the timeline.
#[derive(Debug, Clone, PartialEq, Eq)]
pub struct TimelineAlbum {
    pub id: String,
    pub name: String,
    pub description: Option<String>,
    pub date_start: Option<CivilDate>,
    pub date_end: Option<CivilDate>,
    pub place: Option<String>,
    pub holiday: Option<String>,
    pub photo_count: usize,
    pub cover_photo_id: Option<String>,
}

/// An album and its photos, in order.
#[derive(Debug, Clone, PartialEq, Eq)]
pub struct TimelineAlbumDetail {
    pub album: TimelineAlbum,
    pub photos: Vec<TimelinePhoto>,
}

/// A daily album as the builder produces it: the album and the ids of its photos.
#[derive(Debug, Clone, PartialEq, Eq)]
pub struct DailyAlbumBuild {
    pub album: TimelineAlbum,
    pub photo_ids: Vec<String>,
}

} // verus!
