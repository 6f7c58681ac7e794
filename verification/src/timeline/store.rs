//! The decisions of the timeline store around its SQL: when a photo is analysed again,
//! how albums are typed and checked before they are written, and which stored integers
//! convert back.
use crate::digest::{decimal_spec, decimal_usize};
use crate::text::{chars_eq, chars_of, eq_str, push_str};
use crate::timeline::models::{AnalysisDecision, DailyAlbumBuild};
use vstd::prelude::*;

verus! {

/// A photo whose stored fingerprint equals its current one is reused; any other,
/// including one not stored yet, is analysed.
pub fn analysis_decision(existing_fingerprint: Option<&str>, fingerprint: &str) -> (d: AnalysisDecision)
    ensures
        d == (if existing_fingerprint matches Some(f) && f@ == fingerprint@ {
            AnalysisDecision::Reuse
        } else {
            AnalysisDecision::Analyze
        }),
{
    match existing_fingerprint {
        Some(f) => {
            let a = chars_of(f);
            let b = chars_of(fingerprint);
            if chars_eq(a.as_slice(), b.as_slice()) {
                AnalysisDecision::Reuse
            } else {
                AnalysisDecision::Analyze
            }
        },
        None => AnalysisDecision::Analyze,
    }
}

/// A size as SQLite stores it, a signed 64-bit integer.
pub fn sqlite_size(size_bytes: u64) -> (r: Result<i64, String>)
    ensures
        size_bytes <= i64::MAX ==> r == Ok::<i64, String>(size_bytes as i64),
        size_bytes > i64::MAX ==> (r matches Err(e) && e@ == "photo size exceeds SQLite"@),
{
    if size_bytes <= i64::MAX as u64 {
        Ok(size_bytes as i64)
    } else {
        Err("photo size exceeds SQLite".to_owned())
    }
}

/// A stored integer as a `u32`, if it is one.
pub fn unsigned_u32(value: i64) -> (r: Option<u32>)
    ensures
        0 <= value <= u32::MAX ==> r == Some(value as u32),
        !(0 <= value <= u32::MAX) ==> r is None,
{
    if 0 <= value && value <= u32::MAX as i64 {
        Some(value as u32)
    } else {
        None
    }
}

/// A stored integer as a `u64`, if it is one.
pub fn unsigned_u64(value: i64) -> (r: Option<u64>)
    ensures
        value >= 0 ==> r == Some(value as u64),
        value < 0 ==> r is None,
{
    if value >= 0 {
        Some(value as u64)
    } else {
        None
    }
}

/// A stored count as a `usize`, if it is one.
pub fn stored_count(value: i64) -> (r: Option<usize>)
    ensures
        0 <= value <= usize::MAX ==> r == Some(value as usize),
        !(0 <= value <= usize::MAX) ==> r is None,
{
    if value < 0 {
        None
    } else if value as u64 > usize::MAX as u64 {
        None
    } else {
        Some(value as usize)
    }
}

/// How an album is typed in the store: the album of undated photos, or a day.
pub fn album_type(album_id: &str) -> (r: &'static str)
    ensures
        album_id@ == "unknown-date"@ ==> r@ == "unknown_date"@,
        album_id@ != "unknown-date"@ ==> r@ == "auto_day"@,
{
    let a = chars_of(album_id);
    if eq_str(a.as_slice(), "unknown-date") {
        "unknown_date"
    } else {
        "auto_day"
    }
}

/// An album is written only when its count equals its memberships.
pub fn check_album_count(build: &DailyAlbumBuild) -> (r: Result<(), String>)
    ensures
        r is Ok <==> build.album.photo_count == build.photo_ids@.len(),
        r matches Err(e) ==> e@ == "album `"@ + build.album.id@ + "` declares "@ + decimal_spec(build.album.photo_count as nat)
            + " photos but has "@ + decimal_spec(build.photo_ids@.len()) + " memberships"@,
{
    if build.album.photo_count == build.photo_ids.len() {
        return Ok(());
    }
    let mut e = "album `".to_owned();
    push_str(&mut e, build.album.id.as_str());
    push_str(&mut e, "` declares ");
    let a = decimal_usize(build.album.photo_count);
    push_str(&mut e, a.as_str());
    push_str(&mut e, " photos but has ");
    let b = decimal_usize(build.photo_ids.len());
    push_str(&mut e, b.as_str());
    push_str(&mut e, " memberships");
    Err(e)
}

} // verus!
