use lumiflow::exif::{
    clean_exif_string, decode_user_comment, decode_utf16, normalize_timezone, parse_inline_tags,
    parse_keywords, parse_xp_string, ExifData, ExifField, ExifTag, ExifValue, GpsRefs,
    ImageDimensions,
};
use lumiflow::scanner::manifest::{Album, Manifest, ManifestDiff};
use lumiflow::scanner::walk::{album_of_folder, latest_modification, newest_first};
use lumiflow::scanner::watcher::{
    albums_to_refresh, has_photo_changes, is_relevant_change, needs_refresh, path_names_photo,
    should_sync, watch_step, ChangeEvent, ChangeKind, WatchAction, WatchEvent, WatchPhase,
};
use lumiflow::timeline::calendar::Timestamp;
use lumiflow::timeline::models::{AnalysisDecision, TimeSource};
use lumiflow::timeline::scan::{
    analysis_from_exif, candidate, check_analysis_id, is_supported, make_scan_id, modified_ns,
    normalized_relative_path, photo_fingerprint, photo_id, should_descend, ModifiedTime,
    PathComponent, ScanReport,
};
use lumiflow::timeline::store::{
    album_type, analysis_decision, sqlite_size, stored_count, unsigned_u32, unsigned_u64,
};

fn at(secs: i64) -> Timestamp {
    Timestamp { secs, nanos: 0, offset: 0 }
}

fn sample_exif() -> ExifData {
    let mut exif = ExifData::new(100, "JPEG".into());
    exif.make = Some("Example".into());
    exif.model = Some("Camera".into());
    exif.lens = Some("Prime".into());
    exif.date_taken = Some("2024:02:10 09:13:00".into());
    exif.timezone = Some("+08:00".into());
    exif.dimensions = ImageDimensions { width: 10, height: 20 };
    exif
}

#[test]
fn exif_data_is_converted_to_timeline_analysis() {
    let analysis = analysis_from_exif("id", "photo.jpg".into(), at(0), &sample_exif(), "UTC");
    assert_eq!(analysis.taken_at.as_deref(), Some("2024-02-10T09:13:00+08:00"));
    assert_eq!(analysis.time_source, TimeSource::Exif);
    assert_eq!(analysis.width, 10);
    assert_eq!(analysis.height, 20);
    assert_eq!(analysis.camera_make.as_deref(), Some("Example"));
    assert_eq!(analysis.camera_model.as_deref(), Some("Camera"));
    assert_eq!(analysis.lens.as_deref(), Some("Prime"));
    assert_eq!(analysis.id, "id");
}

#[test]
fn analysis_without_dates_falls_back_to_mtime() {
    let exif = ExifData::new(1, "PNG".into());
    let analysis = analysis_from_exif("id", "photo.png".into(), at(86_400), &exif, "UTC");
    assert_eq!(analysis.taken_at.as_deref(), Some("1970-01-02T00:00:00+00:00"));
    assert_eq!(analysis.time_source, TimeSource::Mtime);
}

#[test]
fn supported_extensions_ignore_case() {
    assert!(is_supported("a/b/IMG_1.JPG"));
    assert!(is_supported("x.tif"));
    assert!(!is_supported("clip.mp4"));
    assert!(!is_supported("noext"));
}

#[test]
fn excludes_nas_metadata_and_recycle_directories() {
    assert!(should_descend(0, true, "@eaDir"));
    assert!(!should_descend(1, false, "@eaDir"));
    assert!(!should_descend(2, false, "#recycle"));
    assert!(should_descend(1, false, "Trips"));
}

#[test]
fn does_not_follow_symlink_directories() {
    assert!(!should_descend(1, true, "linked"));
    assert!(should_descend(0, true, "root"));
}

#[test]
fn relative_paths_join_normal_components() {
    let parts = vec![
        PathComponent::Normal(Some("2024".into())),
        PathComponent::Normal(Some("a.jpg".into())),
    ];
    assert_eq!(normalized_relative_path(&parts).expect("path"), "2024/a.jpg");
    assert_eq!(
        normalized_relative_path(&[PathComponent::Other]).unwrap_err(),
        "photo path contains a non-normal component"
    );
    assert_eq!(
        normalized_relative_path(&[PathComponent::Normal(None)]).unwrap_err(),
        "photo path is not valid UTF-8"
    );
    assert_eq!(normalized_relative_path(&[]).unwrap_err(), "photo relative path is empty");
}

#[test]
fn stable_ids_include_the_full_relative_path() {
    assert_eq!(photo_id("2024/a.jpg"), "e15902616555a3a4047e17eb15b2c017d9abbcdf");
    assert_ne!(photo_id("one/duplicate.jpg"), photo_id("two/duplicate.jpg"));
    assert_eq!(photo_fingerprint("2024/a.jpg", 12, -5), "37b3423f5055c697b374be53323d94e03929ccb4");
}

#[test]
fn changed_file_fingerprint_triggers_reanalysis() {
    let before = photo_fingerprint("2024/a.jpg", 12, 100);
    let after = photo_fingerprint("2024/a.jpg", 12, 101);
    assert_ne!(before, after);
    assert_eq!(analysis_decision(Some(before.as_str()), &before), AnalysisDecision::Reuse);
    assert_eq!(analysis_decision(Some(before.as_str()), &after), AnalysisDecision::Analyze);
    assert_eq!(analysis_decision(None, &after), AnalysisDecision::Analyze);
}

#[test]
fn candidates_carry_name_extension_and_fingerprint() {
    let c = candidate("2024/Trip/IMG_1.JPG", 12, 100, "scan-1").expect("candidate");
    assert_eq!(c.filename, "IMG_1.JPG");
    assert_eq!(c.extension, "jpg");
    assert_eq!(c.relative_path, "2024/Trip/IMG_1.JPG");
    assert_eq!(c.id, photo_id("2024/Trip/IMG_1.JPG"));
    assert_eq!(c.fingerprint, photo_fingerprint("2024/Trip/IMG_1.JPG", 12, 100));
    assert_eq!(c.scan_id, "scan-1");
    assert!(candidate("2024/README", 1, 1, "scan-1").is_err());
}

#[test]
fn modification_times_must_fit_and_follow_the_epoch() {
    assert_eq!(modified_ns(ModifiedTime::SinceEpochNanos(42)), Ok(42));
    assert!(modified_ns(ModifiedTime::BeforeEpoch).is_err());
    assert!(modified_ns(ModifiedTime::Unavailable).is_err());
    assert!(modified_ns(ModifiedTime::SinceEpochNanos(u128::MAX)).is_err());
}

#[test]
fn analyzer_ids_must_match_and_scan_ids_join_pid_and_time() {
    assert!(check_analysis_id("a", "a").is_ok());
    assert_eq!(
        check_analysis_id("a", "b").unwrap_err(),
        "analyzer returned mismatched photo id `a` for `b`"
    );
    assert_eq!(make_scan_id(42, 1_700_000_000_000_000_000), "42-1700000000000000000");
}

#[test]
fn scan_report_counts_each_decision() {
    let mut report = ScanReport::default();
    report.record(AnalysisDecision::Analyze);
    report.record(AnalysisDecision::Reuse);
    report.record(AnalysisDecision::Reuse);
    assert_eq!((report.found, report.analyzed, report.reused), (3, 1, 2));
}

#[test]
fn stored_integers_are_checked() {
    assert_eq!(sqlite_size(5), Ok(5));
    assert!(sqlite_size(u64::MAX).is_err());
    assert_eq!(unsigned_u32(-1), None);
    assert_eq!(unsigned_u32(7), Some(7));
    assert_eq!(unsigned_u64(-1), None);
    assert_eq!(unsigned_u64(7), Some(7));
    assert_eq!(stored_count(-3), None);
    assert_eq!(stored_count(3), Some(3));
    assert_eq!(album_type("unknown-date"), "unknown_date");
    assert_eq!(album_type("2024-01-01"), "auto_day");
}

#[test]
fn exif_strings_are_cleaned() {
    assert_eq!(clean_exif_string("  \"Canon\"  ").as_deref(), Some("Canon"));
    assert_eq!(clean_exif_string("\0\0Nikon\0").as_deref(), Some("Nikon"));
    assert_eq!(clean_exif_string("-"), None);
    assert_eq!(clean_exif_string("   "), None);
}

#[test]
fn exif_offsets_are_normalized() {
    assert_eq!(normalize_timezone("+08:00").as_deref(), Some("UTC+8"));
    assert_eq!(normalize_timezone("-05:30").as_deref(), Some("UTC-5:3"));
    assert_eq!(normalize_timezone("Z").as_deref(), Some("UTC"));
    assert_eq!(normalize_timezone("+00:00").as_deref(), Some("UTC"));
    assert_eq!(normalize_timezone("Asia/Tokyo").as_deref(), Some("Asia/Tokyo"));
    assert_eq!(normalize_timezone(""), None);
}

#[test]
fn exif_comments_and_windows_strings_are_decoded() {
    let mut ascii = b"ASCII\0\0\0".to_vec();
    ascii.extend_from_slice(b"hello ");
    assert_eq!(decode_user_comment(&ExifValue::Bytes(ascii)).as_deref(), Some("hello"));
    let mut unicode = b"UNICODE\0".to_vec();
    unicode.extend_from_slice(&[b'h', 0, b'i', 0]);
    assert_eq!(decode_user_comment(&ExifValue::Bytes(unicode)).as_deref(), Some("hi"));
    assert_eq!(decode_user_comment(&ExifValue::Short(vec![1])), None);

    assert_eq!(decode_utf16(&[b'a', 0, b'b', 0, 0, 0, b'c', 0]), "ab");
    assert_eq!(decode_utf16(&[0x1c, 0x4e, 0x2c, 0x4e]), "东丬");
    let xp = ExifValue::Bytes(vec![b'x', 0, b'p', 0]);
    assert_eq!(parse_xp_string(&xp).as_deref(), Some("xp"));
}

#[test]
fn inline_tags_split_on_separators_and_stop_at_twenty_four() {
    assert_eq!(parse_inline_tags("sea; sky,家，猫、#dog"), ["sea", "sky", "家", "猫", "dog"]);
    let many = (0..30).map(|i| format!("t{i}")).collect::<Vec<_>>().join(";");
    assert_eq!(parse_inline_tags(&many).len(), 24);
    let mut bytes = Vec::new();
    for unit in "a;b".encode_utf16() {
        bytes.extend_from_slice(&unit.to_le_bytes());
    }
    assert_eq!(parse_keywords(&ExifValue::Bytes(bytes)), ["a", "b"]);
}

#[test]
fn exif_fields_fill_the_record_and_finish_completes_it() {
    let mut data = ExifData::new(10, "JPEG".into());
    let mut refs = GpsRefs::default();
    let field = |tag, value, display: &str| ExifField { tag, value, display: display.into() };
    data.apply_field(&mut refs, &field(ExifTag::Make, ExifValue::Other, "\"Canon\""));
    data.apply_field(&mut refs, &field(ExifTag::IsoSpeed, ExifValue::Short(vec![200]), "200"));
    data.apply_field(&mut refs, &field(ExifTag::Flash, ExifValue::Short(vec![1]), "fired"));
    data.apply_field(&mut refs, &field(ExifTag::OffsetTime, ExifValue::Other, "+09:00"));
    data.apply_field(&mut refs, &field(ExifTag::OffsetTimeOriginal, ExifValue::Other, "+08:00"));
    data.apply_field(&mut refs, &field(ExifTag::ImageWidth, ExifValue::Long(vec![4000]), "4000"));
    data.apply_field(&mut refs, &field(ExifTag::GpsLatitudeRef, ExifValue::Other, "S"));
    data.apply_field(&mut refs, &field(ExifTag::ImageDescription, ExifValue::Other, "trip;beach"));
    assert_eq!(data.make.as_deref(), Some("Canon"));
    assert_eq!(data.iso, Some(200));
    assert_eq!(data.flash.as_deref(), Some("Fired"));
    assert_eq!(data.timezone.as_deref(), Some("UTC+8"));
    assert_eq!(data.dimensions.width, 4000);
    assert_eq!(refs.lat_ref.as_deref(), Some("S"));
    assert!(data.needs_dimensions());

    data.finish(Some(ImageDimensions { width: 3000, height: 2000 }));
    assert_eq!(data.dimensions, ImageDimensions { width: 3000, height: 2000 });
    assert_eq!(data.tags, ["trip", "beach"]);
    assert!(!data.needs_dimensions());
}

fn album(name: &str, updated: i64) -> Album {
    Album { name: name.into(), cover: "a.jpg".into(), count: 1, created_at: at(0), updated_at: at(updated) }
}

#[test]
fn manifest_diff_lists_added_and_removed_albums() {
    let old = Manifest { updated: at(0), albums: vec![album("A", 1), album("B", 1)] };
    let new = Manifest { updated: at(5), albums: vec![album("B", 2), album("C", 1), album("C", 1)] };
    let diff = new.diff(&old);
    assert_eq!(diff.new_albums, ["C"]);
    assert_eq!(diff.removed_albums, ["A"]);
    assert!(diff.has_changes());
    assert!(has_photo_changes(&old, &new));
    assert!(should_sync(&diff, &old, &new));

    let same = old.diff(&old);
    assert!(!same.has_changes());
    assert!(!should_sync(&same, &old, &old));
    assert!(needs_refresh(&old, &album("B", 2)));
    assert!(!needs_refresh(&old, &album("B", 1)));
    assert!(needs_refresh(&old, &album("Z", 1)));
    let empty = ManifestDiff { new_albums: vec![], removed_albums: vec![], new_photos: vec![], removed_photos: vec![] };
    assert!(!empty.has_changes());
}

#[test]
fn watcher_ignores_events_that_cannot_change_albums() {
    let event = |kind, paths: &[&str]| ChangeEvent { kind, paths: paths.iter().map(|p| p.to_string()).collect() };
    assert!(is_relevant_change(&event(ChangeKind::Created, &["a.txt"])));
    assert!(is_relevant_change(&event(ChangeKind::Removed, &[])));
    assert!(is_relevant_change(&event(ChangeKind::Metadata, &["x/a.txt", "x/B.HEIC"])));
    assert!(!is_relevant_change(&event(ChangeKind::Metadata, &["x/a.txt"])));
    assert!(!is_relevant_change(&event(ChangeKind::Other, &["x/a.jpg"])));
    assert!(path_names_photo("a/b.Tiff"));
    assert!(!path_names_photo("a/b"));
}

#[test]
fn folder_albums_take_their_first_photo_and_latest_time() {
    assert_eq!(latest_modification(&[], at(9)), at(9));
    assert_eq!(latest_modification(&[at(3), at(7), at(5)], at(9)), at(7));
    assert_eq!(newest_first(vec![at(3), at(7), at(5)]), [1, 2, 0]);
    assert!(album_of_folder("Trip", &[], at(1), at(2)).is_none());
}

#[test]
fn rescans_refresh_changed_albums_that_are_not_new() {
    let old = Manifest { updated: at(0), albums: vec![album("A", 1), album("B", 1)] };
    let new = Manifest { updated: at(5), albums: vec![album("A", 1), album("B", 2), album("C", 1)] };
    let diff = new.diff(&old);
    assert_eq!(albums_to_refresh(&diff, &old, &new), [1]);
    let forced = ManifestDiff { new_albums: vec![], removed_albums: vec![], new_photos: vec![], removed_photos: vec![] };
    assert_eq!(albums_to_refresh(&forced, &old, &new), [1, 2]);
}

#[test]
fn watcher_rescans_only_after_a_relevant_burst_settles() {
    let (p, a) = watch_step(WatchPhase::Waiting, WatchEvent::Change(false));
    assert_eq!((p, a), (WatchPhase::Probing, WatchAction::OpenProbeWindow));
    let (p, a) = watch_step(p, WatchEvent::Quiet);
    assert_eq!((p, a), (WatchPhase::Waiting, WatchAction::WaitForEvent));
    let (p, a) = watch_step(p, WatchEvent::Change(false));
    assert_eq!(a, WatchAction::OpenProbeWindow);
    let (p, a) = watch_step(p, WatchEvent::Change(true));
    assert_eq!((p, a), (WatchPhase::Debouncing, WatchAction::OpenDebounceWindow));
    let (p, a) = watch_step(p, WatchEvent::Change(false));
    assert_eq!((p, a), (WatchPhase::Debouncing, WatchAction::KeepWindow));
    let (p, a) = watch_step(p, WatchEvent::Quiet);
    assert_eq!((p, a), (WatchPhase::Waiting, WatchAction::Rescan));
    assert_eq!(watch_step(WatchPhase::Debouncing, WatchEvent::Closed), (WatchPhase::Stopped, WatchAction::RescanThenStop));
    assert_eq!(watch_step(p, WatchEvent::Closed), (WatchPhase::Stopped, WatchAction::Stop));
}

#[test]
fn candidate_upsert_analyzes_then_reuses_unchanged_fingerprint() {
    assert_eq!(analysis_decision(None, "fp-1"), AnalysisDecision::Analyze);
    assert_eq!(analysis_decision(Some("fp-1"), "fp-1"), AnalysisDecision::Reuse);
}

#[test]
fn changed_fingerprint_requires_analysis() {
    assert_eq!(analysis_decision(Some("fp-1"), "fp-2"), AnalysisDecision::Analyze);
}

#[test]
fn unchanged_second_scan_reuses_database_analysis() {
    let first = candidate("2024/a.jpg", 3, 1_700_000_000_000_000_000, "scan-1").expect("first");
    let second = candidate("2024/a.jpg", 3, 1_700_000_000_000_000_000, "scan-2").expect("second");
    assert_eq!(first.id, second.id);
    assert_eq!(
        analysis_decision(Some(first.fingerprint.as_str()), &second.fingerprint),
        AnalysisDecision::Reuse
    );
}

#[test]
fn recursively_finds_nested_supported_photos() {
    let nested = [
        PathComponent::Normal(Some("2024".into())),
        PathComponent::Normal(Some("Trip".into())),
        PathComponent::Normal(Some("deep".into())),
        PathComponent::Normal(Some("IMG_1.HEIC".into())),
    ];
    assert_eq!(normalized_relative_path(&nested).expect("path"), "2024/Trip/deep/IMG_1.HEIC");
    assert!(is_supported("2024/Trip/deep/IMG_1.HEIC"));
    assert!(should_descend(3, false, "deep"));
    assert!(!is_supported("2024/Trip/notes.txt"));
}

#[test]
fn replacing_daily_albums_rejects_counts_that_disagree_with_memberships() {
    let album = lumiflow::timeline::models::TimelineAlbum {
        id: "auto-day:2024-02-10".into(),
        name: "2024.02.10".into(),
        description: None,
        date_start: None,
        date_end: None,
        place: None,
        holiday: None,
        photo_count: 2,
        cover_photo_id: None,
    };
    let good = lumiflow::timeline::models::DailyAlbumBuild {
        album: album.clone(),
        photo_ids: vec!["late".into(), "early".into()],
    };
    assert!(lumiflow::timeline::store::check_album_count(&good).is_ok());
    let bad = lumiflow::timeline::models::DailyAlbumBuild { album, photo_ids: vec!["late".into()] };
    assert_eq!(
        lumiflow::timeline::store::check_album_count(&bad).unwrap_err(),
        "album `auto-day:2024-02-10` declares 2 photos but has 1 memberships"
    );
}
