use lumiflow::timeline::albums::{build_daily_albums, format_album_name, PlaceResolver};
use lumiflow::timeline::calendar::{CivilDate, Timestamp};
use lumiflow::timeline::contact_sheet::representative_indices;
use lumiflow::timeline::holidays::holiday_for;
use lumiflow::timeline::models::{TimeSource, TimelinePhoto};
use lumiflow::timeline::status::{should_run_periodic_timeline_rescan, ScanState};
use lumiflow::timeline::time::{local_day, resolve_taken_at, TimeInput};

fn utc(value: &str) -> Timestamp {
    let t = chrono::DateTime::parse_from_rfc3339(value).expect("valid test timestamp");
    Timestamp { secs: t.timestamp(), nanos: t.timestamp_subsec_nanos(), offset: 0 }
}

fn date(year: i32, month: u32, day: u32) -> CivilDate {
    CivilDate { year, month, day }
}

fn rfc(t: Timestamp) -> String {
    t.to_rfc3339().expect("formattable timestamp")
}

#[test]
fn periodic_timeline_rescan_only_runs_from_ready_state() {
    assert!(!should_run_periodic_timeline_rescan(ScanState::Starting));
    assert!(!should_run_periodic_timeline_rescan(ScanState::Scanning));
    assert!(!should_run_periodic_timeline_rescan(ScanState::Error));
    assert!(should_run_periodic_timeline_rescan(ScanState::Ready));
}

#[test]
fn representative_indices_respects_requested_count_and_endpoints() {
    assert_eq!(representative_indices(0, 4), Vec::<usize>::new());
    assert_eq!(representative_indices(4, 0), Vec::<usize>::new());
    assert_eq!(representative_indices(1, 4), vec![0]);
    assert_eq!(representative_indices(4, 8), vec![0, 1, 2, 3]);

    let sampled = representative_indices(17, 6);
    assert_eq!(sampled.len(), 6);
    assert_eq!(sampled.first(), Some(&0));
    assert_eq!(sampled.last(), Some(&16));
}

#[test]
fn representative_indices_supports_maximum_collection_size() {
    assert_eq!(
        representative_indices(usize::MAX, 3),
        vec![0, usize::MAX / 2, usize::MAX - 1]
    );
}

#[test]
fn representative_indices_are_strictly_ordered() {
    for count in 1..40 {
        for max_count in 1..40 {
            let sampled = representative_indices(count, max_count);
            assert!(
                sampled.windows(2).all(|pair| pair[0] < pair[1]),
                "indices must increase for count={count}, max_count={max_count}: {sampled:?}"
            );
        }
    }
}

#[test]
fn exif_timestamp_and_offset_beat_filename_and_mtime() {
    let input = TimeInput {
        exif_datetime: Some("2024:02:10 09:13:00".into()),
        exif_offset: Some("+09:00".into()),
        filename: "IMG_20240101_120000.jpg".into(),
        mtime: utc("2023-12-01T00:00:00Z"),
    };

    let resolved = resolve_taken_at(&input, "Asia/Shanghai").unwrap();

    assert_eq!(resolved.source, TimeSource::Exif);
    assert_eq!(rfc(resolved.timestamp), "2024-02-10T09:13:00+09:00");
}

#[test]
fn exif_without_offset_uses_configured_timezone() {
    let input = TimeInput {
        exif_datetime: Some("2024:02:10 09:13:00".into()),
        exif_offset: None,
        filename: "IMG_20240101_120000.jpg".into(),
        mtime: utc("2023-12-01T00:00:00Z"),
    };

    let resolved = resolve_taken_at(&input, "Asia/Shanghai").unwrap();

    assert_eq!(resolved.source, TimeSource::Exif);
    assert_eq!(rfc(resolved.timestamp), "2024-02-10T09:13:00+08:00");
}

#[test]
fn exif_with_unreadable_offset_uses_configured_timezone() {
    let input = TimeInput {
        exif_datetime: Some("2024:02:10 09:13:00".into()),
        exif_offset: Some("UTC+8".into()),
        filename: "vacation.jpg".into(),
        mtime: utc("2023-12-01T00:00:00Z"),
    };

    let resolved = resolve_taken_at(&input, "Asia/Shanghai").unwrap();

    assert_eq!(resolved.source, TimeSource::Exif);
    assert_eq!(rfc(resolved.timestamp), "2024-02-10T09:13:00+08:00");
}

#[test]
fn img_filename_timestamp_beats_mtime() {
    let input = TimeInput {
        exif_datetime: None,
        exif_offset: None,
        filename: "IMG_20240102_153012.jpg".into(),
        mtime: utc("2023-12-01T00:00:00Z"),
    };

    let resolved = resolve_taken_at(&input, "Asia/Shanghai").unwrap();

    assert_eq!(resolved.source, TimeSource::Filename);
    assert_eq!(rfc(resolved.timestamp), "2024-01-02T15:30:12+08:00");
}

#[test]
fn screenshot_filename_timestamp_beats_mtime() {
    let input = TimeInput {
        exif_datetime: None,
        exif_offset: None,
        filename: "Screenshot_2024-01-03-16-31-13.png".into(),
        mtime: utc("2023-12-01T00:00:00Z"),
    };

    let resolved = resolve_taken_at(&input, "Asia/Shanghai").unwrap();

    assert_eq!(resolved.source, TimeSource::Filename);
    assert_eq!(rfc(resolved.timestamp), "2024-01-03T16:31:13+08:00");
}

#[test]
fn mtime_is_the_final_fallback() {
    let input = TimeInput {
        exif_datetime: None,
        exif_offset: None,
        filename: "vacation.jpg".into(),
        mtime: utc("2024-02-10T17:30:00Z"),
    };

    let resolved = resolve_taken_at(&input, "Asia/Shanghai").unwrap();

    assert_eq!(resolved.source, TimeSource::Mtime);
    assert_eq!(rfc(resolved.timestamp), "2024-02-11T01:30:00+08:00");
}

#[test]
fn invalid_exif_date_falls_back_to_filename() {
    let input = TimeInput {
        exif_datetime: Some("2024:02:30 09:13:00".into()),
        exif_offset: Some("+08:00".into()),
        filename: "IMG_20240102_153012.jpg".into(),
        mtime: utc("2023-12-01T00:00:00Z"),
    };

    let resolved = resolve_taken_at(&input, "Asia/Shanghai").unwrap();

    assert_eq!(resolved.source, TimeSource::Filename);
    assert_eq!(rfc(resolved.timestamp), "2024-01-02T15:30:12+08:00");
}

#[test]
fn filename_patterns_are_anchored_and_reject_invalid_dates() {
    for filename in [
        "prefix_IMG_20240102_153012.jpg",
        "IMG_20240230_153012.jpg",
        "Screenshot_2024-13-03-16-31-13.png",
    ] {
        let input = TimeInput {
            exif_datetime: None,
            exif_offset: None,
            filename: filename.into(),
            mtime: utc("2023-12-01T00:00:00Z"),
        };

        let resolved = resolve_taken_at(&input, "Asia/Shanghai").unwrap();

        assert_eq!(resolved.source, TimeSource::Mtime, "{filename}");
    }
}

#[test]
fn local_day_converts_the_instant_to_the_configured_timezone() {
    let timestamp = utc("2024-02-10T17:30:00Z");

    assert_eq!(local_day(timestamp, "Asia/Shanghai"), Some(date(2024, 2, 11)));
}

#[test]
fn names_spring_festival() {
    assert_eq!(holiday_for(date(2024, 2, 10)), Some("春节"));
}

#[test]
fn names_lantern_festival() {
    assert_eq!(holiday_for(date(2024, 2, 24)), Some("元宵"));
}

#[test]
fn names_dragon_boat_festival() {
    assert_eq!(holiday_for(date(2024, 6, 10)), Some("端午"));
}

#[test]
fn names_mid_autumn_festival() {
    assert_eq!(holiday_for(date(2024, 9, 17)), Some("中秋"));
}

#[test]
fn names_fixed_gregorian_holidays() {
    assert_eq!(holiday_for(date(2024, 1, 1)), Some("元旦"));
    assert_eq!(holiday_for(date(2024, 5, 1)), Some("劳动节"));
    assert_eq!(holiday_for(date(2024, 10, 1)), Some("国庆节"));
    assert_eq!(holiday_for(date(2024, 12, 25)), Some("Christmas"));
}

#[test]
fn chinese_holiday_wins_on_collision() {
    assert_eq!(holiday_for(date(2020, 10, 1)), Some("中秋"));
}

#[test]
fn returns_none_for_an_ordinary_date() {
    assert_eq!(holiday_for(date(2024, 3, 12)), None);
}

struct FixedPlaces(Vec<String>);

impl PlaceResolver for FixedPlaces {
    fn resolve_album_places(&self, _photos: &[TimelinePhoto]) -> Result<Vec<String>, String> {
        Ok(self.0.clone())
    }
}

fn photo(id: &str, path: &str, taken_at: Option<&str>) -> TimelinePhoto {
    TimelinePhoto {
        id: id.into(),
        relative_path: path.into(),
        name: path.rsplit('/').next().unwrap().into(),
        width: 100,
        height: 100,
        size_bytes: 10,
        mtime_ns: 1_704_067_200_000_000_000,
        format: "JPEG".into(),
        taken_at: taken_at.map(str::to_owned),
        time_source: if taken_at.is_some() {
            TimeSource::Exif
        } else {
            TimeSource::Unknown
        },
        fingerprint: format!("fp-{id}"),
        gps_bucket: None,
    }
}

#[test]
fn cuts_albums_at_configured_local_midnight() {
    let photos = vec![
        photo("before", "b.jpg", Some("2024-02-10T15:59:00Z")),
        photo("after", "a.jpg", Some("2024-02-10T16:01:00Z")),
    ];

    let albums =
        build_daily_albums(&photos, "Asia/Shanghai", &FixedPlaces(vec![])).expect("album build");

    assert_eq!(
        albums
            .iter()
            .map(|build| build.album.id.as_str())
            .collect::<Vec<_>>(),
        ["auto-day:2024-02-10", "auto-day:2024-02-11"]
    );
}

#[test]
fn keeps_first_level_folders_separate_before_grouping_by_day() {
    let photos = vec![
        photo("trip", "Trips/Kyoto/a.jpg", Some("2024-03-12T09:00:00Z")),
        photo("family", "Family/b.jpg", Some("2024-03-12T10:00:00Z")),
    ];

    let albums = build_daily_albums(&photos, "UTC", &FixedPlaces(vec![])).expect("album build");

    assert_eq!(albums.len(), 2);
    assert_ne!(albums[0].album.id, albums[1].album.id);
    assert_eq!(albums[0].photo_ids, ["family"]);
    assert_eq!(albums[1].photo_ids, ["trip"]);
    assert_eq!(albums[0].album.name, "240312");
    assert_eq!(albums[1].album.name, "240312");
}

#[test]
fn keeps_nested_photos_together_within_the_same_first_level_folder() {
    let photos = vec![
        photo("kyoto", "Trips/Kyoto/a.jpg", Some("2024-03-12T09:00:00Z")),
        photo("tokyo", "Trips/Tokyo/b.jpg", Some("2024-03-12T10:00:00Z")),
    ];

    let albums = build_daily_albums(&photos, "UTC", &FixedPlaces(vec![])).expect("album build");

    assert_eq!(albums.len(), 1);
    assert_eq!(albums[0].album.name, "240312");
    assert_eq!(albums[0].photo_ids, ["kyoto", "tokyo"]);
}

#[test]
fn falls_back_to_file_mtime_for_missing_or_invalid_dates_in_each_folder() {
    let photos = vec![
        photo("trip", "Trips/missing.jpg", None),
        photo("family", "Family/invalid.jpg", Some("not-a-time")),
    ];

    let albums = build_daily_albums(&photos, "UTC", &FixedPlaces(vec![])).expect("album build");

    assert_eq!(albums.len(), 2);
    assert_eq!(albums[0].album.name, "240101");
    assert_eq!(albums[1].album.name, "240101");
    assert!(albums
        .iter()
        .all(|build| build.album.id.starts_with("auto-day:2024-01-01:")));
}

#[test]
fn groups_root_missing_and_invalid_times_by_file_mtime() {
    let photos = vec![
        photo("missing", "missing.jpg", None),
        photo("invalid", "invalid.jpg", Some("not-a-time")),
    ];

    let albums = build_daily_albums(&photos, "UTC", &FixedPlaces(vec![])).expect("album build");

    assert_eq!(albums.len(), 1);
    assert_eq!(albums[0].album.id, "auto-day:2024-01-01");
    assert_eq!(albums[0].album.name, "240101");
    assert_eq!(albums[0].photo_ids, ["invalid", "missing"]);
    assert_eq!(albums[0].album.cover_photo_id.as_deref(), Some("missing"));
}

#[test]
fn membership_sorting_and_median_cover_are_deterministic() {
    let photos = vec![
        photo("third", "z.jpg", Some("2024-03-12T12:00:00Z")),
        photo("tie-b", "b.jpg", Some("2024-03-12T10:00:00Z")),
        photo("first", "first.jpg", Some("2024-03-12T09:00:00Z")),
        photo("tie-a", "a.jpg", Some("2024-03-12T10:00:00Z")),
    ];

    let albums = build_daily_albums(&photos, "UTC", &FixedPlaces(vec![])).expect("album build");

    assert_eq!(albums[0].photo_ids, ["first", "tie-a", "tie-b", "third"]);
    assert_eq!(albums[0].album.cover_photo_id.as_deref(), Some("tie-b"));
}

#[test]
fn builds_timeline_title_from_time_and_place_not_folder_name() {
    let photos = vec![photo(
        "spring",
        "Camera Uploads/spring.jpg",
        Some("2024-02-10T09:00:00+08:00"),
    )];

    let albums = build_daily_albums(&photos, "Asia/Shanghai", &FixedPlaces(vec!["上海".into()]))
        .expect("album build");

    assert_eq!(albums[0].album.name, "240210 · 上海");
    assert!(albums[0].album.id.starts_with("auto-day:2024-02-10:"));
}

#[test]
fn formats_date_and_places_without_holiday_suffix() {
    let day = date(2024, 2, 10);
    assert_eq!(format_album_name(day, &["上海".into()]), "240210 · 上海");
    assert_eq!(format_album_name(day, &[]), "240210");
}

#[test]
fn name_uses_at_most_two_places_and_suffixes_the_remainder() {
    let day = date(2024, 3, 12);
    assert_eq!(
        format_album_name(
            day,
            &["上海".into(), "苏州".into(), "杭州".into(), "南京".into()],
        ),
        "240312 · 上海 · 苏州 +2"
    );
}

#[test]
fn build_keeps_place_and_holiday_metadata_without_folder_title() {
    let photos = vec![photo(
        "spring",
        "Shanghai/spring.jpg",
        Some("2024-02-10T09:00:00+08:00"),
    )];

    let albums = build_daily_albums(&photos, "Asia/Shanghai", &FixedPlaces(vec!["上海".into()]))
        .expect("album build");

    assert_eq!(albums[0].album.name, "240210 · 上海");
    assert_eq!(albums[0].album.place.as_deref(), Some("上海"));
    assert_eq!(albums[0].album.holiday.as_deref(), Some("春节"));
}
