use lumiflow::timeline::contact_sheet::representative_indices;
use lumiflow::scanner::watcher::{
    timeline_watch_step, TimelineWatchAction as A, TimelineWatchEvent as E, TimelineWatchPhase as P,
};
use lumiflow::thumbnail::ImageFormat;
use lumiflow::timeline::enrichment::{skipped_enrichment, EnrichmentReport};
use lumiflow::auth::{authenticate, session_token};
use lumiflow::config::{Config, ConfigEnv, EnvValue};
use lumiflow::timeline::albums::{build_daily_albums, first_level_folder, PlaceResolver};
use lumiflow::timeline::calendar::Timestamp;
use lumiflow::timeline::models::{TimeSource, TimelinePhoto};
use lumiflow::timeline::status::{AiSchedule, ScheduleAction};
use lumiflow::timeline::time::local_day;

struct NoPlaces;

impl PlaceResolver for NoPlaces {
    fn resolve_album_places(&self, _photos: &[TimelinePhoto]) -> Result<Vec<String>, String> {
        Ok(Vec::new())
    }
}

struct FailingPlaces;

impl PlaceResolver for FailingPlaces {
    fn resolve_album_places(&self, _photos: &[TimelinePhoto]) -> Result<Vec<String>, String> {
        Err("resolver down".to_string())
    }
}

#[test]
fn album_build_without_photos_asks_no_resolver_and_unknown_zone_is_refused() {
    let none: Vec<TimelinePhoto> = Vec::new();
    let builds = build_daily_albums(&none, "Asia/Shanghai", &FailingPlaces).expect("no albums");
    assert!(builds.is_empty());
    let photos = vec![photo("a", "Trip/a.jpg", "2024-05-01T10:00:00+08:00")];
    let err = build_daily_albums(&photos, "Not/AZone", &NoPlaces).err();
    assert_eq!(err.as_deref(), Some("unknown time zone"));
    let err = build_daily_albums(&photos, "Asia/Shanghai", &FailingPlaces).err();
    assert_eq!(err.as_deref(), Some("resolver down"));
}

fn photo(id: &str, path: &str, taken_at: &str) -> TimelinePhoto {
    TimelinePhoto {
        id: id.into(),
        relative_path: path.into(),
        name: path.rsplit('/').next().unwrap().into(),
        width: 1,
        height: 1,
        size_bytes: 1,
        mtime_ns: 0,
        format: "JPEG".into(),
        taken_at: Some(taken_at.into()),
        time_source: TimeSource::Exif,
        fingerprint: format!("fp-{id}"),
        gps_bucket: None,
    }
}

#[test]
fn every_photo_lands_in_exactly_one_album_of_its_folder_and_day() {
    let photos = vec![
        photo("a", "Trip/a.jpg", "2024-05-01T10:00:00+08:00"),
        photo("b", "Home/b.jpg", "2024-05-01T11:00:00+08:00"),
        photo("c", "Trip/x/c.jpg", "2024-05-01T23:30:00+08:00"),
        photo("d", "Trip/d.jpg", "2024-05-02T00:30:00+08:00"),
        photo("e", "e.jpg", "2024-05-02T09:00:00+08:00"),
    ];
    let builds = build_daily_albums(&photos, "Asia/Shanghai", &NoPlaces).expect("albums");
    for p in &photos {
        let count: usize = builds
            .iter()
            .map(|b| b.photo_ids.iter().filter(|id| *id == &p.id).count())
            .sum();
        assert_eq!(count, 1, "photo {} listed {} times", p.id, count);
    }
    for b in &builds {
        let members: Vec<&TimelinePhoto> =
            b.photo_ids.iter().map(|id| photos.iter().find(|p| &p.id == id).unwrap()).collect();
        let folder = first_level_folder(&members[0].relative_path);
        for m in &members {
            assert_eq!(first_level_folder(&m.relative_path), folder);
            let t = chrono::DateTime::parse_from_rfc3339(m.taken_at.as_deref().unwrap()).unwrap();
            let instant = Timestamp { secs: t.timestamp(), nanos: t.timestamp_subsec_nanos(), offset: 0 };
            let day = local_day(instant, "Asia/Shanghai");
            assert_eq!(day, b.album.date_start);
        }
    }
    assert_eq!(builds.len(), 4);
}

#[test]
fn the_session_cookie_signs_the_browser_in() {
    let cookie = format!("lumiflow_session={}; theme=dark", session_token("pw"));
    assert!(authenticate(Some("pw"), Some(&cookie)));
    assert!(!authenticate(Some("pw"), Some("lumiflow_session=")));
}

#[test]
fn accepted_configuration_keeps_trimmed_credentials() {
    let mut env = ConfigEnv {
        photos_path: EnvValue::Present("/photos".into()),
        data_path: EnvValue::Present("/data".into()),
        bind_address: EnvValue::Missing,
        port: EnvValue::Missing,
        builder_workers: EnvValue::Missing,
        exclude_regex: EnvValue::Missing,
        album_mode: EnvValue::Missing,
        timeline_timezone: EnvValue::Missing,
        calendar_region: EnvValue::Missing,
        place_provider: EnvValue::Present(" nominatim ".into()),
        place_base_url: EnvValue::Present("  https://geo.example  ".into()),
        vision_tagger: EnvValue::Missing,
        vision_model_path: EnvValue::Missing,
        vision_labels_path: EnvValue::Missing,
        vision_workers: EnvValue::Missing,
        ai_enabled: EnvValue::Present("true".into()),
        ai_provider: EnvValue::Missing,
        ai_base_url: EnvValue::Present(" https://ai.example/v1 ".into()),
        ai_api_key: EnvValue::Present(" key ".into()),
        ai_model: EnvValue::Present("model".into()),
        ai_description_language: EnvValue::Missing,
    };
    let config = Config::from_env(&env).expect("config");
    assert_eq!(config.place_provider.as_deref(), Some("nominatim"));
    assert_eq!(config.place_base_url.as_deref(), Some("https://geo.example"));
    assert_eq!(config.ai.base_url.as_deref(), Some("https://ai.example/v1"));
    assert_eq!(config.ai.api_key.as_deref(), Some("key"));
    assert!(config.vision_workers >= 1);
    env.ai_model = EnvValue::Present("   ".into());
    assert!(Config::from_env(&env).is_err());
}

#[test]
fn stored_time_sources_read_back_as_themselves() {
    for source in [TimeSource::Exif, TimeSource::Filename, TimeSource::Mtime, TimeSource::Unknown] {
        assert_eq!(TimeSource::from_db(source.as_str()), Some(source));
    }
    assert_eq!(TimeSource::from_db("EXIF"), None);
}

#[test]
fn latest_scheduled_batch_is_taken_once() {
    let mut queue: AiSchedule<&str> = AiSchedule { running: true, pending: vec!["old"] };
    assert_eq!(queue.schedule(vec!["first"]), ScheduleAction::AlreadyRunning);
    assert_eq!(queue.schedule(vec!["second"]), ScheduleAction::AlreadyRunning);
    assert_eq!(queue.next_batch(), Some(vec!["second"]));
    assert_eq!(queue.next_batch(), None);
    assert!(!queue.running);
}

#[test]
fn time_zones_are_checked_by_name() {
    use_check("Asia/Shanghai", true);
    use_check("Mars/Olympus", false);
}

fn use_check(name: &str, ok: bool) {
    let r = lumiflow::timeline::time::check_timezone(name);
    assert_eq!(r.is_ok(), ok);
    if !ok {
        assert_eq!(r.unwrap_err(), format!("invalid timeline timezone `{name}`"));
    }
}

#[test]
fn each_format_extension_is_lowercase_and_names_the_format_again() {
    for f in [
        ImageFormat::Jpeg,
        ImageFormat::Png,
        ImageFormat::WebP,
        ImageFormat::Gif,
        ImageFormat::Heic,
        ImageFormat::Heif,
        ImageFormat::Avif,
        ImageFormat::Tiff,
    ] {
        let ext = f.extension();
        assert!(ext.chars().all(|c| c.is_ascii_lowercase()), "{ext}");
        assert_eq!(ImageFormat::from_path(&format!("x.{ext}")), Some(f));
        assert_eq!(ImageFormat::from_path(&format!("dir/IMG.{}", ext.to_uppercase())), Some(f));
    }
}

#[test]
fn timeline_watcher_debounces_a_burst_into_one_rescan() {
    let mut phase = P::Waiting;
    let mut actions = Vec::new();
    for event in [E::Change(false), E::Change(true), E::Change(true), E::Change(false), E::Quiet, E::Change(true), E::Closed] {
        let (next, action) = timeline_watch_step(phase, event);
        phase = next;
        actions.push(action);
    }
    assert_eq!(
        actions,
        vec![A::Wait, A::OpenWindow, A::KeepWindow, A::KeepWindow, A::Rescan, A::OpenWindow, A::RescanThenStop]
    );
    assert_eq!(phase, P::Stopped);
    assert_eq!(timeline_watch_step(P::Waiting, E::Closed), (P::Stopped, A::Stop));
    assert_eq!(timeline_watch_step(P::Stopped, E::Change(true)), (P::Stopped, A::Stop));
}

#[test]
fn disabled_enrichment_reports_nothing() {
    let (report, inputs) = skipped_enrichment(false).expect("skipped");
    assert_eq!(report, EnrichmentReport::default());
    assert!(inputs.is_empty());
    assert!(skipped_enrichment(true).is_none());
}

#[test]
fn representative_positions_are_evenly_spaced() {
    assert_eq!(representative_indices(17, 6), vec![0, 3, 6, 9, 12, 16]);
    for count in 2..60usize {
        for max_count in 2..20usize {
            let s = representative_indices(count, max_count);
            let k = s.len();
            let gap = (count - 1) / (k - 1);
            for (i, p) in s.iter().enumerate() {
                assert_eq!(*p, i * (count - 1) / (k - 1));
            }
            for pair in s.windows(2) {
                let d = pair[1] - pair[0];
                assert!(gap <= d && d <= gap + 1, "count={count} max={max_count}: {s:?}");
            }
        }
    }
}
