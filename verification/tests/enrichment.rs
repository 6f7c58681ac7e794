use lumiflow::config::AiConfig;
use lumiflow::timeline::ai::{
    cached_is_reusable, date_range, extract_output_text, input_fingerprint, is_jpeg, prompt,
    required_config, responses_endpoint, summary, validate_output, AiClientSettings,
    AiDescriptionInput, ResponseContent, ResponseOutputItem, ResponsesEnvelope,
    SelectedPhotoSignature, PROMPT_VERSION,
};
use lumiflow::timeline::calendar::CivilDate;
use lumiflow::timeline::enrichment::{
    camera_name, camera_summary, contact_sheet_fingerprint, contact_sheet_path,
    contact_sheet_selection, description_input, sheet_plan, time_range, EnrichmentReport, SheetOutcome,
    ThumbnailOutcome,
};
use lumiflow::timeline::contact_sheet::{cell_origin, representative_indices, sheet_size};
use lumiflow::timeline::models::{TimeSource, TimelineAlbum, TimelinePhoto};
use lumiflow::timeline::status::{
    needs_initial_scan, progress_worth_logging, AiSchedule, RescanReport, ScanState, ScanStatus,
    ScheduleAction,
};
use lumiflow::timeline::scan::ScanReport;

fn sample_input(path: &str) -> AiDescriptionInput {
    AiDescriptionInput {
        album: TimelineAlbum {
            id: "album-1".into(),
            name: "Spring Walk".into(),
            description: None,
            date_start: Some(CivilDate { year: 2025, month: 4, day: 12 }),
            date_end: Some(CivilDate { year: 2025, month: 4, day: 12 }),
            place: Some("Hangzhou".into()),
            holiday: None,
            photo_count: 2,
            cover_photo_id: Some("photo-1".into()),
        },
        time_range: Some("09:00–11:00".into()),
        camera_summary: vec!["Example Camera × 2".into()],
        vision_tag_summary: vec!["garden (1.70)".into(), "people (0.80)".into()],
        selected_photos: vec![
            SelectedPhotoSignature {
                photo_id: "photo-1".into(),
                photo_fingerprint: "photo-fp-1".into(),
                vision_input_fingerprint: Some("vision-fp-1".into()),
            },
            SelectedPhotoSignature {
                photo_id: "photo-2".into(),
                photo_fingerprint: "photo-fp-2".into(),
                vision_input_fingerprint: None,
            },
        ],
        contact_sheet_path: path.into(),
    }
}

#[test]
fn fingerprint_changes_for_vision_photo_and_prompt_inputs() {
    let original = sample_input("sheet.jpg");
    let base = input_fingerprint(&original, "album-description-v1");
    assert_eq!(base.len(), 40);
    assert_eq!(base, input_fingerprint(&original.clone(), PROMPT_VERSION));

    let mut vision = original.clone();
    vision.vision_tag_summary[0] = "city (1.70)".into();
    assert_ne!(base, input_fingerprint(&vision, "album-description-v1"));

    let mut vision_signature = original.clone();
    vision_signature.selected_photos[0].vision_input_fingerprint = Some("vision-fp-2".into());
    assert_ne!(base, input_fingerprint(&vision_signature, "album-description-v1"));

    let mut photo = original.clone();
    photo.selected_photos[0].photo_fingerprint = "photo-fp-changed".into();
    assert_ne!(base, input_fingerprint(&photo, "album-description-v1"));
    assert_ne!(base, input_fingerprint(&original, "album-description-v2"));
}

#[test]
fn strict_output_parse_accepts_only_valid_bounded_shape() {
    let keywords = |values: &[&str]| values.iter().map(|v| v.to_string()).collect::<Vec<_>>();
    assert!(validate_output("A calm spring walk through a garden.", &keywords(&["garden", "spring"]), true).is_ok());

    let too_long_description = "x".repeat(1001);
    let too_long_keyword = "k".repeat(65);
    assert!(validate_output("", &[], true).is_err());
    assert!(validate_output("   ", &[], true).is_err());
    assert!(validate_output(&too_long_description, &[], true).is_err());
    assert!(validate_output("ok", &keywords(&[""]), true).is_err());
    assert!(validate_output("ok", &[too_long_keyword], true).is_err());
    assert!(validate_output("ok", &keywords(&["a", "b", "c", "d", "e", "f", "g", "h", "i", "j", "k"]), true).is_err());
    assert_eq!(
        validate_output("ok", &[], false).unwrap_err(),
        "confidence must be finite and between 0 and 1"
    );
    assert!(validate_output(&"x".repeat(1000), &[], true).is_ok());
}

fn message(contents: Vec<ResponseContent>) -> ResponseOutputItem {
    ResponseOutputItem { kind: "message".into(), content: contents }
}

#[test]
fn output_text_is_the_first_message_text() {
    let envelope = ResponsesEnvelope {
        output: vec![
            ResponseOutputItem { kind: "reasoning".into(), content: vec![ResponseContent::OutputText("skip".into())] },
            message(vec![ResponseContent::Other, ResponseContent::OutputText("{\"a\":1}".into())]),
        ],
    };
    assert_eq!(extract_output_text(&envelope).expect("text"), "{\"a\":1}");

    let refused = ResponsesEnvelope { output: vec![message(vec![ResponseContent::Refusal("no".into())])] };
    assert_eq!(
        extract_output_text(&refused).unwrap_err(),
        "Responses API refused the album description request"
    );
    assert_eq!(
        extract_output_text(&ResponsesEnvelope::default()).unwrap_err(),
        "Responses API response has no message output_text"
    );
}

#[test]
fn prompt_lists_the_album_metadata() {
    let input = sample_input("sheet.jpg");
    assert_eq!(date_range(&input), "2025-04-12");
    let mut span = input.clone();
    span.album.date_end = Some(CivilDate { year: 2025, month: 4, day: 14 });
    assert_eq!(date_range(&span), "2025-04-12 to 2025-04-14");
    span.album.date_start = None;
    span.album.date_end = None;
    assert_eq!(date_range(&span), "unknown");
    assert_eq!(summary(&[]), "none");
    assert_eq!(summary(&["a".to_string(), "b".to_string()]), "a, b");
    assert_eq!(
        prompt("en-US", &input),
        "Describe this photo album in en-US. Return only the requested structured JSON. Do not create or change a title. Base the description only on the contact sheet and metadata.\nAlbum name: Spring Walk\nDate range: 2025-04-12\nTime range: 09:00–11:00\nPlace: Hangzhou\nHoliday: none\nPhoto count: 2\nCameras: Example Camera × 2\nVision tags: garden (1.70), people (0.80)"
    );
}

#[test]
fn base_url_ending_in_responses_is_not_appended_again() {
    assert_eq!(
        responses_endpoint("https://example.invalid/v1/").expect("url"),
        "https://example.invalid/v1/responses"
    );
    assert_eq!(
        responses_endpoint("https://example.invalid/v1/responses").expect("url"),
        "https://example.invalid/v1/responses"
    );
    assert_eq!(responses_endpoint("  ").unwrap_err(), "AI base URL is required");
    assert_eq!(responses_endpoint("not a url").unwrap_err(), "invalid AI base URL `not a url`");
}

#[test]
fn client_settings_require_every_value() {
    let mut config = AiConfig {
        enabled: true,
        base_url: Some("https://example.invalid/v1".into()),
        api_key: Some(" key ".into()),
        model: Some("vision-model".into()),
        language: "zh-CN".into(),
    };
    let settings = AiClientSettings::from_config(&config).expect("settings");
    assert_eq!(settings.endpoint, "https://example.invalid/v1/responses");
    assert_eq!(settings.api_key, "key");
    config.model = Some("  ".into());
    assert_eq!(AiClientSettings::from_config(&config).unwrap_err(), "AI model is required");
    config.enabled = false;
    assert!(AiClientSettings::from_config(&config).is_err());
    assert_eq!(required_config("AI model", Some(" m ")).expect("value"), "m");
    assert_eq!(required_config("AI model", None).unwrap_err(), "AI model is required");
}

#[test]
fn cached_descriptions_and_bodies_are_checked() {
    assert!(cached_is_reusable("fp", "m", false, "fp", "m"));
    assert!(!cached_is_reusable("fp", "m", true, "fp", "m"));
    assert!(!cached_is_reusable("fp", "m", false, "fp2", "m"));
    assert!(is_jpeg(&[0xff, 0xd8, 0xff]));
    assert!(!is_jpeg(&[0x89, b'P']));
}

fn photo(id: &str, taken_at: Option<&str>) -> TimelinePhoto {
    TimelinePhoto {
        id: id.into(),
        relative_path: format!("{id}.jpg"),
        name: format!("{id}.jpg"),
        width: 1,
        height: 1,
        size_bytes: 1,
        mtime_ns: 0,
        format: "JPEG".into(),
        taken_at: taken_at.map(str::to_owned),
        time_source: TimeSource::Exif,
        fingerprint: format!("fp-{id}"),
        gps_bucket: None,
    }
}

#[test]
fn local_enrichment_selects_at_most_thirty_six_chronological_photos() {
    assert_eq!(contact_sheet_selection(50), representative_indices(50, 36));
    assert_eq!(contact_sheet_selection(50).len(), 36);
    assert_eq!(contact_sheet_selection(3), [0, 1, 2]);
    assert!(contact_sheet_selection(0).is_empty());
}

#[test]
fn local_enrichment_generates_reuses_isolates_and_aggregates_inputs() {
    let photos = vec![
        photo("early", Some("2024-04-12T09:00:00+00:00")),
        photo("broken", Some("2024-04-12T10:00:00+00:00")),
        photo("late", Some("2024-04-12T11:00:00+00:00")),
        photo("unknown", None),
    ];
    assert_eq!(time_range(&photos).as_deref(), Some("09:00–11:00"));
    assert_eq!(time_range(&[photo("x", None)]), None);
    let cameras = vec![
        ("early".to_string(), camera_name(Some("Canon"), Some("R5"))),
        ("broken".to_string(), camera_name(Some("Canon"), Some("R5"))),
        ("late".to_string(), camera_name(Some("Nikon"), Some("Z8"))),
        ("unknown".to_string(), None),
    ];
    assert_eq!(camera_summary(&photos, &cameras), ["Canon R5 × 2", "Nikon Z8 × 1"]);
}

#[test]
fn camera_names_avoid_repeating_the_make() {
    assert_eq!(camera_name(Some("Canon"), Some("Canon EOS R5")).as_deref(), Some("Canon EOS R5"));
    assert_eq!(camera_name(Some(" Nikon "), Some("Z8")).as_deref(), Some("Nikon Z8"));
    assert_eq!(camera_name(None, Some("Z8")).as_deref(), Some("Z8"));
    assert_eq!(camera_name(Some(" "), None), None);
}

#[test]
fn contact_sheets_are_keyed_by_album_and_photo_fingerprints() {
    assert_eq!(
        contact_sheet_path("data", "album-1"),
        "data/ai/contact-sheets/b6344dfbab166642687cd498eed1d0b2dd63ae19.jpg"
    );
    let photos = vec![photo("a", None), photo("b", None)];
    assert_eq!(contact_sheet_fingerprint(&photos), "77b5b9d064dcd7c51db1ce0345655e12b1040196");
}

#[test]
fn enrichment_report_counts_outcomes() {
    let mut report = EnrichmentReport::default();
    report.record_thumbnail(ThumbnailOutcome::Generated);
    report.record_thumbnail(ThumbnailOutcome::Reused);
    report.record_thumbnail(ThumbnailOutcome::Failed);
    report.record_sheet(SheetOutcome::Generated);
    report.record_sheet(SheetOutcome::Failed);
    report.record_ai(true);
    report.record_ai(false);
    assert_eq!(report.thumbnails_generated, 1);
    assert_eq!(report.thumbnails_reused, 1);
    assert_eq!(report.thumbnail_errors, 1);
    assert_eq!(report.contact_sheets_generated, 1);
    assert_eq!(report.contact_sheet_errors, 1);
    assert_eq!(report.ai_generated_or_cached, 1);
    assert_eq!(report.ai_errors, 1);
}

#[test]
fn scan_status_moves_through_its_phases() {
    let mut status = ScanStatus::starting(2);
    assert!(needs_initial_scan(&status));
    assert!(!needs_initial_scan(&ScanStatus::ready(2)));
    status = ScanStatus::scanning(2, 100);
    assert_eq!(status.state, ScanState::Scanning);
    let report = ScanReport { found: 5, analyzed: 3, reused: 2, errors: 0, marked_missing: 0 };
    status.record_progress(&report, 103);
    assert_eq!(status.found, 5);
    assert_eq!(status.processed, 5);
    assert_eq!(status.elapsed_seconds, 3);
    status.building_albums();
    assert_eq!(status.phase, "building_albums");
    status.complete(
        &RescanReport { scan: report, albums_count: 2, enrichment: EnrichmentReport::default() },
        110,
    );
    assert_eq!(status.state, ScanState::Ready);
    assert_eq!(status.elapsed_seconds, 10);
    status.fail("boom".into(), 111);
    assert_eq!(status.state, ScanState::Error);
    assert_eq!(status.error.as_deref(), Some("boom"));
    assert!(progress_worth_logging(200));
    assert!(!progress_worth_logging(0));
    assert!(!progress_worth_logging(150));
}

#[test]
fn scheduling_during_active_pass_keeps_only_the_latest_batch() {
    let mut queue: AiSchedule<u32> = AiSchedule::default();
    assert_eq!(queue.schedule(vec![]), ScheduleAction::NothingToDo);
    assert_eq!(queue.schedule(vec![1]), ScheduleAction::StartPass);
    assert_eq!(queue.schedule(vec![2, 3]), ScheduleAction::AlreadyRunning);
    assert_eq!(queue.next_batch(), Some(vec![2, 3]));
    assert_eq!(queue.next_batch(), None);
    assert!(!queue.running);
}

#[test]
fn contact_sheet_cells_fill_rows_of_six() {
    assert!(sheet_size(0).is_err());
    assert_eq!(sheet_size(1), Ok((224, 224)));
    assert_eq!(sheet_size(6), Ok((1344, 224)));
    assert_eq!(sheet_size(7), Ok((1344, 448)));
    assert_eq!(sheet_size(36), Ok((1344, 1344)));
    assert_eq!(cell_origin(0, 224, 224), (0, 0));
    assert_eq!(cell_origin(7, 224, 150), (224, 224 + 37));
    assert_eq!(cell_origin(5, 100, 224), (5 * 224 + 62, 0));
}

#[test]
fn contact_sheet_plans_select_and_fingerprint_the_album_photos() {
    assert!(sheet_plan("data", "album-1", &[]).is_none());
    let photos: Vec<TimelinePhoto> = (0..50).map(|i| photo(&format!("p{i:02}"), None)).collect();
    let plan = sheet_plan("data", "album-1", &photos).expect("plan");
    let expected: Vec<String> = representative_indices(50, 36).into_iter().map(|i| photos[i].id.clone()).collect();
    assert_eq!(plan.photos.iter().map(|p| p.id.clone()).collect::<Vec<_>>(), expected);
    assert_eq!(plan.path, contact_sheet_path("data", "album-1"));
    assert_eq!(plan.fingerprint, contact_sheet_fingerprint(&plan.photos));

    let two = vec![photo("a", Some("2024-04-12T09:00:00+00:00")), photo("b", Some("2024-04-12T11:00:00+00:00"))];
    let plan = sheet_plan("data", "day", &two).expect("plan");
    let cameras = vec![("a".to_string(), Some("Canon R5".to_string())), ("b".to_string(), Some("Canon R5".to_string()))];
    let album = sample_input("x").album;
    let input = description_input(album.clone(), &two, &plan, &cameras);
    assert_eq!(input.album, album);
    assert_eq!(input.time_range.as_deref(), Some("09:00–11:00"));
    assert_eq!(input.camera_summary, ["Canon R5 × 2"]);
    assert!(input.vision_tag_summary.is_empty());
    assert_eq!(input.selected_photos.len(), 2);
    assert_eq!(input.selected_photos[1].photo_fingerprint, "fp-b");
    assert_eq!(input.contact_sheet_path, plan.path);
}
