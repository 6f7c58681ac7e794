use lumiflow::api::{page_bounds, AlbumListQuery};
use lumiflow::auth::{
    authenticate, clear_session_cookie, configured_password, enabled, password_matches,
    session_cookie, session_token,
};
use lumiflow::server::{
    content_disposition_for_download, content_range_header, frontend_plan, mime_from_ext,
    mime_guess, parse_range, range_length, wants_download,
};
use lumiflow::thumbnail::{
    cached_thumb_is_fresh, pool_worker_count, thumb_is_stale, thumb_path,
    timeline_thumb_fingerprint_path, timeline_thumb_is_fresh, timeline_thumb_path, ImageFormat,
};

#[test]
fn content_disposition_for_download_encodes_original_filename() {
    let header = content_disposition_for_download("DSCF 6138.HIF");
    assert_eq!(
        header,
        "attachment; filename=\"DSCF 6138.HIF\"; filename*=UTF-8''DSCF%206138.HIF"
    );
}

#[test]
fn content_disposition_for_download_uses_ascii_fallback_for_unicode_filename() {
    let header = content_disposition_for_download("东京 01.jpg");
    assert_eq!(
        header,
        "attachment; filename=\"__ 01.jpg\"; filename*=UTF-8''%E4%B8%9C%E4%BA%AC%2001.jpg"
    );
}

#[test]
fn content_disposition_replaces_quotes_and_backslashes() {
    let header = content_disposition_for_download("a\"b\\c.jpg");
    assert_eq!(
        header,
        "attachment; filename=\"a_b_c.jpg\"; filename*=UTF-8''a%22b%5Cc.jpg"
    );
}

#[test]
fn range_header_forms_are_parsed_against_the_file_size() {
    assert_eq!(parse_range("bytes=0-99", 1000), Some((0, 99)));
    assert_eq!(parse_range("bytes=500-", 1000), Some((500, 999)));
    // A suffix form keeps its number as the end as well as the suffix length.
    assert_eq!(parse_range("bytes=-100", 1000), None);
    assert_eq!(parse_range("bytes=-999", 1000), Some((1, 999)));
    assert_eq!(parse_range("bytes=-5000", 1000), None);
    assert_eq!(parse_range("bytes=900-1000", 1000), None);
    assert_eq!(parse_range("bytes=5-3", 1000), None);
    assert_eq!(parse_range("items=0-1", 1000), None);
    assert_eq!(parse_range("bytes=0-1-2", 1000), None);
    assert_eq!(parse_range("bytes=a-2", 1000), None);
    assert_eq!(parse_range("bytes=0-", 0), None);
}

#[test]
fn content_range_and_length_of_a_range() {
    assert_eq!(content_range_header(0, 99, 1000), "bytes 0-99/1000");
    assert_eq!(range_length(0, 99), 100);
    assert_eq!(range_length(7, 7), 1);
}

#[test]
fn mime_types_follow_extensions() {
    assert_eq!(mime_guess("2024/a.jpeg"), "image/jpeg");
    assert_eq!(mime_guess("a.jpg"), "image/jpeg");
    assert_eq!(mime_guess("a.tif"), "image/tiff");
    assert_eq!(mime_guess("a.heic"), "image/heic");
    assert_eq!(mime_guess("a.JPG"), "application/octet-stream");
    assert_eq!(mime_guess("README"), "application/octet-stream");
    assert_eq!(mime_from_ext("index.html"), "text/html");
    assert_eq!(mime_from_ext("assets/app.mjs"), "application/javascript");
    assert_eq!(mime_from_ext("icon.svg"), "image/svg+xml");
    assert_eq!(mime_from_ext("font.woff2"), "font/woff2");
    assert_eq!(mime_from_ext("data.bin"), "application/octet-stream");
}

#[test]
fn download_flag_accepts_one_or_true() {
    assert!(wants_download(Some("1")));
    assert!(wants_download(Some("TRUE")));
    assert!(wants_download(Some("true")));
    assert!(!wants_download(Some("yes")));
    assert!(!wants_download(None));
}

#[test]
fn frontend_routes_fall_back_to_index_for_client_routes() {
    let root = frontend_plan("/");
    assert_eq!(root.file_path, "index.html");
    assert_eq!(root.html_path, "index.html.html");
    assert!(root.spa_fallback);

    let album = frontend_plan("/album/3");
    assert_eq!(album.file_path, "album/3");
    assert_eq!(album.html_path, "album/3.html");
    assert!(album.spa_fallback);

    let asset = frontend_plan("//assets/app.js");
    assert_eq!(asset.file_path, "assets/app.js");
    assert!(!asset.spa_fallback);
}

#[test]
fn page_limit_is_clamped_and_pages_are_bounded() {
    let mut query = AlbumListQuery { offset: 0, limit: None, person: None, from: None, to: None };
    assert_eq!(query.limit(), 60);
    query.limit = Some(0);
    assert_eq!(query.limit(), 1);
    query.limit = Some(500);
    assert_eq!(query.limit(), 120);
    query.limit = Some(7);
    assert_eq!(query.limit(), 7);
    query.person = Some("ann".to_string());
    let filter = query.filter();
    assert_eq!(filter.person.as_deref(), Some("ann"));
    assert_eq!(filter.from, None);

    assert_eq!(page_bounds(10, 0, 4), (0, 4));
    assert_eq!(page_bounds(10, 8, 4), (8, 10));
    assert_eq!(page_bounds(10, 12, 4), (10, 10));
}

#[test]
fn session_token_hashes_the_password_with_its_context() {
    assert_eq!(session_token("secret"), "b335ae0aedb019c6fe5f1925c21082a0942cf1c5");
}

#[test]
fn authentication_is_open_without_password_and_checks_the_cookie_otherwise() {
    assert_eq!(configured_password(None), None);
    assert_eq!(configured_password(Some("   ")), None);
    assert_eq!(configured_password(Some("secret")).as_deref(), Some("secret"));
    assert!(!enabled(None));
    assert!(enabled(Some("secret")));

    assert!(authenticate(None, None));
    assert!(!authenticate(Some("secret"), None));
    let good = "theme=dark; lumiflow_session=b335ae0aedb019c6fe5f1925c21082a0942cf1c5";
    assert!(authenticate(Some("secret"), Some(good)));
    assert!(!authenticate(Some("secret"), Some("lumiflow_session=deadbeef")));
    assert!(!authenticate(Some("other"), Some(good)));

    assert!(password_matches(Some("secret"), "secret"));
    assert!(!password_matches(Some("secret"), "Secret"));
    assert!(!password_matches(None, ""));
}

#[test]
fn session_cookies_carry_the_token_or_clear_it() {
    assert_eq!(
        session_cookie(Some("secret")),
        "lumiflow_session=b335ae0aedb019c6fe5f1925c21082a0942cf1c5; Path=/; HttpOnly; SameSite=Strict; Max-Age=604800"
    );
    assert_eq!(
        clear_session_cookie(),
        "lumiflow_session=; Path=/; HttpOnly; SameSite=Strict; Max-Age=0"
    );
}

#[test]
fn test_format_detection() {
    assert_eq!(ImageFormat::from_path("photo.jpg"), Some(ImageFormat::Jpeg));
    assert_eq!(ImageFormat::from_path("photo.JPEG"), Some(ImageFormat::Jpeg));
    assert_eq!(ImageFormat::from_path("photo.heic"), Some(ImageFormat::Heic));
    assert_eq!(ImageFormat::from_path("video.mp4"), None);
}

#[test]
fn timeline_thumbnail_path_is_keyed_only_by_photo_id() {
    assert_eq!(
        timeline_thumb_path("data", "0123456789abcdef"),
        "data/thumbs/by-id/0123456789abcdef.webp"
    );
    assert_eq!(
        timeline_thumb_fingerprint_path("data", "0123456789abcdef"),
        "data/thumbs/by-id/0123456789abcdef.fingerprint"
    );
    assert_eq!(thumb_path("data", "Trip", "a.jpg"), "data/thumbs/Trip/a.jpg.webp");
}

#[test]
fn timeline_thumbnail_freshness_uses_exact_fingerprint_metadata() {
    assert!(!timeline_thumb_is_fresh(true, None, "fp-1"));
    assert!(timeline_thumb_is_fresh(true, Some("fp-1"), "fp-1"));
    assert!(!timeline_thumb_is_fresh(true, Some("fp-1"), "fp-2"));
    assert!(!timeline_thumb_is_fresh(false, Some("fp-1"), "fp-1"));
}

#[test]
fn folder_thumbnails_compare_modification_times() {
    assert!(cached_thumb_is_fresh(Some(5), Some(5)));
    assert!(!cached_thumb_is_fresh(Some(6), Some(5)));
    assert!(!cached_thumb_is_fresh(None, Some(5)));
    assert!(thumb_is_stale(Some(6), Some(5)));
    assert!(thumb_is_stale(Some(6), None));
    assert!(!thumb_is_stale(Some(5), Some(5)));
    assert!(!thumb_is_stale(None, None));
    assert_eq!(pool_worker_count(0), 1);
    assert_eq!(pool_worker_count(4), 4);
}
