use lumiflow::timeline::models::{TimeSource, TimelinePhoto};
use lumiflow::timeline::places::{
    dominant_gps_buckets, merge_place_names, path_place_fallback, place_from_address,
    reverse_url, NominatimAddress, Place,
};

fn normalize_zero(value: f64) -> f64 {
    if value.abs() < 0.0005 {
        0.0
    } else {
        value
    }
}

fn bucket(lat: f64, lon: f64) -> String {
    format!("{:.3},{:.3}", normalize_zero(lat), normalize_zero(lon))
}

fn photo(id: &str, path: &str, gps: Option<(f64, f64)>) -> TimelinePhoto {
    TimelinePhoto {
        id: id.into(),
        relative_path: path.into(),
        name: path.rsplit('/').next().unwrap().into(),
        width: 1,
        height: 1,
        size_bytes: 1,
        mtime_ns: 1_704_067_200_000_000_000,
        format: "JPEG".into(),
        taken_at: None,
        time_source: TimeSource::Unknown,
        fingerprint: format!("fp-{id}"),
        gps_bucket: gps.map(|(lat, lon)| bucket(lat, lon)),
    }
}

fn place(city: Option<&str>, district: Option<&str>, region: Option<&str>, country: Option<&str>) -> Place {
    Place {
        geo_bucket: "31.230,121.474".into(),
        country: country.map(str::to_owned),
        region: region.map(str::to_owned),
        city: city.map(str::to_owned),
        district: district.map(str::to_owned),
        provider: "test".into(),
        resolved_at: "2024-01-01T00:00:00Z".into(),
    }
}

#[test]
fn chooses_dominant_buckets_by_count_then_bucket_key() {
    let photos = vec![
        photo("a", "a.jpg", Some((31.2304, 121.4737))),
        photo("b", "b.jpg", Some((35.6812, 139.7671))),
        photo("c", "c.jpg", Some((31.2303, 121.4738))),
        photo("d", "d.jpg", Some((35.6811, 139.7672))),
        photo("e", "e.jpg", Some((31.2302, 121.4739))),
        photo("none", "none.jpg", None),
    ];
    assert_eq!(dominant_gps_buckets(&photos), ["31.230,121.474", "35.681,139.767"]);
}

#[test]
fn dominant_buckets_break_ties_by_key_and_keep_at_most_three() {
    let photos = vec![
        photo("a", "a.jpg", Some((40.0, 1.0))),
        photo("b", "b.jpg", Some((10.0, 1.0))),
        photo("c", "c.jpg", Some((30.0, 1.0))),
        photo("d", "d.jpg", Some((20.0, 1.0))),
    ];
    assert_eq!(
        dominant_gps_buckets(&photos),
        ["10.000,1.000", "20.000,1.000", "30.000,1.000", "40.000,1.000"]
    );
    assert!(dominant_gps_buckets(&[photo("x", "x.jpg", None)]).is_empty());
}

#[test]
fn path_fallback_matches_only_complete_conservative_tokens() {
    let photos = vec![
        photo("a", "Trips/2024/Shanghai/IMG_1.jpg", None),
        photo("b", "Trips/Shanghai-family/IMG_2.jpg", None),
        photo("c", "Trips/shanghai/IMG_3.jpg", None),
        photo("d", "Trips/京都/IMG_4.jpg", None),
        photo("e", "Trips/Yorkshire/IMG_5.jpg", None),
    ];
    assert_eq!(path_place_fallback(&photos), ["上海", "京都"]);
}

#[test]
fn path_fallback_orders_by_frequency_then_name_and_limits_output() {
    let photos = vec![
        photo("a", "苏州/a.jpg", None),
        photo("b", "上海/b.jpg", None),
        photo("c", "杭州/c.jpg", None),
        photo("d", "苏州/d.jpg", None),
        photo("e", "上海/e.jpg", None),
        photo("f", "南京/f.jpg", None),
    ];
    assert_eq!(path_place_fallback(&photos), ["上海", "苏州", "杭州", "南京"]);
}

#[test]
fn display_name_prefers_city_then_district_region_country() {
    let base = place(Some("上海"), Some("黄浦区"), Some("上海市"), Some("中国"));
    assert_eq!(base.display_name().as_deref(), Some("上海"));

    let mut district_only = base.clone();
    district_only.city = None;
    assert_eq!(district_only.display_name().as_deref(), Some("黄浦区"));

    let region = place(Some("  "), None, Some("上海市"), Some("中国"));
    assert_eq!(region.display_name().as_deref(), Some("上海市"));
    let country = place(None, None, None, Some("中国"));
    assert_eq!(country.display_name().as_deref(), Some("中国"));
    assert_eq!(place(None, None, None, None).display_name(), None);
}

fn address(town: Option<&str>, village: Option<&str>, county: Option<&str>) -> NominatimAddress {
    NominatimAddress {
        country: None,
        state: None,
        city: None,
        town: town.map(str::to_owned),
        village: village.map(str::to_owned),
        suburb: None,
        county: county.map(str::to_owned),
    }
}

#[test]
fn nominatim_address_falls_back_across_city_town_village_and_district_fields() {
    let cases = [
        (address(Some("Oxford"), None, Some("Oxfordshire")), "Oxford", "Oxfordshire"),
        (address(None, Some("Bibury"), Some("Gloucestershire")), "Bibury", "Gloucestershire"),
        (address(None, None, Some("Cook County")), "Cook County", "Cook County"),
    ];
    for (address, city, district) in cases {
        let place = place_from_address("40.000,-70.000", address, "2024-01-01T00:00:00Z");
        assert_eq!(place.city.as_deref(), Some(city));
        assert_eq!(place.district.as_deref(), Some(district));
        assert_eq!(place.provider, "nominatim");
        assert_eq!(place.geo_bucket, "40.000,-70.000");
    }
}

#[test]
fn place_names_come_from_buckets_else_from_folders() {
    let photos = vec![photo("a", "Trips/京都/a.jpg", None)];
    assert_eq!(
        merge_place_names(vec![Some("上海".into()), None, Some("上海".into()), Some("东京".into())], &photos),
        ["上海", "东京"]
    );
    assert_eq!(merge_place_names(vec![None], &photos), ["京都"]);
    assert_eq!(merge_place_names(Vec::new(), &photos), ["京都"]);
}

#[test]
fn nominatim_appends_reverse_once_and_rejects_invalid_urls() {
    assert!(reverse_url("not a URL").is_err());
    assert!(reverse_url("   ").is_err());
    assert!(reverse_url("ftp://example.test").is_err());
    assert_eq!(
        reverse_url("https://nominatim.example.test").expect("url"),
        "https://nominatim.example.test/reverse"
    );
    assert_eq!(
        reverse_url("https://nominatim.example.test/reverse/").expect("url"),
        "https://nominatim.example.test/reverse"
    );
}

#[test]
fn cached_resolver_uses_dominant_gps_places_then_path_fallback() {
    let gps_photos = vec![
        photo("shanghai-1", "Kyoto/a.jpg", Some((31.2304, 121.4737))),
        photo("tokyo", "Kyoto/b.jpg", Some((35.6812, 139.7671))),
        photo("shanghai-2", "Kyoto/c.jpg", Some((31.2303, 121.4738))),
    ];
    assert_eq!(dominant_gps_buckets(&gps_photos), ["31.230,121.474", "35.681,139.767"]);
    let cached = vec![Some("上海".to_string()), Some("东京".to_string())];
    assert_eq!(merge_place_names(cached, &gps_photos), ["上海", "东京"]);
    let path_photos = vec![photo("a", "Kyoto/a.jpg", None)];
    assert_eq!(merge_place_names(Vec::new(), &path_photos), ["京都"]);
}

#[test]
fn nominatim_failures_fall_back_without_poisoning_cache() {
    let photos = vec![photo("gps", "Trips/Kyoto/a.jpg", Some((48.857, 2.352)))];
    assert_eq!(merge_place_names(vec![None], &photos), ["京都"]);
}

#[test]
fn nominatim_continues_to_next_dominant_bucket_after_failure() {
    let photos = vec![photo("a", "a.jpg", Some((1.0, 1.0))), photo("b", "b.jpg", Some((2.0, 2.0)))];
    assert_eq!(merge_place_names(vec![None, Some("Paris".to_string())], &photos), ["Paris"]);
}

#[test]
fn configured_place_resolver_rejects_invalid_nominatim_url_at_startup() {
    assert_eq!(reverse_url("not a URL").unwrap_err(), "invalid Nominatim base URL `not a URL`");
}
