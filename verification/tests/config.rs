use lumiflow::config::{AlbumMode, Config, ConfigEnv, EnvValue, VisionTagger};

fn missing_env() -> ConfigEnv {
    ConfigEnv {
        photos_path: EnvValue::Missing,
        data_path: EnvValue::Missing,
        bind_address: EnvValue::Missing,
        port: EnvValue::Missing,
        builder_workers: EnvValue::Missing,
        exclude_regex: EnvValue::Missing,
        album_mode: EnvValue::Missing,
        timeline_timezone: EnvValue::Missing,
        calendar_region: EnvValue::Missing,
        place_provider: EnvValue::Missing,
        place_base_url: EnvValue::Missing,
        vision_tagger: EnvValue::Missing,
        vision_model_path: EnvValue::Missing,
        vision_labels_path: EnvValue::Missing,
        vision_workers: EnvValue::Missing,
        ai_enabled: EnvValue::Missing,
        ai_provider: EnvValue::Missing,
        ai_base_url: EnvValue::Missing,
        ai_api_key: EnvValue::Missing,
        ai_model: EnvValue::Missing,
        ai_description_language: EnvValue::Missing,
    }
}

fn set(value: &str) -> EnvValue {
    EnvValue::Present(value.to_string())
}

fn with_required_paths() -> ConfigEnv {
    let mut env = missing_env();
    env.photos_path = set("/tmp/lumiflow-photos");
    env.data_path = set("/tmp/lumiflow-data");
    env
}

#[test]
fn config_defaults_to_port_4320() {
    let config = Config::from_env(&with_required_paths()).expect("config");
    assert_eq!(config.port, 4320);
}

#[test]
fn config_defaults_to_folder_mode_with_optional_enrichment_disabled() {
    let config = Config::from_env(&with_required_paths()).expect("config");
    assert_eq!(config.port, 4320);
    assert_eq!(config.album_mode, AlbumMode::Folders);
    assert_eq!(config.timeline_timezone, "Asia/Shanghai");
    assert_eq!(config.calendar_region, "CN_COMMON");
    assert_eq!(config.place_provider, None);
    assert_eq!(config.place_base_url, None);
    assert_eq!(config.vision_tagger, VisionTagger::NoTagger);
    assert_eq!(config.vision_model_path, None);
    assert_eq!(config.vision_labels_path, None);
    assert_eq!(config.vision_workers, 1);
    assert!(!config.ai.enabled);
    assert_eq!(config.ai.base_url, None);
    assert_eq!(config.ai.api_key, None);
    assert_eq!(config.ai.model, None);
    assert_eq!(config.ai.language, "zh-CN");
}

#[test]
fn config_parses_timeline_and_ai_settings() {
    let mut env = with_required_paths();
    env.album_mode = set("timeline");
    env.timeline_timezone = set("Europe/Paris");
    env.calendar_region = set("FR_COMMON");
    env.place_provider = set("nominatim");
    env.place_base_url = set("https://nominatim.example.test");
    env.vision_tagger = set("onnx-mobileclip");
    env.vision_model_path = set("/models/mobileclip.onnx");
    env.vision_labels_path = set("/models/labels.json");
    env.vision_workers = set("3");
    env.ai_enabled = set("true");
    env.ai_provider = set("openai-compatible");
    env.ai_base_url = set("https://example.invalid/v1");
    env.ai_api_key = set("test-key");
    env.ai_model = set("vision-model");
    env.ai_description_language = set("en-US");

    let config = Config::from_env(&env).expect("config");
    assert_eq!(config.album_mode, AlbumMode::Timeline);
    assert_eq!(config.timeline_timezone, "Europe/Paris");
    assert_eq!(config.calendar_region, "FR_COMMON");
    assert_eq!(config.place_provider.as_deref(), Some("nominatim"));
    assert_eq!(config.place_base_url.as_deref(), Some("https://nominatim.example.test"));
    assert_eq!(config.vision_tagger, VisionTagger::OnnxMobileClip);
    assert_eq!(config.vision_model_path.as_deref(), Some("/models/mobileclip.onnx"));
    assert_eq!(config.vision_labels_path.as_deref(), Some("/models/labels.json"));
    assert_eq!(config.vision_workers, 3);
    assert!(config.ai.enabled);
    assert_eq!(config.ai.base_url.as_deref(), Some("https://example.invalid/v1"));
    assert_eq!(config.ai.api_key.as_deref(), Some("test-key"));
    assert_eq!(config.ai.model.as_deref(), Some("vision-model"));
    assert_eq!(config.ai.language, "en-US");
}

#[test]
fn nominatim_provider_requires_non_empty_base_url() {
    let mut env = with_required_paths();
    env.place_provider = set("nominatim");
    let error = Config::from_env(&env).expect_err("missing place base URL must fail");
    assert!(error.message().contains(
        "LUMIFLOW_PLACE_BASE_URL must be set and non-empty when LUMIFLOW_PLACE_PROVIDER=nominatim"
    ));

    env.place_base_url = set("   ");
    let error = Config::from_env(&env).expect_err("blank place base URL must fail");
    assert!(error.message().contains(
        "LUMIFLOW_PLACE_BASE_URL must be set and non-empty when LUMIFLOW_PLACE_PROVIDER=nominatim"
    ));
}

#[test]
fn disabled_place_provider_keeps_base_url_without_enabling_network() {
    let mut env = with_required_paths();
    env.place_base_url = set("https://nominatim.example.test");
    let config = Config::from_env(&env).expect("disabled place config");
    assert_eq!(config.place_provider, None);
    assert_eq!(config.place_base_url.as_deref(), Some("https://nominatim.example.test"));
}

#[test]
fn enabled_ai_requires_non_empty_credentials() {
    let mut env = with_required_paths();
    env.ai_enabled = set("true");
    env.ai_api_key = set("test-key");
    env.ai_model = set("vision-model");
    let error = Config::from_env(&env).expect_err("missing AI base URL must fail");
    assert!(error.message().contains("LUMIFLOW_AI_BASE_URL must be set and non-empty"));
}

#[test]
fn config_rejects_unsupported_provider_names() {
    let mut env = with_required_paths();
    env.vision_tagger = set("mobileclip_onnx");
    let error = Config::from_env(&env).expect_err("invalid vision provider must fail");
    let message = error.message();
    assert!(message.contains("unsupported LUMIFLOW_VISION_TAGGER `mobileclip_onnx`"));
    assert!(message.contains("`onnx-mobileclip`"));
}

#[test]
fn missing_photos_path_is_an_error() {
    let mut env = with_required_paths();
    env.photos_path = EnvValue::Missing;
    let error = Config::from_env(&env).expect_err("photos path is required");
    assert!(error.message().contains("LUMIFLOW_PHOTOS_PATH"));
}

#[test]
fn invalid_port_is_an_error() {
    let mut env = with_required_paths();
    env.port = set("not-a-port");
    assert!(Config::from_env(&env).is_err());
    env.port = set("8080");
    assert_eq!(Config::from_env(&env).expect("config").port, 8080);
}

#[test]
fn unknown_album_mode_is_an_error() {
    let mut env = with_required_paths();
    env.album_mode = set("calendar");
    assert!(Config::from_env(&env).is_err());
    env.album_mode = set("folders");
    assert_eq!(Config::from_env(&env).expect("config").album_mode, AlbumMode::Folders);
}

#[test]
fn zero_vision_workers_is_an_error() {
    let mut env = with_required_paths();
    env.vision_workers = set("0");
    assert!(Config::from_env(&env).is_err());
}

#[test]
fn openvino_tagger_is_accepted() {
    let mut env = with_required_paths();
    env.vision_tagger = set("openvino-mobileclip");
    assert_eq!(Config::from_env(&env).expect("config").vision_tagger, VisionTagger::OpenVinoMobileClip);
}
