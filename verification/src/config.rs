//! Settings read from `LUMIFLOW_*` environment variables, with their defaults and the
//! errors that stop the server from starting.
use crate::num::{
    parse_bool, parse_bool_spec, parse_u16, parse_unsigned_spec, parse_usize,
};
use crate::text::{chars_of, eq_str, push_str, string_from_chars, trim, trim_spec};
use vstd::prelude::*;

verus! {

/// One environment variable as `std::env::var` reads it.
#[derive(Debug, Clone, PartialEq, Eq)]
pub enum EnvValue {
    Missing,
    NotUnicode,
    Present(String),
}

/// How albums are formed.
#[derive(Clone, Copy, Debug, PartialEq, Eq, Structural)]
pub enum AlbumMode {
    Folders,
    Timeline,
}

/// Which local model tags photos, if any.
#[derive(Clone, Copy, Debug, PartialEq, Eq, Structural)]
pub enum VisionTagger {
    /// No tagger (`none`).
    NoTagger,
    OnnxMobileClip,
    OpenVinoMobileClip,
}

/// Settings of the optional AI album descriptions.
#[derive(Clone, Debug, PartialEq, Eq)]
pub struct AiConfig {
    pub enabled: bool,
    pub base_url: Option<String>,
    pub api_key: Option<String>,
    pub model: Option<String>,
    pub language: String,
}

/// The server's settings. Paths are kept as the text they were given as.
#[derive(Clone, Debug, PartialEq, Eq)]
pub struct Config {
    pub photos_path: String,
    pub data_path: String,
    pub bind_address: String,
    pub port: u16,
    pub builder_workers: usize,
    pub exclude_regex: String,
    pub album_mode: AlbumMode,
    pub timeline_timezone: String,
    pub calendar_region: String,
    pub place_provider: Option<String>,
    pub place_base_url: Option<String>,
    pub vision_tagger: VisionTagger,
    pub vision_model_path: Option<String>,
    pub vision_labels_path: Option<String>,
    pub vision_workers: usize,
    pub ai: AiConfig,
}

/// The environment variables the settings are read from, each as read.
#[derive(Debug, Clone, PartialEq, Eq)]
pub struct ConfigEnv {
    pub photos_path: EnvValue,
    pub data_path: EnvValue,
    pub bind_address: EnvValue,
    pub port: EnvValue,
    pub builder_workers: EnvValue,
    pub exclude_regex: EnvValue,
    pub album_mode: EnvValue,
    pub timeline_timezone: EnvValue,
    pub calendar_region: EnvValue,
    pub place_provider: EnvValue,
    pub place_base_url: EnvValue,
    pub vision_tagger: EnvValue,
    pub vision_model_path: EnvValue,
    pub vision_labels_path: EnvValue,
    pub vision_workers: EnvValue,
    pub ai_enabled: EnvValue,
    pub ai_provider: EnvValue,
    pub ai_base_url: EnvValue,
    pub ai_api_key: EnvValue,
    pub ai_model: EnvValue,
    pub ai_description_language: EnvValue,
}

/// Why the settings could not be read.
#[derive(Debug, Clone, PartialEq, Eq)]
pub struct ConfigError {
    pub message: String,
}

impl ConfigError {
    /// The message, as the server reports it.
    pub fn message(&self) -> (r: String)
        ensures
            r@ == self.message@,
    {
        self.message.clone()
    }
}

/// The AI settings as values.
pub struct AiConfigView {
    pub enabled: bool,
    pub base_url: Option<Seq<char>>,
    pub api_key: Option<Seq<char>>,
    pub model: Option<Seq<char>>,
    pub language: Seq<char>,
}

/// The settings as values.
pub struct ConfigView {
    pub photos_path: Seq<char>,
    pub data_path: Seq<char>,
    pub bind_address: Seq<char>,
    pub port: u16,
    pub builder_workers: usize,
    pub exclude_regex: Seq<char>,
    pub album_mode: AlbumMode,
    pub timeline_timezone: Seq<char>,
    pub calendar_region: Seq<char>,
    pub place_provider: Option<Seq<char>>,
    pub place_base_url: Option<Seq<char>>,
    pub vision_tagger: VisionTagger,
    pub vision_model_path: Option<Seq<char>>,
    pub vision_labels_path: Option<Seq<char>>,
    pub vision_workers: usize,
    pub ai: AiConfigView,
}

pub open spec fn opt_seq(o: Option<String>) -> Option<Seq<char>> {
    match o {
        Some(s) => Some(s@),
        None => None,
    }
}

impl View for AiConfig {
    type V = AiConfigView;

    open spec fn view(&self) -> AiConfigView {
        AiConfigView {
            enabled: self.enabled,
            base_url: opt_seq(self.base_url),
            api_key: opt_seq(self.api_key),
            model: opt_seq(self.model),
            language: self.language@,
        }
    }
}

impl View for Config {
    type V = ConfigView;

    open spec fn view(&self) -> ConfigView {
        ConfigView {
            photos_path: self.photos_path@,
            data_path: self.data_path@,
            bind_address: self.bind_address@,
            port: self.port,
            builder_workers: self.builder_workers,
            exclude_regex: self.exclude_regex@,
            album_mode: self.album_mode,
            timeline_timezone: self.timeline_timezone@,
            calendar_region: self.calendar_region@,
            place_provider: opt_seq(self.place_provider),
            place_base_url: opt_seq(self.place_base_url),
            vision_tagger: self.vision_tagger,
            vision_model_path: opt_seq(self.vision_model_path),
            vision_labels_path: opt_seq(self.vision_labels_path),
            vision_workers: self.vision_workers,
            ai: self.ai@,
        }
    }
}

/// An optional setting: its trimmed value, `None` when unset, unreadable or blank.
pub open spec fn optional_spec(v: EnvValue) -> Option<Seq<char>> {
    match v {
        EnvValue::Present(s) => if trim_spec(s@).len() > 0 {
            Some(trim_spec(s@))
        } else {
            None
        },
        _ => None,
    }
}

/// A required path: `KEY must be set` when unset or unreadable, `KEY must not be empty`
/// when blank, else the value as given.
pub open spec fn required_spec(key: Seq<char>, v: EnvValue) -> Result<Seq<char>, Seq<char>> {
    match v {
        EnvValue::Present(s) => if trim_spec(s@).len() == 0 {
            Err(key + " must not be empty"@)
        } else {
            Ok(s@)
        },
        _ => Err(key + " must be set"@),
    }
}

/// A setting with a default: the default when unset, `KEY must not be empty` when blank,
/// `failed to read KEY` when unreadable.
pub open spec fn non_empty_or_spec(key: Seq<char>, v: EnvValue, default: Seq<char>) -> Result<Seq<char>, Seq<char>> {
    match v {
        EnvValue::Present(s) => if trim_spec(s@).len() == 0 {
            Err(key + " must not be empty"@)
        } else {
            Ok(s@)
        },
        EnvValue::Missing => Ok(default),
        EnvValue::NotUnicode => Err("failed to read "@ + key),
    }
}

/// The message for a value that does not parse.
pub open spec fn invalid_value_message(key: Seq<char>, value: Seq<char>) -> Seq<char> {
    "invalid "@ + key + " value `"@ + value + "`"@
}

/// An unsigned number setting no larger than `max`, with a default.
pub open spec fn number_or_spec(key: Seq<char>, v: EnvValue, default: nat, max: nat) -> Result<nat, Seq<char>> {
    match v {
        EnvValue::Present(s) => match parse_unsigned_spec(s@, max) {
            Some(n) => Ok(n),
            None => Err(invalid_value_message(key, s@)),
        },
        EnvValue::Missing => Ok(default),
        EnvValue::NotUnicode => Err("failed to read "@ + key),
    }
}

/// A count setting that must be at least one.
pub open spec fn positive_or_spec(key: Seq<char>, v: EnvValue, default: nat) -> Result<nat, Seq<char>> {
    match number_or_spec(key, v, default, usize::MAX as nat) {
        Ok(n) => if n == 0 {
            Err(key + " must be at least 1"@)
        } else {
            Ok(n)
        },
        Err(m) => Err(m),
    }
}

/// A boolean setting with a default.
pub open spec fn bool_or_spec(key: Seq<char>, v: EnvValue, default: bool) -> Result<bool, Seq<char>> {
    match v {
        EnvValue::Present(s) => match parse_bool_spec(s@) {
            Some(b) => Ok(b),
            None => Err(invalid_value_message(key, s@)),
        },
        EnvValue::Missing => Ok(default),
        EnvValue::NotUnicode => Err("failed to read "@ + key),
    }
}

/// `LUMIFLOW_ALBUM_MODE`: `folders` (the default) or `timeline`.
pub open spec fn album_mode_spec(v: EnvValue) -> Result<AlbumMode, Seq<char>> {
    match v {
        EnvValue::Present(s) => if s@ == "folders"@ {
            Ok(AlbumMode::Folders)
        } else if s@ == "timeline"@ {
            Ok(AlbumMode::Timeline)
        } else {
            Err("unsupported LUMIFLOW_ALBUM_MODE `"@ + s@ + "`; expected `folders` or `timeline`"@)
        },
        EnvValue::Missing => Ok(AlbumMode::Folders),
        EnvValue::NotUnicode => Err("failed to read LUMIFLOW_ALBUM_MODE"@),
    }
}

/// `LUMIFLOW_VISION_TAGGER`: `none` (the default), `onnx-mobileclip` or
/// `openvino-mobileclip`.
pub open spec fn vision_tagger_spec(v: EnvValue) -> Result<VisionTagger, Seq<char>> {
    match v {
        EnvValue::Present(s) => if s@ == "none"@ {
            Ok(VisionTagger::NoTagger)
        } else if s@ == "onnx-mobileclip"@ {
            Ok(VisionTagger::OnnxMobileClip)
        } else if s@ == "openvino-mobileclip"@ {
            Ok(VisionTagger::OpenVinoMobileClip)
        } else {
            Err("unsupported LUMIFLOW_VISION_TAGGER `"@ + s@
                + "`; expected `none`, `onnx-mobileclip`, or `openvino-mobileclip`"@)
        },
        EnvValue::Missing => Ok(VisionTagger::NoTagger),
        EnvValue::NotUnicode => Err("failed to read LUMIFLOW_VISION_TAGGER"@),
    }
}

/// `LUMIFLOW_PLACE_PROVIDER`: unset or `nominatim`, which needs a base URL.
pub open spec fn place_provider_spec(provider: EnvValue, base_url: EnvValue) -> Result<Option<Seq<char>>, Seq<char>> {
    match optional_spec(provider) {
        None => Ok(None),
        Some(p) => if p != "nominatim"@ {
            Err("unsupported LUMIFLOW_PLACE_PROVIDER `"@ + p + "`; expected one of: nominatim"@)
        } else if optional_spec(base_url) is None {
            Err("LUMIFLOW_PLACE_BASE_URL must be set and non-empty when LUMIFLOW_PLACE_PROVIDER=nominatim"@)
        } else {
            Ok(Some(p))
        },
    }
}

/// The message for a credential that enabled AI descriptions need.
pub open spec fn ai_missing_message(key: Seq<char>) -> Seq<char> {
    key + " must be set and non-empty when LUMIFLOW_AI_ENABLED=true"@
}

/// The AI settings: off by default; a provider other than `openai-compatible` is
/// refused; when on, base URL, key and model must be set, checked in that order.
pub open spec fn ai_config_spec(env: ConfigEnv) -> Result<AiConfigView, Seq<char>> {
    match bool_or_spec("LUMIFLOW_AI_ENABLED"@, env.ai_enabled, false) {
        Err(m) => Err(m),
        Ok(enabled) => match optional_spec(env.ai_provider) {
            Some(p) if p != "openai-compatible"@ => Err(
                "unsupported LUMIFLOW_AI_PROVIDER `"@ + p + "`; expected `openai-compatible`"@,
            ),
            _ => {
                let base_url = optional_spec(env.ai_base_url);
                let api_key = optional_spec(env.ai_api_key);
                let model = optional_spec(env.ai_model);
                if enabled && base_url is None {
                    Err(ai_missing_message("LUMIFLOW_AI_BASE_URL"@))
                } else if enabled && api_key is None {
                    Err(ai_missing_message("LUMIFLOW_AI_API_KEY"@))
                } else if enabled && model is None {
                    Err(ai_missing_message("LUMIFLOW_AI_MODEL"@))
                } else {
                    match non_empty_or_spec(
                        "LUMIFLOW_AI_DESCRIPTION_LANGUAGE"@,
                        env.ai_description_language,
                        "zh-CN"@,
                    ) {
                        Err(m) => Err(m),
                        Ok(language) => Ok(AiConfigView { enabled, base_url, api_key, model, language }),
                    }
                }
            },
        },
    }
}

/// The default pattern of paths that scans skip: NAS metadata, recycle bins and desktop
/// index files.
pub open spec fn default_exclude_regex() -> Seq<char> {
    "(^|/)(@eaDir|#recycle|\\.DS_Store|Thumbs\\.db)(/|$)"@
}

/// The settings, read in field order; the first failure is the error.
pub open spec fn config_spec(env: ConfigEnv) -> Result<ConfigView, Seq<char>> {
    match required_spec("LUMIFLOW_PHOTOS_PATH"@, env.photos_path) {
        Err(m) => Err(m),
        Ok(photos_path) => match required_spec("LUMIFLOW_DATA_PATH"@, env.data_path) {
            Err(m) => Err(m),
            Ok(data_path) => match number_or_spec("LUMIFLOW_PORT"@, env.port, 4320, u16::MAX as nat) {
                Err(m) => Err(m),
                Ok(port) => match number_or_spec(
                    "LUMIFLOW_BUILDER_WORKERS"@,
                    env.builder_workers,
                    2,
                    usize::MAX as nat,
                ) {
                    Err(m) => Err(m),
                    Ok(builder_workers) => match album_mode_spec(env.album_mode) {
                        Err(m) => Err(m),
                        Ok(album_mode) => match non_empty_or_spec(
                            "LUMIFLOW_TIMELINE_TIMEZONE"@,
                            env.timeline_timezone,
                            "Asia/Shanghai"@,
                        ) {
                            Err(m) => Err(m),
                            Ok(timeline_timezone) => match non_empty_or_spec(
                                "LUMIFLOW_CALENDAR_REGION"@,
                                env.calendar_region,
                                "CN_COMMON"@,
                            ) {
                                Err(m) => Err(m),
                                Ok(calendar_region) => match place_provider_spec(
                                    env.place_provider,
                                    env.place_base_url,
                                ) {
                                    Err(m) => Err(m),
                                    Ok(place_provider) => match vision_tagger_spec(env.vision_tagger) {
                                        Err(m) => Err(m),
                                        Ok(vision_tagger) => match positive_or_spec(
                                            "LUMIFLOW_VISION_WORKERS"@,
                                            env.vision_workers,
                                            1,
                                        ) {
                                            Err(m) => Err(m),
                                            Ok(vision_workers) => match ai_config_spec(env) {
                                                Err(m) => Err(m),
                                                Ok(ai) => Ok(
                                                    ConfigView {
                                                        photos_path,
                                                        data_path,
                                                        bind_address: match env.bind_address {
                                                            EnvValue::Present(s) => s@,
                                                            _ => "0.0.0.0"@,
                                                        },
                                                        port: port as u16,
                                                        builder_workers: builder_workers as usize,
                                                        exclude_regex: match env.exclude_regex {
                                                            EnvValue::Present(s) => s@,
                                                            _ => default_exclude_regex(),
                                                        },
                                                        album_mode,
                                                        timeline_timezone,
                                                        calendar_region,
                                                        place_provider,
                                                        place_base_url: optional_spec(env.place_base_url),
                                                        vision_tagger,
                                                        vision_model_path: optional_spec(
                                                            env.vision_model_path,
                                                        ),
                                                        vision_labels_path: optional_spec(
                                                            env.vision_labels_path,
                                                        ),
                                                        vision_workers: vision_workers as usize,
                                                        ai,
                                                    },
                                                ),
                                            },
                                        },
                                    },
                                },
                            },
                        },
                    },
                },
            },
        },
    }
}

fn err2(a: &str, b: &str) -> (r: ConfigError)
    ensures
        r.message@ == a@ + b@,
{
    let mut m = String::new();
    push_str(&mut m, a);
    push_str(&mut m, b);
    ConfigError { message: m }
}

fn err3(a: &str, b: &str, c: &str) -> (r: ConfigError)
    ensures
        r.message@ == a@ + b@ + c@,
{
    let mut m = String::new();
    push_str(&mut m, a);
    push_str(&mut m, b);
    push_str(&mut m, c);
    ConfigError { message: m }
}

fn err_invalid(key: &str, value: &str) -> (r: ConfigError)
    ensures
        r.message@ == invalid_value_message(key@, value@),
{
    let mut m = String::new();
    push_str(&mut m, "invalid ");
    push_str(&mut m, key);
    push_str(&mut m, " value `");
    push_str(&mut m, value);
    push_str(&mut m, "`");
    ConfigError { message: m }
}

/// An optional setting's trimmed value.
pub fn optional_string(v: &EnvValue) -> (r: Option<String>)
    ensures
        opt_seq(r) == optional_spec(*v),
{
    match v {
        EnvValue::Present(s) => {
            let c = chars_of(s.as_str());
            let t = trim(c.as_slice());
            if t.len() > 0 {
                Some(string_from_chars(t.as_slice()))
            } else {
                None
            }
        },
        _ => None,
    }
}

/// An optional path setting.
pub fn optional_path(v: &EnvValue) -> (r: Option<String>)
    ensures
        opt_seq(r) == optional_spec(*v),
{
    optional_string(v)
}

/// A required path setting.
pub fn required_path(key: &str, v: &EnvValue) -> (r: Result<String, ConfigError>)
    ensures
        match r {
            Ok(s) => required_spec(key@, *v) == Ok::<Seq<char>, Seq<char>>(s@),
            Err(e) => required_spec(key@, *v) == Err::<Seq<char>, Seq<char>>(e.message@),
        },
{
    match v {
        EnvValue::Present(s) => {
            let c = chars_of(s.as_str());
            let t = trim(c.as_slice());
            if t.len() == 0 {
                Err(err2(key, " must not be empty"))
            } else {
                Ok(s.clone())
            }
        },
        _ => Err(err2(key, " must be set")),
    }
}

/// A setting with a default that may not be blank.
pub fn non_empty_or(key: &str, v: &EnvValue, default: &str) -> (r: Result<String, ConfigError>)
    ensures
        match r {
            Ok(s) => non_empty_or_spec(key@, *v, default@) == Ok::<Seq<char>, Seq<char>>(s@),
            Err(e) => non_empty_or_spec(key@, *v, default@) == Err::<Seq<char>, Seq<char>>(e.message@),
        },
{
    match v {
        EnvValue::Present(s) => {
            let c = chars_of(s.as_str());
            let t = trim(c.as_slice());
            if t.len() == 0 {
                Err(err2(key, " must not be empty"))
            } else {
                Ok(s.clone())
            }
        },
        EnvValue::Missing => Ok(default.to_owned()),
        EnvValue::NotUnicode => Err(err2("failed to read ", key)),
    }
}

fn port_or(key: &str, v: &EnvValue, default: u16) -> (r: Result<u16, ConfigError>)
    ensures
        match r {
            Ok(n) => number_or_spec(key@, *v, default as nat, u16::MAX as nat) == Ok::<nat, Seq<char>>(n as nat),
            Err(e) => number_or_spec(key@, *v, default as nat, u16::MAX as nat) == Err::<nat, Seq<char>>(e.message@),
        },
{
    match v {
        EnvValue::Present(s) => match parse_u16(chars_of(s.as_str()).as_slice()) {
            Some(n) => Ok(n),
            None => Err(err_invalid(key, s.as_str())),
        },
        EnvValue::Missing => Ok(default),
        EnvValue::NotUnicode => Err(err2("failed to read ", key)),
    }
}

fn count_or(key: &str, v: &EnvValue, default: usize) -> (r: Result<usize, ConfigError>)
    ensures
        match r {
            Ok(n) => number_or_spec(key@, *v, default as nat, usize::MAX as nat) == Ok::<nat, Seq<char>>(n as nat),
            Err(e) => number_or_spec(key@, *v, default as nat, usize::MAX as nat) == Err::<nat, Seq<char>>(e.message@),
        },
{
    match v {
        EnvValue::Present(s) => match parse_usize(chars_of(s.as_str()).as_slice()) {
            Some(n) => Ok(n),
            None => Err(err_invalid(key, s.as_str())),
        },
        EnvValue::Missing => Ok(default),
        EnvValue::NotUnicode => Err(err2("failed to read ", key)),
    }
}

/// A count setting that must be at least one.
pub fn parse_positive_or(key: &str, v: &EnvValue, default: usize) -> (r: Result<usize, ConfigError>)
    ensures
        match r {
            Ok(n) => positive_or_spec(key@, *v, default as nat) == Ok::<nat, Seq<char>>(n as nat),
            Err(e) => positive_or_spec(key@, *v, default as nat) == Err::<nat, Seq<char>>(e.message@),
        },
{
    let n = count_or(key, v, default)?;
    if n == 0 {
        return Err(err2(key, " must be at least 1"));
    }
    Ok(n)
}

fn bool_or(key: &str, v: &EnvValue, default: bool) -> (r: Result<bool, ConfigError>)
    ensures
        match r {
            Ok(b) => bool_or_spec(key@, *v, default) == Ok::<bool, Seq<char>>(b),
            Err(e) => bool_or_spec(key@, *v, default) == Err::<bool, Seq<char>>(e.message@),
        },
{
    match v {
        EnvValue::Present(s) => match parse_bool(chars_of(s.as_str()).as_slice()) {
            Some(b) => Ok(b),
            None => Err(err_invalid(key, s.as_str())),
        },
        EnvValue::Missing => Ok(default),
        EnvValue::NotUnicode => Err(err2("failed to read ", key)),
    }
}

/// Reads `LUMIFLOW_ALBUM_MODE`.
pub fn parse_album_mode(v: &EnvValue) -> (r: Result<AlbumMode, ConfigError>)
    ensures
        match r {
            Ok(m) => album_mode_spec(*v) == Ok::<AlbumMode, Seq<char>>(m),
            Err(e) => album_mode_spec(*v) == Err::<AlbumMode, Seq<char>>(e.message@),
        },
{
    match v {
        EnvValue::Present(s) => {
            let c = chars_of(s.as_str());
            if eq_str(c.as_slice(), "folders") {
                Ok(AlbumMode::Folders)
            } else if eq_str(c.as_slice(), "timeline") {
                Ok(AlbumMode::Timeline)
            } else {
                Err(err3("unsupported LUMIFLOW_ALBUM_MODE `", s.as_str(), "`; expected `folders` or `timeline`"))
            }
        },
        EnvValue::Missing => Ok(AlbumMode::Folders),
        EnvValue::NotUnicode => Err(ConfigError { message: "failed to read LUMIFLOW_ALBUM_MODE".to_owned() }),
    }
}

/// Reads `LUMIFLOW_VISION_TAGGER`.
pub fn parse_vision_tagger(v: &EnvValue) -> (r: Result<VisionTagger, ConfigError>)
    ensures
        match r {
            Ok(t) => vision_tagger_spec(*v) == Ok::<VisionTagger, Seq<char>>(t),
            Err(e) => vision_tagger_spec(*v) == Err::<VisionTagger, Seq<char>>(e.message@),
        },
{
    match v {
        EnvValue::Present(s) => {
            let c = chars_of(s.as_str());
            if eq_str(c.as_slice(), "none") {
                Ok(VisionTagger::NoTagger)
            } else if eq_str(c.as_slice(), "onnx-mobileclip") {
                Ok(VisionTagger::OnnxMobileClip)
            } else if eq_str(c.as_slice(), "openvino-mobileclip") {
                Ok(VisionTagger::OpenVinoMobileClip)
            } else {
                Err(err3(
                    "unsupported LUMIFLOW_VISION_TAGGER `",
                    s.as_str(),
                    "`; expected `none`, `onnx-mobileclip`, or `openvino-mobileclip`",
                ))
            }
        },
        EnvValue::Missing => Ok(VisionTagger::NoTagger),
        EnvValue::NotUnicode => Err(ConfigError { message: "failed to read LUMIFLOW_VISION_TAGGER".to_owned() }),
    }
}

/// Reads `LUMIFLOW_PLACE_PROVIDER` against `LUMIFLOW_PLACE_BASE_URL`.
pub fn parse_place_provider(provider: &EnvValue, base_url: &EnvValue) -> (r: Result<Option<String>, ConfigError>)
    ensures
        match r {
            Ok(p) => place_provider_spec(*provider, *base_url) == Ok::<Option<Seq<char>>, Seq<char>>(opt_seq(p)),
            Err(e) => place_provider_spec(*provider, *base_url) == Err::<Option<Seq<char>>, Seq<char>>(e.message@),
        },
{
    let p = match optional_string(provider) {
        Some(p) => p,
        None => return Ok(None),
    };
    let c = chars_of(p.as_str());
    if !eq_str(c.as_slice(), "nominatim") {
        return Err(err3("unsupported LUMIFLOW_PLACE_PROVIDER `", p.as_str(), "`; expected one of: nominatim"));
    }
    if optional_string(base_url).is_none() {
        return Err(ConfigError {
            message: "LUMIFLOW_PLACE_BASE_URL must be set and non-empty when LUMIFLOW_PLACE_PROVIDER=nominatim".to_owned(),
        });
    }
    Ok(Some(p))
}

/// Reads the AI settings.
pub fn parse_ai_config(env: &ConfigEnv) -> (r: Result<AiConfig, ConfigError>)
    ensures
        match r {
            Ok(a) => ai_config_spec(*env) == Ok::<AiConfigView, Seq<char>>(a@),
            Err(e) => ai_config_spec(*env) == Err::<AiConfigView, Seq<char>>(e.message@),
        },
{
    let enabled = bool_or("LUMIFLOW_AI_ENABLED", &env.ai_enabled, false)?;
    if let Some(p) = optional_string(&env.ai_provider) {
        let c = chars_of(p.as_str());
        if !eq_str(c.as_slice(), "openai-compatible") {
            return Err(err3("unsupported LUMIFLOW_AI_PROVIDER `", p.as_str(), "`; expected `openai-compatible`"));
        }
    }
    let base_url = optional_string(&env.ai_base_url);
    let api_key = optional_string(&env.ai_api_key);
    let model = optional_string(&env.ai_model);
    if enabled && base_url.is_none() {
        return Err(err2("LUMIFLOW_AI_BASE_URL", " must be set and non-empty when LUMIFLOW_AI_ENABLED=true"));
    }
    if enabled && api_key.is_none() {
        return Err(err2("LUMIFLOW_AI_API_KEY", " must be set and non-empty when LUMIFLOW_AI_ENABLED=true"));
    }
    if enabled && model.is_none() {
        return Err(err2("LUMIFLOW_AI_MODEL", " must be set and non-empty when LUMIFLOW_AI_ENABLED=true"));
    }
    let language = non_empty_or("LUMIFLOW_AI_DESCRIPTION_LANGUAGE", &env.ai_description_language, "zh-CN")?;
    Ok(AiConfig { enabled, base_url, api_key, model, language })
}

impl Config {
    /// Reads the settings; the first setting that fails gives the error.
    pub fn from_env(env: &ConfigEnv) -> (r: Result<Config, ConfigError>)
        ensures
            match r {
                Ok(c) => config_spec(*env) == Ok::<ConfigView, Seq<char>>(c@),
                Err(e) => config_spec(*env) == Err::<ConfigView, Seq<char>>(e.message@),
            },
    {
        let photos_path = required_path("LUMIFLOW_PHOTOS_PATH", &env.photos_path)?;
        let data_path = required_path("LUMIFLOW_DATA_PATH", &env.data_path)?;
        let bind_address = match &env.bind_address {
            EnvValue::Present(s) => s.clone(),
            _ => "0.0.0.0".to_owned(),
        };
        let port = port_or("LUMIFLOW_PORT", &env.port, 4320)?;
        let builder_workers = count_or("LUMIFLOW_BUILDER_WORKERS", &env.builder_workers, 2)?;
        let exclude_regex = match &env.exclude_regex {
            EnvValue::Present(s) => s.clone(),
            _ => "(^|/)(@eaDir|#recycle|\\.DS_Store|Thumbs\\.db)(/|$)".to_owned(),
        };
        let album_mode = parse_album_mode(&env.album_mode)?;
        let timeline_timezone = non_empty_or("LUMIFLOW_TIMELINE_TIMEZONE", &env.timeline_timezone, "Asia/Shanghai")?;
        let calendar_region = non_empty_or("LUMIFLOW_CALENDAR_REGION", &env.calendar_region, "CN_COMMON")?;
        let place_provider = parse_place_provider(&env.place_provider, &env.place_base_url)?;
        let place_base_url = optional_string(&env.place_base_url);
        let vision_tagger = parse_vision_tagger(&env.vision_tagger)?;
        let vision_model_path = optional_path(&env.vision_model_path);
        let vision_labels_path = optional_path(&env.vision_labels_path);
        let vision_workers = parse_positive_or("LUMIFLOW_VISION_WORKERS", &env.vision_workers, 1)?;
        let ai = parse_ai_config(env)?;
        Ok(Config {
            photos_path,
            data_path,
            bind_address,
            port,
            builder_workers,
            exclude_regex,
            album_mode,
            timeline_timezone,
            calendar_region,
            place_provider,
            place_base_url,
            vision_tagger,
            vision_model_path,
            vision_labels_path,
            vision_workers,
            ai,
        })
    }
}


/// What every accepted configuration satisfies: the photo and data paths are not blank;
/// there is at least one vision worker; a place provider is `nominatim` and comes with
/// a base URL; enabled AI descriptions come with a base URL, an API key and a model; and
/// every optional value kept is trimmed and not empty.
pub proof fn lemma_accepted_config_is_complete(env: ConfigEnv)
    requires
        config_spec(env) is Ok,
    ensures
        ({
            let c = config_spec(env)->Ok_0;
            &&& trim_spec(c.photos_path).len() > 0
            &&& trim_spec(c.data_path).len() > 0
            &&& c.vision_workers >= 1
            &&& (c.place_provider is Some ==> c.place_provider == Some("nominatim"@)
                && c.place_base_url is Some)
            &&& (c.ai.enabled ==> c.ai.base_url is Some && c.ai.api_key is Some && c.ai.model is Some)
            &&& (forall|v: Seq<char>| #![trigger trim_spec(v)]
                (c.place_base_url == Some(v) || c.ai.base_url == Some(v) || c.ai.api_key == Some(v)
                    || c.ai.model == Some(v)) ==> v.len() > 0 && trim_spec(v) == v)
        }),
{
    let c = config_spec(env)->Ok_0;
    assert forall|v: Seq<char>| #![trigger trim_spec(v)]
        (c.place_base_url == Some(v) || c.ai.base_url == Some(v) || c.ai.api_key == Some(v)
            || c.ai.model == Some(v)) implies v.len() > 0 && trim_spec(v) == v by {
        crate::text::lemma_trim_idempotent(v);
        if c.place_base_url == Some(v) {
            lemma_optional_trimmed(env.place_base_url);
        } else if c.ai.base_url == Some(v) {
            lemma_optional_trimmed(env.ai_base_url);
        } else if c.ai.api_key == Some(v) {
            lemma_optional_trimmed(env.ai_api_key);
        } else {
            lemma_optional_trimmed(env.ai_model);
        }
    }
}

proof fn lemma_optional_trimmed(v: EnvValue)
    ensures
        optional_spec(v) matches Some(t) ==> t.len() > 0 && trim_spec(t) == t,
{
    if let EnvValue::Present(s) = v {
        crate::text::lemma_trim_idempotent(s@);
    }
}

} // verus!
