//! Album descriptions from an OpenAI-compatible Responses API: their inputs, the
//! fingerprint that decides reuse, the request text, and the checks on what comes back.
use crate::config::AiConfig;
use crate::digest::{decimal_spec, decimal_usize, hex_lower, hex_lower_spec, sha1_digest, sha1_spec, usize_be_bytes, usize_be_bytes_spec};
use crate::text::{chars_of, push_str, string_from_chars, trim, trim_spec};
use crate::timeline::albums::{date_string, date_text};
use crate::timeline::models::TimelineAlbum;
use vstd::prelude::*;
use vstd::string::StringSliceAdditionalSpecFns;
use vstd::utf8::encode_utf8;

verus! {

/// The version of the description prompt; a new version invalidates cached results.
pub const PROMPT_VERSION: &'static str = "album-description-v1";

/// The most bytes a Responses API answer may have.
pub const MAX_RESPONSE_BYTES: usize = 1_048_576;

/// The most characters of a description.
pub const MAX_DESCRIPTION_CHARS: usize = 1_000;

/// The most keywords of a description.
pub const MAX_KEYWORDS: usize = 10;

/// The most characters of a keyword.
pub const MAX_KEYWORD_CHARS: usize = 64;

/// A photo chosen for an album's contact sheet, as its description depends on it.
#[derive(Debug, Clone, PartialEq, Eq)]
pub struct SelectedPhotoSignature {
    pub photo_id: String,
    pub photo_fingerprint: String,
    pub vision_input_fingerprint: Option<String>,
}

/// What an album description is made from.
#[derive(Debug, Clone, PartialEq, Eq)]
pub struct AiDescriptionInput {
    pub album: TimelineAlbum,
    pub time_range: Option<String>,
    pub camera_summary: Vec<String>,
    pub vision_tag_summary: Vec<String>,
    pub selected_photos: Vec<SelectedPhotoSignature>,
    pub contact_sheet_path: String,
}

pub open spec fn opt_view(o: Option<String>) -> Option<Seq<char>> {
    match o {
        Some(s) => Some(s@),
        None => None,
    }
}

/// A string in the fingerprint: its UTF-8 length as a big-endian `usize`, then its bytes.
pub open spec fn fp_string(s: Seq<char>) -> Seq<u8> {
    usize_be_bytes_spec(encode_utf8(s).len() as usize) + encode_utf8(s)
}

/// An optional string in the fingerprint: `0`, or `1` and the string.
pub open spec fn fp_option(o: Option<Seq<char>>) -> Seq<u8> {
    match o {
        Some(s) => seq![1u8] + fp_string(s),
        None => seq![0u8],
    }
}

/// Strings in the fingerprint, each in turn.
pub open spec fn fp_each(v: Seq<Seq<char>>) -> Seq<u8>
    decreases v.len(),
{
    if v.len() == 0 {
        Seq::empty()
    } else {
        fp_each(v.drop_last()) + fp_string(v.last())
    }
}

/// A list of strings in the fingerprint: its count in decimal, then each string.
pub open spec fn fp_strings(v: Seq<Seq<char>>) -> Seq<u8> {
    fp_string(decimal_spec(v.len())) + fp_each(v)
}

/// The selected photos in the fingerprint.
pub open spec fn fp_photos(v: Seq<SelectedPhotoSignature>) -> Seq<u8>
    decreases v.len(),
{
    if v.len() == 0 {
        Seq::empty()
    } else {
        fp_photos(v.drop_last()) + fp_string(v.last().photo_id@) + fp_string(v.last().photo_fingerprint@)
            + fp_option(opt_view(v.last().vision_input_fingerprint))
    }
}

pub open spec fn date_view(d: Option<crate::timeline::calendar::CivilDate>) -> Option<Seq<char>> {
    match d {
        Some(x) => Some(date_text(x)),
        None => None,
    }
}

pub open spec fn views(v: Seq<String>) -> Seq<Seq<char>> {
    v.map_values(|s: String| s@)
}

/// Everything a description depends on, in a fixed order, each part length-prefixed so
/// that different inputs give different bytes.
pub open spec fn fingerprint_input(input: AiDescriptionInput, prompt_version: Seq<char>) -> Seq<u8> {
    fp_string(prompt_version) + fp_string(input.album.id@) + fp_string(input.album.name@)
        + fp_option(date_view(input.album.date_start)) + fp_option(date_view(input.album.date_end))
        + fp_option(opt_view(input.album.place)) + fp_option(opt_view(input.album.holiday))
        + fp_string(decimal_spec(input.album.photo_count as nat)) + fp_option(opt_view(input.album.cover_photo_id))
        + fp_option(opt_view(input.time_range)) + fp_strings(views(input.camera_summary@))
        + fp_strings(views(input.vision_tag_summary@)) + fp_string(decimal_spec(input.selected_photos@.len()))
        + fp_photos(input.selected_photos@)
}

/// The fingerprint of a description's input: lower-case hex SHA-1 of
/// [`fingerprint_input`].
pub open spec fn input_fingerprint_spec(input: AiDescriptionInput, prompt_version: Seq<char>) -> Seq<char> {
    hex_lower_spec(sha1_spec(fingerprint_input(input, prompt_version)))
}

fn push_bytes(out: &mut Vec<u8>, b: &[u8])
    ensures
        final(out)@ == old(out)@ + b@,
{
    let ghost start = out@;
    let mut i: usize = 0;
    while i < b.len()
        invariant
            i <= b@.len(),
            out@ == start + b@.subrange(0, i as int),
        decreases b@.len() - i,
    {
        out.push(b[i]);
        i = i + 1;
        assert(out@ =~= start + b@.subrange(0, i as int));
    }
    assert(b@.subrange(0, b@.len() as int) =~= b@);
}

fn add_string(out: &mut Vec<u8>, s: &str)
    ensures
        final(out)@ == old(out)@ + fp_string(s@),
{
    let b = s.as_bytes();
    assert(s.spec_bytes() == encode_utf8(s@));
    let len = usize_be_bytes(b.len());
    push_bytes(out, len.as_slice());
    push_bytes(out, b);
    assert(final(out)@ =~= old(out)@ + fp_string(s@));
}

fn add_option(out: &mut Vec<u8>, o: &Option<String>)
    ensures
        final(out)@ == old(out)@ + fp_option(opt_view(*o)),
{
    match o {
        Some(s) => {
            out.push(1u8);
            add_string(out, s.as_str());
        },
        None => out.push(0u8),
    }
    assert(final(out)@ =~= old(out)@ + fp_option(opt_view(*o)));
}

fn add_strings(out: &mut Vec<u8>, v: &[String])
    ensures
        final(out)@ == old(out)@ + fp_strings(views(v@)),
{
    let count = decimal_usize(v.len());
    add_string(out, count.as_str());
    let ghost start = out@;
    let mut i: usize = 0;
    while i < v.len()
        invariant
            i <= v@.len(),
            out@ == start + fp_each(views(v@.subrange(0, i as int))),
        decreases v@.len() - i,
    {
        add_string(out, v[i].as_str());
        assert(views(v@.subrange(0, i + 1)).drop_last() =~= views(v@.subrange(0, i as int)));
        i = i + 1;
        assert(out@ =~= start + fp_each(views(v@.subrange(0, i as int))));
    }
    assert(v@.subrange(0, v@.len() as int) =~= v@);
    assert(final(out)@ =~= old(out)@ + fp_strings(views(v@)));
}

/// The fingerprint of a description's input.
pub fn input_fingerprint(input: &AiDescriptionInput, prompt_version: &str) -> (r: String)
    ensures
        r@ == input_fingerprint_spec(*input, prompt_version@),
{
    let mut out: Vec<u8> = Vec::new();
    add_string(&mut out, prompt_version);
    add_string(&mut out, input.album.id.as_str());
    add_string(&mut out, input.album.name.as_str());
    let start = match input.album.date_start {
        Some(d) => Some(date_string(d)),
        None => None,
    };
    add_option(&mut out, &start);
    let end = match input.album.date_end {
        Some(d) => Some(date_string(d)),
        None => None,
    };
    add_option(&mut out, &end);
    add_option(&mut out, &input.album.place);
    add_option(&mut out, &input.album.holiday);
    let count = decimal_usize(input.album.photo_count);
    add_string(&mut out, count.as_str());
    add_option(&mut out, &input.album.cover_photo_id);
    add_option(&mut out, &input.time_range);
    add_strings(&mut out, input.camera_summary.as_slice());
    add_strings(&mut out, input.vision_tag_summary.as_slice());
    let n = decimal_usize(input.selected_photos.len());
    add_string(&mut out, n.as_str());
    let ghost before = out@;
    let mut i: usize = 0;
    while i < input.selected_photos.len()
        invariant
            i <= input.selected_photos@.len(),
            out@ == before + fp_photos(input.selected_photos@.subrange(0, i as int)),
        decreases input.selected_photos@.len() - i,
    {
        let p = &input.selected_photos[i];
        add_string(&mut out, p.photo_id.as_str());
        add_string(&mut out, p.photo_fingerprint.as_str());
        add_option(&mut out, &p.vision_input_fingerprint);
        assert(input.selected_photos@.subrange(0, i + 1).drop_last() =~= input.selected_photos@.subrange(0, i as int));
        i = i + 1;
        assert(out@ =~= before + fp_photos(input.selected_photos@.subrange(0, i as int)));
    }
    assert(input.selected_photos@.subrange(0, input.selected_photos@.len() as int) =~= input.selected_photos@);
    assert(out@ =~= fingerprint_input(*input, prompt_version@));
    let digest = sha1_digest(out.as_slice());
    hex_lower(digest.as_slice())
}

/// A required setting: trimmed, and not blank (`NAME is required`).
pub open spec fn required_config_spec(name: Seq<char>, value: Option<Seq<char>>) -> Result<Seq<char>, Seq<char>> {
    match value {
        Some(v) => if trim_spec(v).len() > 0 {
            Ok(trim_spec(v))
        } else {
            Err(name + " is required"@)
        },
        None => Err(name + " is required"@),
    }
}

/// A required AI setting, trimmed.
pub fn required_config(name: &str, value: Option<&str>) -> (r: Result<String, String>)
    ensures
        match r {
            Ok(v) => required_config_spec(name@, match value {
                Some(s) => Some(s@),
                None => None,
            }) == Ok::<Seq<char>, Seq<char>>(v@),
            Err(e) => required_config_spec(name@, match value {
                Some(s) => Some(s@),
                None => None,
            }) == Err::<Seq<char>, Seq<char>>(e@),
        },
{
    if let Some(v) = value {
        let c = chars_of(v);
        let t = trim(c.as_slice());
        if t.len() > 0 {
            return Ok(string_from_chars(t.as_slice()));
        }
    }
    let mut e = name.to_owned();
    push_str(&mut e, " is required");
    Err(e)
}

/// A list in the prompt: its values joined by `, `, or `none`.
pub open spec fn summary_spec(values: Seq<Seq<char>>) -> Seq<char>
    decreases values.len(),
{
    if values.len() == 0 {
        "none"@
    } else if values.len() == 1 {
        values[0]
    } else {
        summary_spec(values.drop_last()) + ", "@ + values.last()
    }
}

/// Joins a list for the prompt.
pub fn summary(values: &[String]) -> (r: String)
    ensures
        r@ == summary_spec(views(values@)),
{
    if values.len() == 0 {
        return "none".to_owned();
    }
    let mut r = values[0].clone();
    let mut i: usize = 1;
    assert(views(values@.subrange(0, 1)) =~= seq![values@[0]@]);
    while i < values.len()
        invariant
            1 <= i <= values@.len(),
            r@ == summary_spec(views(values@.subrange(0, i as int))),
        decreases values@.len() - i,
    {
        push_str(&mut r, ", ");
        push_str(&mut r, values[i].as_str());
        assert(views(values@.subrange(0, i + 1)).drop_last() =~= views(values@.subrange(0, i as int)));
        i = i + 1;
    }
    assert(values@.subrange(0, values@.len() as int) =~= values@);
    r
}

/// The dates of an album in the prompt: `START to END` when they differ, the one date
/// when there is one, `unknown` when there is none.
pub open spec fn date_range_spec(album: TimelineAlbum) -> Seq<char> {
    match (album.date_start, album.date_end) {
        (Some(s), Some(e)) => if s != e {
            date_text(s) + " to "@ + date_text(e)
        } else {
            date_text(s)
        },
        (Some(d), None) => date_text(d),
        (None, Some(d)) => date_text(d),
        (None, None) => "unknown"@,
    }
}

/// The album's dates for the prompt.
pub fn date_range(input: &AiDescriptionInput) -> (r: String)
    ensures
        r@ == date_range_spec(input.album),
{
    match (input.album.date_start, input.album.date_end) {
        (Some(s), Some(e)) => {
            if s != e {
                let mut r = date_string(s);
                push_str(&mut r, " to ");
                let t = date_string(e);
                push_str(&mut r, t.as_str());
                r
            } else {
                date_string(s)
            }
        },
        (Some(d), None) => date_string(d),
        (None, Some(d)) => date_string(d),
        (None, None) => "unknown".to_owned(),
    }
}

/// An optional value in the prompt, or a stand-in.
pub open spec fn or_text(o: Option<String>, fallback: Seq<char>) -> Seq<char> {
    match o {
        Some(s) => s@,
        None => fallback,
    }
}

/// The instruction sent with the contact sheet.
pub open spec fn prompt_spec(language: Seq<char>, input: AiDescriptionInput) -> Seq<char> {
    "Describe this photo album in "@ + language
        + ". Return only the requested structured JSON. Do not create or change a title. Base the description only on the contact sheet and metadata.\nAlbum name: "@
        + input.album.name@ + "\nDate range: "@ + date_range_spec(input.album) + "\nTime range: "@
        + or_text(input.time_range, "unknown"@) + "\nPlace: "@ + or_text(input.album.place, "unknown"@)
        + "\nHoliday: "@ + or_text(input.album.holiday, "none"@) + "\nPhoto count: "@
        + decimal_spec(input.album.photo_count as nat) + "\nCameras: "@ + summary_spec(views(input.camera_summary@))
        + "\nVision tags: "@ + summary_spec(views(input.vision_tag_summary@))
}

fn push_or(s: &mut String, o: &Option<String>, fallback: &str)
    ensures
        final(s)@ == old(s)@ + or_text(*o, fallback@),
{
    match o {
        Some(v) => push_str(s, v.as_str()),
        None => push_str(s, fallback),
    }
}

/// Writes the instruction for an album.
pub fn prompt(language: &str, input: &AiDescriptionInput) -> (r: String)
    ensures
        r@ == prompt_spec(language@, *input),
{
    let mut r = "Describe this photo album in ".to_owned();
    push_str(&mut r, language);
    push_str(&mut r, ". Return only the requested structured JSON. Do not create or change a title. Base the description only on the contact sheet and metadata.\nAlbum name: ");
    push_str(&mut r, input.album.name.as_str());
    push_str(&mut r, "\nDate range: ");
    let dr = date_range(input);
    push_str(&mut r, dr.as_str());
    push_str(&mut r, "\nTime range: ");
    push_or(&mut r, &input.time_range, "unknown");
    push_str(&mut r, "\nPlace: ");
    push_or(&mut r, &input.album.place, "unknown");
    push_str(&mut r, "\nHoliday: ");
    push_or(&mut r, &input.album.holiday, "none");
    push_str(&mut r, "\nPhoto count: ");
    let count = decimal_usize(input.album.photo_count);
    push_str(&mut r, count.as_str());
    push_str(&mut r, "\nCameras: ");
    let cameras = summary(input.camera_summary.as_slice());
    push_str(&mut r, cameras.as_str());
    push_str(&mut r, "\nVision tags: ");
    let tags = summary(input.vision_tag_summary.as_slice());
    push_str(&mut r, tags.as_str());
    r
}

/// One content part of a Responses API output item.
#[derive(Debug, Clone, PartialEq, Eq)]
pub enum ResponseContent {
    OutputText(String),
    Refusal(String),
    Other,
}

/// One output item of a Responses API answer.
#[derive(Debug, Clone, PartialEq, Eq)]
pub struct ResponseOutputItem {
    pub kind: String,
    pub content: Vec<ResponseContent>,
}

/// A Responses API answer, as far as it is read.
#[derive(Debug, Clone, Default, PartialEq, Eq)]
pub struct ResponsesEnvelope {
    pub output: Vec<ResponseOutputItem>,
}

/// The first text or refusal among the contents, if any.
pub open spec fn first_content(c: Seq<ResponseContent>) -> Option<Result<Seq<char>, ()>>
    decreases c.len(),
{
    if c.len() == 0 {
        None
    } else {
        match c[0] {
            ResponseContent::OutputText(t) => Some(Ok(t@)),
            ResponseContent::Refusal(_) => Some(Err(())),
            ResponseContent::Other => first_content(c.drop_first()),
        }
    }
}

/// The first text or refusal of a `message` item, in order.
pub open spec fn first_message_content(items: Seq<ResponseOutputItem>) -> Option<Result<Seq<char>, ()>>
    decreases items.len(),
{
    if items.len() == 0 {
        None
    } else if items[0].kind@ == "message"@ {
        match first_content(items[0].content@) {
            Some(r) => Some(r),
            None => first_message_content(items.drop_first()),
        }
    } else {
        first_message_content(items.drop_first())
    }
}

/// The text of an answer: the first `output_text` of a `message` item, unless a refusal
/// comes first.
pub open spec fn extract_output_text_spec(e: ResponsesEnvelope) -> Result<Seq<char>, Seq<char>> {
    match first_message_content(e.output@) {
        Some(Ok(t)) => Ok(t),
        Some(Err(())) => Err("Responses API refused the album description request"@),
        None => Err("Responses API response has no message output_text"@),
    }
}

fn content_result(c: &[ResponseContent]) -> (r: Option<Result<String, ()>>)
    ensures
        match r {
            Some(Ok(t)) => first_content(c@) == Some(Ok::<Seq<char>, ()>(t@)),
            Some(Err(())) => first_content(c@) == Some(Err::<Seq<char>, ()>(())),
            None => first_content(c@) is None,
        },
{
    let mut i: usize = 0;
    assert(c@.subrange(0, c@.len() as int) =~= c@);
    while i < c.len()
        invariant
            i <= c@.len(),
            first_content(c@) == first_content(c@.subrange(i as int, c@.len() as int)),
        decreases c@.len() - i,
    {
        let ghost rest = c@.subrange(i as int, c@.len() as int);
        assert(rest[0] == c@[i as int]);
        assert(rest.drop_first() =~= c@.subrange(i + 1, c@.len() as int));
        match &c[i] {
            ResponseContent::OutputText(t) => return Some(Ok(t.clone())),
            ResponseContent::Refusal(_) => return Some(Err(())),
            ResponseContent::Other => {},
        }
        i = i + 1;
    }
    None
}

/// Finds the text of an answer.
pub fn extract_output_text(response: &ResponsesEnvelope) -> (r: Result<String, String>)
    ensures
        match r {
            Ok(t) => extract_output_text_spec(*response) == Ok::<Seq<char>, Seq<char>>(t@),
            Err(e) => extract_output_text_spec(*response) == Err::<Seq<char>, Seq<char>>(e@),
        },
{
    let items = &response.output;
    let mut i: usize = 0;
    assert(items@.subrange(0, items@.len() as int) =~= items@);
    while i < items.len()
        invariant
            i <= items@.len(),
            items@ == response.output@,
            first_message_content(items@) == first_message_content(items@.subrange(i as int, items@.len() as int)),
        decreases items@.len() - i,
    {
        let ghost rest = items@.subrange(i as int, items@.len() as int);
        assert(rest[0] == items@[i as int]);
        assert(rest.drop_first() =~= items@.subrange(i + 1, items@.len() as int));
        let kind = chars_of(items[i].kind.as_str());
        if crate::text::eq_str(kind.as_slice(), "message") {
            assert(rest[0].kind@ == "message"@);
            match content_result(items[i].content.as_slice()) {
                Some(Ok(t)) => {
                    assert(first_message_content(rest) == Some(Ok::<Seq<char>, ()>(t@)));
                    assert(first_message_content(response.output@) == Some(Ok::<Seq<char>, ()>(t@)));
                    assert(extract_output_text_spec(*response) == Ok::<Seq<char>, Seq<char>>(t@));
                    return Ok(t);
                },
                Some(Err(())) => {
                    assert(first_message_content(rest) == Some(Err::<Seq<char>, ()>(())));
                    return Err("Responses API refused the album description request".to_owned());
                },
                None => {},
            }
        }
        i = i + 1;
    }
    Err("Responses API response has no message output_text".to_owned())
}

/// A description's text fields are within bounds: 1 to 1000 characters and not blank;
/// at most 10 keywords of 1 to 64 characters, none blank; and its confidence, which is
/// a floating-point number checked outside the library, is finite and within `0..=1`.
pub open spec fn validate_output_spec(description: Seq<char>, keywords: Seq<Seq<char>>, confidence_ok: bool) -> Result<(), Seq<char>> {
    if !(1 <= description.len() <= MAX_DESCRIPTION_CHARS && trim_spec(description).len() > 0) {
        Err("description must contain 1 to 1000 characters"@)
    } else if keywords.len() > MAX_KEYWORDS {
        Err("keywords must contain at most 10 entries"@)
    } else if exists|k: int| 0 <= k < keywords.len() && !(1 <= (#[trigger] keywords[k]).len() <= MAX_KEYWORD_CHARS && trim_spec(keywords[k]).len() > 0) {
        Err("each keyword must contain 1 to 64 characters"@)
    } else if !confidence_ok {
        Err("confidence must be finite and between 0 and 1"@)
    } else {
        Ok(())
    }
}

/// Checks a description against its bounds.
pub fn validate_output(description: &str, keywords: &[String], confidence_ok: bool) -> (r: Result<(), String>)
    ensures
        match r {
            Ok(()) => validate_output_spec(description@, views(keywords@), confidence_ok) == Ok::<(), Seq<char>>(()),
            Err(e) => validate_output_spec(description@, views(keywords@), confidence_ok) == Err::<(), Seq<char>>(e@),
        },
{
    let d = chars_of(description);
    if !(1 <= d.len() && d.len() <= MAX_DESCRIPTION_CHARS && trim(d.as_slice()).len() > 0) {
        return Err("description must contain 1 to 1000 characters".to_owned());
    }
    if keywords.len() > MAX_KEYWORDS {
        return Err("keywords must contain at most 10 entries".to_owned());
    }
    let mut i: usize = 0;
    while i < keywords.len()
        invariant
            i <= keywords@.len(),
            keywords@.len() <= MAX_KEYWORDS,
            1 <= description@.len() <= MAX_DESCRIPTION_CHARS && trim_spec(description@).len() > 0,
            forall|k: int| 0 <= k < i ==> 1 <= (#[trigger] views(keywords@)[k]).len() <= MAX_KEYWORD_CHARS && trim_spec(views(keywords@)[k]).len() > 0,
        decreases keywords@.len() - i,
    {
        let k = chars_of(keywords[i].as_str());
        let ghost kw = views(keywords@);
        assert(kw[i as int] == keywords@[i as int]@);
        if !(1 <= k.len() && k.len() <= MAX_KEYWORD_CHARS && trim(k.as_slice()).len() > 0) {
            assert(!(1 <= kw[i as int].len() <= MAX_KEYWORD_CHARS && trim_spec(kw[i as int]).len() > 0));
            assert(exists|k2: int| 0 <= k2 < kw.len() && !(1 <= (#[trigger] kw[k2]).len() <= MAX_KEYWORD_CHARS && trim_spec(kw[k2]).len() > 0));
            return Err("each keyword must contain 1 to 64 characters".to_owned());
        }
        i = i + 1;
    }
    if !confidence_ok {
        return Err("confidence must be finite and between 0 and 1".to_owned());
    }
    Ok(())
}

/// A cached description is reused when it was made from the same input by the same
/// model and did not fail.
pub fn cached_is_reusable(cached_fingerprint: &str, cached_model: &str, cached_failed: bool, fingerprint: &str, model: &str) -> (r: bool)
    ensures
        r == (cached_fingerprint@ == fingerprint@ && cached_model@ == model@ && !cached_failed),
{
    let a = chars_of(cached_fingerprint);
    let b = chars_of(fingerprint);
    let c = chars_of(cached_model);
    let d = chars_of(model);
    crate::text::chars_eq(a.as_slice(), b.as_slice()) && crate::text::chars_eq(c.as_slice(), d.as_slice()) && !cached_failed
}

/// Whether a body that has `current` bytes may take a chunk of `chunk` more.
pub fn body_fits(current: usize, chunk: usize, limit: usize) -> (r: bool)
    ensures
        r == (current + chunk <= limit || (current + chunk > usize::MAX && usize::MAX <= limit)),
{
    let total = current.saturating_add(chunk);
    total <= limit
}

/// Whether a declared body length is over the limit.
pub fn declared_length_exceeds(length: Option<u64>, limit: usize) -> (r: bool)
    ensures
        r == (length matches Some(l) && l > limit),
{
    match length {
        Some(l) => l > limit as u64,
        None => false,
    }
}

/// Whether bytes start like a JPEG file.
pub fn is_jpeg(bytes: &[u8]) -> (r: bool)
    ensures
        r == (bytes@.len() >= 2 && bytes@[0] == 0xff && bytes@[1] == 0xd8),
{
    bytes.len() >= 2 && bytes[0] == 0xff && bytes[1] == 0xd8
}

/// The Responses endpoint under a base URL, parsed: `AI base URL is required` when the
/// base is blank, ``invalid AI base URL `BASE` `` when the endpoint does not parse.
pub open spec fn responses_endpoint_spec(base_url: Seq<char>) -> Result<Seq<char>, Seq<char>> {
    if crate::endpoint::trimmed_base(base_url).len() == 0 {
        Err("AI base URL is required"@)
    } else {
        match crate::endpoint::url_parse_spec(crate::endpoint::endpoint_text(base_url, "responses"@)) {
            Some(p) => Ok(p.1),
            None => Err("invalid AI base URL `"@ + base_url + "`"@),
        }
    }
}

/// The URL requests are sent to, in its parsed form.
pub fn responses_endpoint(base_url: &str) -> (r: Result<String, String>)
    ensures
        match r {
            Ok(u) => responses_endpoint_spec(base_url@) == Ok::<Seq<char>, Seq<char>>(u@),
            Err(e) => responses_endpoint_spec(base_url@) == Err::<Seq<char>, Seq<char>>(e@),
        },
{
    let endpoint = match crate::endpoint::endpoint_under(base_url, "responses") {
        Some(e) => e,
        None => return Err("AI base URL is required".to_owned()),
    };
    match crate::endpoint::parse_url(endpoint.as_str()) {
        Some((_, serialized)) => Ok(serialized),
        None => {
            let mut e = "invalid AI base URL `".to_owned();
            push_str(&mut e, base_url);
            push_str(&mut e, "`");
            Err(e)
        },
    }
}

/// What a client of the Responses API is configured with.
#[derive(Debug, Clone, PartialEq, Eq)]
pub struct AiClientSettings {
    pub endpoint: String,
    pub api_key: String,
    pub model: String,
    pub language: String,
}

pub open spec fn opt_text(o: Option<String>) -> Option<Seq<char>> {
    match o {
        Some(s) => Some(s@),
        None => None,
    }
}

/// The client settings of enabled AI settings, checked in order: enabled, base URL, key,
/// model, language, then the endpoint.
pub open spec fn client_settings_spec(c: AiConfig) -> Result<(Seq<char>, Seq<char>, Seq<char>, Seq<char>), Seq<char>> {
    if !c.enabled {
        Err("album AI descriptions are disabled"@)
    } else {
        match required_config_spec("AI base URL"@, opt_text(c.base_url)) {
            Err(e) => Err(e),
            Ok(base) => match required_config_spec("AI API key"@, opt_text(c.api_key)) {
                Err(e) => Err(e),
                Ok(key) => match required_config_spec("AI model"@, opt_text(c.model)) {
                    Err(e) => Err(e),
                    Ok(model) => match required_config_spec("AI language"@, Some(c.language@)) {
                        Err(e) => Err(e),
                        Ok(language) => match responses_endpoint_spec(base) {
                            Err(e) => Err(e),
                            Ok(endpoint) => Ok((endpoint, key, model, language)),
                        },
                    },
                },
            },
        }
    }
}

fn opt_str(o: &Option<String>) -> (r: Option<&str>)
    ensures
        match r {
            Some(s) => o matches Some(t) && s@ == t@,
            None => o is None,
        },
{
    match o {
        Some(s) => Some(s.as_str()),
        None => None,
    }
}

impl AiClientSettings {
    /// The client settings of the AI settings.
    pub fn from_config(config: &AiConfig) -> (r: Result<AiClientSettings, String>)
        ensures
            match r {
                Ok(s) => client_settings_spec(*config) == Ok::<(Seq<char>, Seq<char>, Seq<char>, Seq<char>), Seq<char>>((s.endpoint@, s.api_key@, s.model@, s.language@)),
                Err(e) => client_settings_spec(*config) == Err::<(Seq<char>, Seq<char>, Seq<char>, Seq<char>), Seq<char>>(e@),
            },
    {
        if !config.enabled {
            return Err("album AI descriptions are disabled".to_owned());
        }
        let base_url = required_config("AI base URL", opt_str(&config.base_url))?;
        let api_key = required_config("AI API key", opt_str(&config.api_key))?;
        let model = required_config("AI model", opt_str(&config.model))?;
        let language = required_config("AI language", Some(config.language.as_str()))?;
        let endpoint = responses_endpoint(base_url.as_str())?;
        Ok(AiClientSettings { endpoint, api_key, model, language })
    }
}

} // verus!
