//! Service endpoints: URL parsing through `reqwest`'s `Url`, and base64 data URLs.
use crate::text::{chars_of, push_str, str_ends_with, string_from_chars, trim, trim_char_spec, trim_spec};
use vstd::prelude::*;

verus! {

/// `Url::parse(text)`: the scheme and serialisation of the parsed URL, if it parses.
pub uninterp spec fn url_parse_spec(text: Seq<char>) -> Option<(Seq<char>, Seq<char>)>;

/// `reqwest::Url::parse`, then `scheme()` and `as_str()`. Trusted: the result is the
/// named parse of the text.
#[verifier::external_body]
pub(crate) fn parse_url(text: &str) -> (r: Option<(String, String)>)
    ensures
        match r {
            Some(p) => url_parse_spec(text@) == Some((p.0@, p.1@)),
            None => url_parse_spec(text@) is None,
        },
{
    let url = reqwest::Url::parse(text).ok()?;
    Some((url.scheme().to_owned(), url.as_str().to_owned()))
}

/// Standard base64 (with padding) of some bytes.
pub uninterp spec fn base64_spec(bytes: Seq<u8>) -> Seq<char>;

/// `base64::engine::general_purpose::STANDARD.encode`. Trusted: the result is the named
/// encoding of the bytes.
#[verifier::external_body]
pub(crate) fn base64_encode(bytes: &[u8]) -> (r: String)
    ensures
        r@ == base64_spec(bytes@),
{
    base64::Engine::encode(&base64::engine::general_purpose::STANDARD, bytes)
}

/// A JPEG image as a `data:` URL.
pub open spec fn jpeg_data_url_spec(jpeg: Seq<u8>) -> Seq<char> {
    "data:image/jpeg;base64,"@ + base64_spec(jpeg)
}

/// Embeds a JPEG image in a `data:` URL.
pub fn jpeg_data_url(jpeg: &[u8]) -> (r: String)
    ensures
        r@ == jpeg_data_url_spec(jpeg@),
{
    let mut r = "data:image/jpeg;base64,".to_owned();
    let encoded = base64_encode(jpeg);
    push_str(&mut r, encoded.as_str());
    r
}

/// A base URL trimmed of white space and then of trailing `/`.
pub open spec fn trimmed_base(base: Seq<char>) -> Seq<char> {
    crate::exif::trim_end_spec(trim_spec(base), '/')
}

/// The endpoint under a base URL: the base itself when it already ends in `/suffix`,
/// else the base with `/suffix` appended.
pub open spec fn endpoint_text(base: Seq<char>, suffix: Seq<char>) -> Seq<char> {
    let t = trimmed_base(base);
    let tail = seq!['/'] + suffix;
    if tail.len() <= t.len() && t.subrange(t.len() - tail.len(), t.len() as int) == tail {
        t
    } else {
        t + tail
    }
}

/// Builds the endpoint text under a base URL; `None` when the base is blank.
pub fn endpoint_under(base: &str, suffix: &str) -> (r: Option<String>)
    ensures
        match r {
            Some(s) => trimmed_base(base@).len() > 0 && s@ == endpoint_text(base@, suffix@),
            None => trimmed_base(base@).len() == 0,
        },
{
    let c = chars_of(base);
    let t0 = trim(c.as_slice());
    let t = crate::exif::trim_end_chars(t0.as_slice(), '/');
    if t.len() == 0 {
        return None;
    }
    let text = string_from_chars(t.as_slice());
    let mut tail = "/".to_owned();
    push_str(&mut tail, suffix);
    proof {
        reveal_strlit("/");
        assert(tail@ =~= seq!['/'] + suffix@);
    }
    if str_ends_with(text.as_str(), tail.as_str()) {
        Some(text)
    } else {
        let mut e = text;
        push_str(&mut e, tail.as_str());
        Some(e)
    }
}

} // verus!
