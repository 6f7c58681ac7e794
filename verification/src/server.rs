//! Decisions behind photo and frontend serving: byte ranges, content types, download
//! headers and which embedded asset answers a path.
use crate::num::{parse_unsigned, parse_unsigned_spec};
use crate::paths::{extension, extension_spec};
use crate::text::{chars_of, eq_str};
use crate::timeline::scan::supported_extensions;
use vstd::prelude::*;

verus! {

/// The number of occurrences of `c` in `s`.
pub open spec fn count_char(s: Seq<char>, c: char) -> nat
    decreases s.len(),
{
    if s.len() == 0 {
        0
    } else {
        count_char(s.drop_last(), c) + if s.last() == c {
            1nat
        } else {
            0nat
        }
    }
}

/// The index of the first occurrence of `c` in `s`, or `s.len()`.
pub open spec fn first_index_of(s: Seq<char>, c: char) -> int
    decreases s.len(),
{
    if s.len() == 0 {
        0
    } else if s[0] == c {
        0
    } else {
        1 + first_index_of(s.drop_first(), c)
    }
}

/// The byte range an HTTP `Range` header asks for, as an inclusive `(start, end)` pair
/// within a file of `size` bytes: `bytes=a-b`, `bytes=a-` (to the end) or `bytes=-n`
/// (the last `n` bytes); none when the header is malformed or the range is empty or
/// reaches past the file.
pub open spec fn parse_range_spec(header: Seq<char>, size: nat) -> Option<(nat, nat)> {
    let prefix = seq!['b', 'y', 't', 'e', 's', '='];
    if header.len() < 6 || header.subrange(0, 6) != prefix {
        None
    } else {
        let rest = header.subrange(6, header.len() as int);
        if count_char(rest, '-') != 1 {
            None
        } else {
            let k = first_index_of(rest, '-');
            let a = rest.subrange(0, k);
            let b = rest.subrange(k + 1, rest.len() as int);
            let start: Option<int> = if a.len() == 0 {
                match parse_unsigned_spec(b, 0x7fff_ffff_ffff_ffff) {
                    Some(suffix) => Some(if suffix >= size {
                        0int
                    } else {
                        size - suffix
                    }),
                    None => None,
                }
            } else {
                match parse_unsigned_spec(a, u64::MAX as nat) {
                    Some(v) => Some(v as int),
                    None => None,
                }
            };
            let end: Option<int> = if b.len() == 0 {
                Some(size - 1)
            } else {
                match parse_unsigned_spec(b, u64::MAX as nat) {
                    Some(v) => Some(v as int),
                    None => None,
                }
            };
            match (start, end) {
                (Some(s), Some(e)) => if s > e || e >= size {
                    None
                } else {
                    Some((s as nat, e as nat))
                },
                _ => None,
            }
        }
    }
}

proof fn lemma_first_index_bounds(s: Seq<char>, c: char)
    ensures
        0 <= first_index_of(s, c) <= s.len(),
        first_index_of(s, c) < s.len() ==> s[first_index_of(s, c)] == c,
        forall|j: int| 0 <= j < first_index_of(s, c) ==> s[j] != c,
        count_char(s, c) > 0 <==> first_index_of(s, c) < s.len(),
    decreases s.len(),
{
    if s.len() > 0 {
        lemma_first_index_bounds(s.drop_first(), c);
        lemma_count_first(s, c);
        assert forall|j: int| 0 <= j < first_index_of(s, c) implies s[j] != c by {
            if j > 0 {
                assert(s[j] == s.drop_first()[j - 1]);
            }
        }
    }
}

proof fn lemma_count_first(s: Seq<char>, c: char)
    requires
        s.len() > 0,
    ensures
        count_char(s, c) == count_char(s.drop_first(), c) + if s[0] == c {
            1nat
        } else {
            0nat
        },
    decreases s.len(),
{
    if s.len() > 1 {
        lemma_count_first(s.drop_last(), c);
        assert(s.drop_last().drop_first() =~= s.drop_first().drop_last());
        assert(s.drop_last()[0] == s[0]);
        assert(s.drop_first().last() == s.last());
        assert(count_char(s.drop_first(), c) == count_char(s.drop_first().drop_last(), c) + if s.last() == c {
            1nat
        } else {
            0nat
        });
    } else {
        assert(s.drop_first().len() == 0);
        assert(s.drop_last().len() == 0);
        assert(s.last() == s[0]);
        assert(count_char(s.drop_last(), c) == 0);
        assert(count_char(s.drop_first(), c) == 0);
    }
}

/// Counts the occurrences of `c` and finds the first one.
fn count_and_first(s: &[char], c: char) -> (r: (usize, usize))
    ensures
        r.0 == count_char(s@, c),
        r.1 == first_index_of(s@, c),
{
    proof {
        lemma_first_index_bounds(s@, c);
    }
    let mut count: usize = 0;
    let mut first: usize = s.len();
    let mut i: usize = 0;
    while i < s.len()
        invariant
            i <= s@.len(),
            count == count_char(s@.subrange(0, i as int), c),
            count <= i,
            first_index_of(s@, c) < i ==> first == first_index_of(s@, c),
            first_index_of(s@, c) >= i ==> first == s@.len(),
            0 <= first_index_of(s@, c) <= s@.len(),
            first_index_of(s@, c) < s@.len() ==> s@[first_index_of(s@, c)] == c,
            forall|j: int| 0 <= j < first_index_of(s@, c) ==> s@[j] != c,
        decreases s@.len() - i,
    {
        assert(s@.subrange(0, i + 1).drop_last() =~= s@.subrange(0, i as int));
        if s[i] == c {
            count = count + 1;
            if first == s.len() {
                first = i;
            }
        }
        i = i + 1;
    }
    assert(s@.subrange(0, s@.len() as int) =~= s@);
    (count, first)
}

/// Parses an HTTP `Range` header against a file size.
pub fn parse_range(range: &str, file_size: u64) -> (r: Option<(u64, u64)>)
    ensures
        match r {
            Some((s, e)) => parse_range_spec(range@, file_size as nat) == Some((s as nat, e as nat)),
            None => parse_range_spec(range@, file_size as nat) is None,
        },
        r matches Some((s, e)) ==> s <= e < file_size,
{
    let h = chars_of(range);
    let prefix = ['b', 'y', 't', 'e', 's', '='];
    assert(prefix@ =~= seq!['b', 'y', 't', 'e', 's', '=']);
    if h.len() < 6 {
        return None;
    }
    let head = crate::text::slice_range(h.as_slice(), 0, 6);
    if !crate::text::chars_eq(head.as_slice(), prefix.as_slice()) {
        return None;
    }
    let rest = crate::text::slice_range(h.as_slice(), 6, h.len());
    let (count, k) = count_and_first(rest.as_slice(), '-');
    if count != 1 {
        return None;
    }
    proof {
        lemma_first_index_bounds(rest@, '-');
    }
    let a = crate::text::slice_range(rest.as_slice(), 0, k);
    let b = crate::text::slice_range(rest.as_slice(), k + 1, rest.len());
    let start: u64 = if a.len() == 0 {
        match parse_unsigned(b.as_slice(), 0x7fff_ffff_ffff_ffff) {
            Some(suffix) => file_size.saturating_sub(suffix),
            None => return None,
        }
    } else {
        match parse_unsigned(a.as_slice(), u64::MAX) {
            Some(v) => v,
            None => return None,
        }
    };
    let end: u64 = if b.len() == 0 {
        if file_size == 0 {
            return None;
        }
        file_size - 1
    } else {
        match parse_unsigned(b.as_slice(), u64::MAX) {
            Some(v) => v,
            None => return None,
        }
    };
    if start > end || end >= file_size {
        None
    } else {
        Some((start, end))
    }
}

/// The number of bytes an inclusive range covers.
pub fn range_length(start: u64, end: u64) -> (n: u64)
    requires
        start <= end,
        end - start < u64::MAX,
    ensures
        n == end - start + 1,
{
    end - start + 1
}

/// The `Content-Range` header value for an inclusive range of a file.
pub fn content_range_header(start: u64, end: u64, size: u64) -> (h: String)
    ensures
        h@ == seq!['b', 'y', 't', 'e', 's', ' '] + crate::digest::decimal_spec(start as nat)
            + seq!['-'] + crate::digest::decimal_spec(end as nat) + seq!['/']
            + crate::digest::decimal_spec(size as nat),
{
    let mut h = String::new();
    let prefix = ['b', 'y', 't', 'e', 's', ' '];
    let mut i: usize = 0;
    while i < 6
        invariant
            i <= 6,
            prefix@ == seq!['b', 'y', 't', 'e', 's', ' '],
            h@ == prefix@.subrange(0, i as int),
        decreases 6 - i,
    {
        crate::text::push_char(&mut h, prefix[i]);
        i = i + 1;
        assert(h@ =~= prefix@.subrange(0, i as int));
    }
    let s = crate::digest::decimal_u64(start);
    crate::text::push_str(&mut h, s.as_str());
    crate::text::push_char(&mut h, '-');
    let e = crate::digest::decimal_u64(end);
    crate::text::push_str(&mut h, e.as_str());
    crate::text::push_char(&mut h, '/');
    let z = crate::digest::decimal_u64(size);
    crate::text::push_str(&mut h, z.as_str());
    assert(h@ =~= seq!['b', 'y', 't', 'e', 's', ' '] + crate::digest::decimal_spec(start as nat)
        + seq!['-'] + crate::digest::decimal_spec(end as nat) + seq!['/']
        + crate::digest::decimal_spec(size as nat));
    h
}

/// The content type served for an original photo, chosen by its exact (case-sensitive)
/// extension.
pub open spec fn photo_mime_spec(ext: Option<Seq<char>>) -> Seq<char> {
    match ext {
        Some(e) => if e == "jpg"@ || e == "jpeg"@ {
            "image/jpeg"@
        } else if e == "png"@ {
            "image/png"@
        } else if e == "webp"@ {
            "image/webp"@
        } else if e == "gif"@ {
            "image/gif"@
        } else if e == "heic"@ {
            "image/heic"@
        } else if e == "heif"@ {
            "image/heif"@
        } else if e == "avif"@ {
            "image/avif"@
        } else if e == "tif"@ || e == "tiff"@ {
            "image/tiff"@
        } else {
            "application/octet-stream"@
        },
        None => "application/octet-stream"@,
    }
}

/// The content type of an original photo by its path's extension.
pub fn mime_guess(path: &str) -> (m: &'static str)
    ensures
        m@ == photo_mime_spec(extension_spec(path@)),
{
    let p = chars_of(path);
    match extension(p.as_slice()) {
        Some(e) => {
            let e = e.as_slice();
            if eq_str(e, "jpg") || eq_str(e, "jpeg") {
                "image/jpeg"
            } else if eq_str(e, "png") {
                "image/png"
            } else if eq_str(e, "webp") {
                "image/webp"
            } else if eq_str(e, "gif") {
                "image/gif"
            } else if eq_str(e, "heic") {
                "image/heic"
            } else if eq_str(e, "heif") {
                "image/heif"
            } else if eq_str(e, "avif") {
                "image/avif"
            } else if eq_str(e, "tif") || eq_str(e, "tiff") {
                "image/tiff"
            } else {
                "application/octet-stream"
            }
        },
        None => "application/octet-stream",
    }
}

proof fn lemma_seq_differs_at(a: Seq<char>, b: Seq<char>, i: int)
    requires
        0 <= i < a.len(),
        i < b.len(),
        a[i] != b[i],
    ensures
        a != b,
{
}

/// Every photo extension the scanner indexes (`jpg`, `jpeg`, `png`, `webp`, `gif`,
/// `heic`, `heif`, `avif`, `tif`, `tiff`) is served as an `image/...` content type, never
/// as `application/octet-stream`.
pub proof fn lemma_photo_extensions_served_as_images(path: Seq<char>, i: int)
    requires
        0 <= i < supported_extensions().len(),
        extension_spec(path) == Some(supported_extensions()[i]),
    ensures
        ({
            let m = photo_mime_spec(extension_spec(path));
            &&& 6 <= m.len()
            &&& m.subrange(0, 6) == "image/"@
            &&& m != "application/octet-stream"@
        }),
{
    reveal_strlit("jpg");
    reveal_strlit("jpeg");
    reveal_strlit("png");
    reveal_strlit("webp");
    reveal_strlit("gif");
    reveal_strlit("heic");
    reveal_strlit("heif");
    reveal_strlit("avif");
    reveal_strlit("tif");
    reveal_strlit("tiff");
    reveal_strlit("image/");
    reveal_strlit("image/jpeg");
    reveal_strlit("image/png");
    reveal_strlit("image/webp");
    reveal_strlit("image/gif");
    reveal_strlit("image/heic");
    reveal_strlit("image/heif");
    reveal_strlit("image/avif");
    reveal_strlit("image/tiff");
    reveal_strlit("application/octet-stream");
    let e = supported_extensions()[i];
    let m = photo_mime_spec(Some(e));
    if i == 0 {
        assert(m == "image/jpeg"@);
    } else if i == 1 {
        assert(m == "image/jpeg"@);
    } else if i == 2 {
        lemma_seq_differs_at(e, "jpg"@, 0);
        assert(m == "image/png"@);
    } else if i == 3 {
        lemma_seq_differs_at(e, "jpeg"@, 0);
        assert(m == "image/webp"@);
    } else if i == 4 {
        lemma_seq_differs_at(e, "jpg"@, 0);
        lemma_seq_differs_at(e, "png"@, 0);
        assert(m == "image/gif"@);
    } else if i == 5 {
        lemma_seq_differs_at(e, "jpeg"@, 0);
        lemma_seq_differs_at(e, "webp"@, 0);
        assert(m == "image/heic"@);
    } else if i == 6 {
        lemma_seq_differs_at(e, "jpeg"@, 0);
        lemma_seq_differs_at(e, "webp"@, 0);
        lemma_seq_differs_at(e, "heic"@, 3);
        assert(m == "image/heif"@);
    } else if i == 7 {
        lemma_seq_differs_at(e, "jpeg"@, 0);
        lemma_seq_differs_at(e, "webp"@, 0);
        lemma_seq_differs_at(e, "heic"@, 0);
        lemma_seq_differs_at(e, "heif"@, 0);
        assert(m == "image/avif"@);
    } else if i == 8 {
        lemma_seq_differs_at(e, "jpg"@, 0);
        lemma_seq_differs_at(e, "png"@, 0);
        lemma_seq_differs_at(e, "gif"@, 0);
        assert(m == "image/tiff"@);
    } else {
        lemma_seq_differs_at(e, "jpeg"@, 0);
        lemma_seq_differs_at(e, "webp"@, 0);
        lemma_seq_differs_at(e, "heic"@, 0);
        lemma_seq_differs_at(e, "heif"@, 0);
        lemma_seq_differs_at(e, "avif"@, 0);
        assert(m == "image/tiff"@);
    }
    assert(m.subrange(0, 6) =~= "image/"@);
    lemma_seq_differs_at(m, "application/octet-stream"@, 0);
}

/// Whether `s` ends with the string `suffix`.
pub open spec fn has_suffix(s: Seq<char>, suffix: Seq<char>) -> bool {
    suffix.len() <= s.len() && s.subrange(s.len() - suffix.len(), s.len() as int) == suffix
}

/// The content type of an embedded frontend asset by the ending of its path.
pub open spec fn asset_mime_spec(path: Seq<char>) -> Seq<char> {
    if has_suffix(path, ".html"@) {
        "text/html"@
    } else if has_suffix(path, ".css"@) {
        "text/css"@
    } else if has_suffix(path, ".js"@) || has_suffix(path, ".mjs"@) {
        "application/javascript"@
    } else if has_suffix(path, ".json"@) {
        "application/json"@
    } else if has_suffix(path, ".png"@) {
        "image/png"@
    } else if has_suffix(path, ".svg"@) {
        "image/svg+xml"@
    } else if has_suffix(path, ".woff2"@) {
        "font/woff2"@
    } else if has_suffix(path, ".woff"@) {
        "font/woff"@
    } else {
        "application/octet-stream"@
    }
}

/// The character `k` places from the end of a path that ends with `suffix`.
proof fn lemma_suffix_char(path: Seq<char>, suffix: Seq<char>, k: int)
    requires
        has_suffix(path, suffix),
        1 <= k <= suffix.len(),
    ensures
        path[path.len() - k] == suffix[suffix.len() - k],
{
    assert(path.subrange(path.len() - suffix.len(), path.len() as int)[suffix.len() - k] == path[path.len() - k]);
}

/// Every script of the frontend, a path ending in `.js` or `.mjs`, is served as
/// `application/javascript`, so that browsers run it.
pub proof fn lemma_scripts_served_as_javascript(path: Seq<char>)
    requires
        has_suffix(path, ".js"@) || has_suffix(path, ".mjs"@),
    ensures
        asset_mime_spec(path) == "application/javascript"@,
{
    reveal_strlit(".js");
    reveal_strlit(".mjs");
    reveal_strlit(".html");
    reveal_strlit(".css");
    if has_suffix(path, ".js"@) {
        lemma_suffix_char(path, ".js"@, 1);
        lemma_suffix_char(path, ".js"@, 2);
    } else {
        lemma_suffix_char(path, ".mjs"@, 1);
        lemma_suffix_char(path, ".mjs"@, 2);
    }
    if has_suffix(path, ".html"@) {
        lemma_suffix_char(path, ".html"@, 1);
    }
    if has_suffix(path, ".css"@) {
        lemma_suffix_char(path, ".css"@, 2);
    }
}

/// The content type of an embedded frontend asset.
pub fn mime_from_ext(path: &str) -> (m: &'static str)
    ensures
        m@ == asset_mime_spec(path@),
{
    use_suffix_checks(path)
}

fn use_suffix_checks(path: &str) -> (m: &'static str)
    ensures
        m@ == asset_mime_spec(path@),
{
    let s = crate::text::str_ends_with;
    if s(path, ".html") {
        "text/html"
    } else if s(path, ".css") {
        "text/css"
    } else if s(path, ".js") {
        "application/javascript"
    } else if s(path, ".mjs") {
        "application/javascript"
    } else if s(path, ".json") {
        "application/json"
    } else if s(path, ".png") {
        "image/png"
    } else if s(path, ".svg") {
        "image/svg+xml"
    } else if s(path, ".woff2") {
        "font/woff2"
    } else if s(path, ".woff") {
        "font/woff"
    } else {
        "application/octet-stream"
    }
}

} // verus!

verus! {

/// The ASCII stand-in for one file-name character in a quoted header parameter.
pub open spec fn fallback_char(c: char) -> char {
    if c == '"' || c == '\\' || c == '\r' || c == '\n' {
        '_'
    } else if ('!' <= c && c <= '~') || c == ' ' {
        c
    } else {
        '_'
    }
}

/// Whether a byte is left as is by the RFC 5987 encoding used here.
pub open spec fn is_unreserved_byte(b: u8) -> bool {
    (65 <= b && b <= 90) || (97 <= b && b <= 122) || (48 <= b && b <= 57) || b == 46 || b == 95
        || b == 45
}

/// The percent-encoding of a byte sequence: unreserved bytes verbatim, others `%XX`.
pub open spec fn percent_encode_spec(bytes: Seq<u8>) -> Seq<char>
    decreases bytes.len(),
{
    if bytes.len() == 0 {
        Seq::empty()
    } else {
        let b = bytes.last();
        percent_encode_spec(bytes.drop_last()) + if is_unreserved_byte(b) {
            seq![b as char]
        } else {
            seq![
                '%',
                crate::digest::hex_digit_upper(b as int / 16),
                crate::digest::hex_digit_upper(b as int % 16),
            ]
        }
    }
}

/// The `Content-Disposition` value that makes a browser download a file under its
/// original name: an ASCII fallback name and the UTF-8 name percent-encoded.
pub open spec fn content_disposition_spec(filename: Seq<char>) -> Seq<char> {
    "attachment; filename=\""@ + filename.map_values(|c: char| fallback_char(c))
        + "\"; filename*=UTF-8''"@ + percent_encode_spec(
        vstd::utf8::encode_utf8(filename),
    )
}

/// Builds the download `Content-Disposition` header value for a file name.
pub fn content_disposition_for_download(filename: &str) -> (h: String)
    ensures
        h@ == content_disposition_spec(filename@),
{
    let name = chars_of(filename);
    let mut h = crate::text::owned("attachment; filename=\"");
    let ghost start = h@;
    let mut i: usize = 0;
    while i < name.len()
        invariant
            i <= name@.len(),
            h@ == start + name@.subrange(0, i as int).map_values(|c: char| fallback_char(c)),
        decreases name@.len() - i,
    {
        let c = name[i];
        let f = if c == '"' || c == '\\' || c == '\r' || c == '\n' {
            '_'
        } else if ('!' <= c && c <= '~') || c == ' ' {
            c
        } else {
            '_'
        };
        crate::text::push_char(&mut h, f);
        i = i + 1;
        assert(name@.subrange(0, i as int).map_values(|c: char| fallback_char(c)) =~= name@.subrange(
            0,
            i - 1,
        ).map_values(|c: char| fallback_char(c)).push(f));
    }
    assert(name@.subrange(0, name@.len() as int) =~= name@);
    crate::text::push_str(&mut h, "\"; filename*=UTF-8''");
    let ghost mid = h@;
    let bytes = filename.as_bytes();
    let mut j: usize = 0;
    while j < bytes.len()
        invariant
            j <= bytes@.len(),
            bytes@ == vstd::utf8::encode_utf8(filename@),
            h@ == mid + percent_encode_spec(bytes@.subrange(0, j as int)),
        decreases bytes@.len() - j,
    {
        let b = bytes[j];
        let ghost before = h@;
        if (65 <= b && b <= 90) || (97 <= b && b <= 122) || (48 <= b && b <= 57) || b == 46 || b
            == 95 || b == 45 {
            crate::text::push_char(&mut h, b as char);
        } else {
            crate::text::push_char(&mut h, '%');
            crate::text::push_char(&mut h, crate::digest::hex_char_upper(b / 16));
            crate::text::push_char(&mut h, crate::digest::hex_char_upper(b % 16));
        }
        j = j + 1;
        assert(bytes@.subrange(0, j as int).drop_last() =~= bytes@.subrange(0, j - 1));
        assert(h@ =~= mid + percent_encode_spec(bytes@.subrange(0, j as int)));
    }
    assert(bytes@.subrange(0, bytes@.len() as int) =~= bytes@);
    h
}

/// Whether a `download` query value asks for an attachment: `1` or `true` in any ASCII
/// case.
pub open spec fn wants_download_spec(value: Option<Seq<char>>) -> bool {
    match value {
        Some(v) => v == "1"@ || crate::text::ascii_lower_spec(v) == crate::text::ascii_lower_spec(
            "true"@,
        ),
        None => false,
    }
}

/// Whether the `download` query parameter asks for an attachment.
pub fn wants_download(value: Option<&str>) -> (b: bool)
    ensures
        b == wants_download_spec(
            match value {
                Some(v) => Some(v@),
                None => None,
            },
        ),
{
    match value {
        Some(v) => {
            let c = chars_of(v);
            let t = chars_of("true");
            eq_str(c.as_slice(), "1") || crate::text::eq_ignore_ascii_case(c.as_slice(), t.as_slice())
        },
        None => false,
    }
}

/// Which embedded assets answer a frontend request, in the order they are tried.
pub struct FrontendPlan {
    /// The asset looked up first (`index.html` for the root).
    pub file_path: String,
    /// The clean-URL variant, `file_path` + `.html`.
    pub html_path: String,
    /// Whether `index.html` answers when neither exists (client-side routes).
    pub spa_fallback: bool,
}

/// `s` without its leading `/` characters.
pub open spec fn strip_leading_slashes(s: Seq<char>) -> Seq<char>
    decreases s.len(),
{
    if s.len() > 0 && s[0] == '/' {
        strip_leading_slashes(s.drop_first())
    } else {
        s
    }
}

/// The assets to try for a request path.
pub open spec fn frontend_plan_spec(path: Seq<char>) -> (Seq<char>, Seq<char>, bool) {
    let p = strip_leading_slashes(path);
    let file = if p.len() == 0 {
        "index.html"@
    } else {
        p
    };
    let spa = p.len() == 0 || has_prefix(p, "album/"@);
    (file, file + ".html"@, spa)
}

/// Whether `s` starts with `prefix`.
pub open spec fn has_prefix(s: Seq<char>, prefix: Seq<char>) -> bool {
    prefix.len() <= s.len() && s.subrange(0, prefix.len() as int) == prefix
}

/// Decides which embedded assets answer a request path.
pub fn frontend_plan(path: &str) -> (plan: FrontendPlan)
    ensures
        (plan.file_path@, plan.html_path@, plan.spa_fallback) == frontend_plan_spec(path@),
{
    let v = chars_of(path);
    let mut i: usize = 0;
    assert(v@.subrange(0, v@.len() as int) =~= v@);
    while i < v.len() && v[i] == '/'
        invariant
            i <= v@.len(),
            strip_leading_slashes(v@) == strip_leading_slashes(v@.subrange(i as int, v@.len() as int)),
        decreases v@.len() - i,
    {
        assert(v@.subrange(i as int, v@.len() as int).drop_first() =~= v@.subrange(
            i + 1,
            v@.len() as int,
        ));
        i = i + 1;
    }
    assert(v@.subrange(0, v@.len() as int) =~= v@);
    let p = crate::text::slice_range(v.as_slice(), i, v.len());
    assert(strip_leading_slashes(p@) == p@);
    let file = if p.len() == 0 {
        crate::text::owned("index.html")
    } else {
        crate::text::string_from_chars(p.as_slice())
    };
    let album = chars_of("album/");
    let spa = p.len() == 0 || crate::text::starts_with(p.as_slice(), album.as_slice());
    let html = crate::text::concat(file.as_str(), ".html");
    FrontendPlan { file_path: file, html_path: html, spa_fallback: spa }
}

/// The web front end built into the server binary. Its files are embedded and looked up
/// outside the library; [`frontend_plan`] decides which to serve.
#[derive(Debug, Clone, Copy, PartialEq, Eq, Structural)]
pub struct Frontend;

} // verus!
