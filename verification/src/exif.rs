//! EXIF metadata: the text cleaning and decoding of tag values, and how tags fill a
//! photo's record.
use crate::text::{
    chars_eq, chars_of, eq_ignore_ascii_case, eq_str, equals_char, push_char, push_str,
    skip_back, skip_front, slice_range, string_from_chars, trim, trim_char, trim_char_spec,
    trim_spec, ascii_lower_spec, is_whitespace_spec,
};
use crate::digest::{decimal_spec, digit_char};
use crate::timeline::time::signed_hhmm_text;
use vstd::prelude::*;
use vstd::utf8::{decode_utf8, valid_utf8};

verus! {

/// Pixel dimensions of an image.
#[derive(Debug, Clone, Copy, Default, PartialEq, Eq, Structural)]
pub struct ImageDimensions {
    pub width: u32,
    pub height: u32,
}

/// `String::from_utf8_lossy`: the bytes as UTF-8, each invalid sequence replaced.
pub uninterp spec fn utf8_lossy_spec(bytes: Seq<u8>) -> Seq<char>;

/// `String::from_utf16_lossy`: the units as UTF-16, each unpaired surrogate replaced.
pub uninterp spec fn utf16_lossy_spec(units: Seq<u16>) -> Seq<char>;

/// `String::from_utf8_lossy(bytes).into_owned()`. Trusted: the result is the named
/// decoding; valid UTF-8 decodes to its own characters, as the documentation says.
#[verifier::external_body]
fn from_utf8_lossy(bytes: &[u8]) -> (r: String)
    ensures
        r@ == utf8_lossy_spec(bytes@),
        valid_utf8(bytes@) ==> r@ == decode_utf8(bytes@),
{
    String::from_utf8_lossy(bytes).into_owned()
}

/// Units outside the surrogate range, each of which is a character by itself.
pub open spec fn no_surrogates(units: Seq<u16>) -> bool {
    forall|i: int| 0 <= i < units.len() ==> (units[i] < 0xD800 || units[i] > 0xDFFF)
}

/// `String::from_utf16_lossy`. Trusted: the result is the named decoding; units outside
/// the surrogate range are characters by themselves, as UTF-16 defines them.
#[verifier::external_body]
fn from_utf16_lossy(units: &[u16]) -> (r: String)
    ensures
        r@ == utf16_lossy_spec(units@),
        no_surrogates(units@) ==> r@.len() == units@.len() && forall|i: int| 0 <= i < units@.len() ==> (r@[i] as int) == (units@[i] as int),
{
    String::from_utf16_lossy(units)
}

/// An EXIF text cleaned: NULs, white space, then double and single quotes trimmed from
/// both ends, and white space again; nothing when empty or `-`.
pub open spec fn clean_exif_spec(raw: Seq<char>) -> Option<Seq<char>> {
    let v = trim_spec(trim_char_spec(trim_char_spec(trim_spec(trim_char_spec(raw, '\0')), '"'), '\''));
    if v.len() == 0 || v == seq!['-'] {
        None
    } else {
        Some(v)
    }
}

/// Cleans an EXIF text value.
pub fn clean_exif_string(raw: &str) -> (r: Option<String>)
    ensures
        opt_chars(r) == clean_exif_spec(raw@),
{
    let c = chars_of(raw);
    let a = trim_char(c.as_slice(), '\0');
    let b = trim(a.as_slice());
    let d = trim_char(b.as_slice(), '"');
    let e = trim_char(d.as_slice(), '\'');
    let v = trim(e.as_slice());
    let dash = ['-'];
    assert(dash@ =~= seq!['-']);
    if v.len() == 0 || chars_eq(v.as_slice(), dash.as_slice()) {
        None
    } else {
        Some(string_from_chars(v.as_slice()))
    }
}

/// The view of an optional string.
pub open spec fn opt_chars(o: Option<String>) -> Option<Seq<char>> {
    match o {
        Some(s) => Some(s@),
        None => None,
    }
}

/// A tag's displayed value cleaned (`display_value().to_string()`, then
/// [`clean_exif_string`]).
pub fn display_string(display: &str) -> (r: Option<String>)
    ensures
        opt_chars(r) == clean_exif_spec(display@),
{
    clean_exif_string(display)
}

/// `s` without its leading `c`s.
pub open spec fn trim_start_spec(s: Seq<char>, c: char) -> Seq<char> {
    s.subrange(skip_front(s, 0, equals_char(c)), s.len() as int)
}

/// `s` without its trailing `c`s.
pub open spec fn trim_end_spec(s: Seq<char>, c: char) -> Seq<char> {
    s.subrange(0, skip_back(s, 0, s.len() as int, equals_char(c)))
}

fn trim_start_char(s: &[char], c: char) -> (r: Vec<char>)
    ensures
        r@ == trim_start_spec(s@, c),
{
    let ghost drop = equals_char(c);
    let mut lo: usize = 0;
    while lo < s.len() && s[lo] == c
        invariant
            lo <= s@.len(),
            drop == equals_char(c),
            skip_front(s@, lo as int, drop) == skip_front(s@, 0, drop),
        decreases s@.len() - lo,
    {
        assert(drop(s@[lo as int]));
        lo = lo + 1;
    }
    if lo < s.len() {
        assert(!drop(s@[lo as int]));
    }
    assert(skip_front(s@, lo as int, drop) == lo);
    slice_range(s, lo, s.len())
}

/// Removes trailing copies of `c` (`str::trim_end_matches`).
pub fn trim_end_chars(s: &[char], c: char) -> (r: Vec<char>)
    ensures
        r@ == trim_end_spec(s@, c),
{
    let ghost drop = equals_char(c);
    let mut hi: usize = s.len();
    while hi > 0 && s[hi - 1] == c
        invariant
            hi <= s@.len(),
            drop == equals_char(c),
            skip_back(s@, 0, hi as int, drop) == skip_back(s@, 0, s@.len() as int, drop),
        decreases hi,
    {
        assert(drop(s@[hi - 1]));
        hi = hi - 1;
    }
    if hi > 0 {
        assert(!drop(s@[hi - 1]));
    }
    assert(skip_back(s@, 0, hi as int, drop) == hi);
    slice_range(s, 0, hi)
}

/// The first `:` in `s`, or its length.
pub open spec fn colon_index(s: Seq<char>) -> int
    decreases s.len(),
{
    if s.len() == 0 {
        0
    } else if s[0] == ':' {
        0
    } else {
        1 + colon_index(s.drop_first())
    }
}

proof fn lemma_colon_index(s: Seq<char>)
    ensures
        0 <= colon_index(s) <= s.len(),
        colon_index(s) < s.len() ==> s[colon_index(s)] == ':',
        forall|j: int| 0 <= j < colon_index(s) ==> s[j] != ':',
    decreases s.len(),
{
    if s.len() > 0 && s[0] != ':' {
        lemma_colon_index(s.drop_first());
        assert forall|j: int| 0 <= j < colon_index(s) implies s[j] != ':' by {
            if j > 0 {
                assert(s[j] == s.drop_first()[j - 1]);
            }
        }
    }
}

/// A UTC offset as the timeline stores it: `Z`, `+00:00` and `-00:00` become `UTC`;
/// `+HH:MM` becomes `UTC+H` or `UTC+H:M` with leading zeros of the hours and trailing
/// zeros of the minutes dropped; text without a sign is only cleaned.
pub open spec fn normalize_timezone_spec(raw: Seq<char>) -> Option<Seq<char>> {
    let t = trim_spec(raw);
    if ascii_lower_spec(t) == seq!['z'] || t == "+00:00"@ || t == "-00:00"@ {
        Some("UTC"@)
    } else if t.len() == 0 {
        None
    } else if t[0] != '+' && t[0] != '-' {
        clean_exif_spec(t)
    } else {
        let rest = t.drop_first();
        let k = colon_index(rest);
        let hours_raw = rest.subrange(0, k);
        let minutes_raw = if k < rest.len() {
            rest.subrange(k + 1, rest.len() as int)
        } else {
            "00"@
        };
        let h = trim_start_spec(hours_raw, '0');
        let hours = if h.len() == 0 {
            seq!['0']
        } else {
            h
        };
        let minutes = trim_end_spec(minutes_raw, '0');
        if minutes.len() == 0 {
            Some("UTC"@ + seq![t[0]] + hours)
        } else {
            Some("UTC"@ + seq![t[0]] + hours + seq![':'] + minutes)
        }
    }
}

/// A whole-hour offset keeps its hours: `+HH:00` (or `-HH:00`) for hours 1 to 99 becomes
/// `UTC+` (or `UTC-`) followed by the hours in decimal, without leading zeros.
pub proof fn lemma_whole_hour_offset_keeps_hours(sign: char, hours: int)
    requires
        sign == '+' || sign == '-',
        1 <= hours <= 99,
    ensures
        normalize_timezone_spec(signed_hhmm_text(sign, hours, 0)) == Some(
            "UTC"@ + seq![sign] + decimal_spec(hours as nat),
        ),
{
    reveal_strlit("+00:00");
    reveal_strlit("-00:00");
    reveal_strlit("00");
    let text = signed_hhmm_text(sign, hours, 0);
    let d1 = digit_char(hours / 10);
    let d2 = digit_char(hours % 10);
    assert(text =~= seq![sign, d1, d2, ':', '0', '0']);
    let ws = |c: char| is_whitespace_spec(c);
    assert(!is_whitespace_spec(sign));
    assert(!is_whitespace_spec('0'));
    assert(skip_front(text, 0, ws) == 0);
    assert(skip_back(text, 0, 6, ws) == 6);
    assert(text.subrange(0, 6) =~= text);
    let t = trim_spec(text);
    assert(t == text);
    assert(ascii_lower_spec(t).len() == 6);
    assert(ascii_lower_spec(t) != seq!['z']);
    if hours / 10 == 0 {
        assert(t[2] != "+00:00"@[2]);
        assert(t[2] != "-00:00"@[2]);
    } else {
        assert(t[1] != "+00:00"@[1]);
        assert(t[1] != "-00:00"@[1]);
    }
    assert(t != "+00:00"@);
    assert(t != "-00:00"@);
    let rest = t.drop_first();
    assert(rest =~= seq![d1, d2, ':', '0', '0']);
    reveal_with_fuel(colon_index, 4);
    assert(rest.drop_first() =~= seq![d2, ':', '0', '0']);
    assert(rest.drop_first().drop_first() =~= seq![':', '0', '0']);
    assert(colon_index(rest) == 2);
    let hours_raw = rest.subrange(0, 2);
    assert(hours_raw =~= seq![d1, d2]);
    let minutes_raw = rest.subrange(3, 5);
    assert(minutes_raw =~= seq!['0', '0']);
    let zero = equals_char('0');
    assert(zero(minutes_raw[0]) && zero(minutes_raw[1]));
    assert(skip_back(minutes_raw, 0, 0, zero) == 0);
    assert(skip_back(minutes_raw, 0, 1, zero) == 0);
    assert(skip_back(minutes_raw, 0, 2, zero) == 0);
    assert(trim_end_spec(minutes_raw, '0') =~= Seq::<char>::empty());
    reveal_with_fuel(decimal_spec, 2);
    if hours < 10 {
        assert(d1 == '0');
        assert(d2 != '0');
        assert(zero(hours_raw[0]) && !zero(hours_raw[1]));
        assert(skip_front(hours_raw, 1, zero) == 1);
        assert(skip_front(hours_raw, 0, zero) == 1);
        assert(trim_start_spec(hours_raw, '0') =~= seq![d2]);
        assert(decimal_spec(hours as nat) == seq![d2]);
    } else {
        assert(d1 != '0');
        assert(skip_front(hours_raw, 0, zero) == 0);
        assert(trim_start_spec(hours_raw, '0') =~= seq![d1, d2]);
        assert(decimal_spec((hours / 10) as nat) == seq![d1]);
        assert(decimal_spec(hours as nat) =~= seq![d1, d2]);
    }
}

/// Normalises an EXIF offset.
pub fn normalize_timezone(raw: &str) -> (r: Option<String>)
    ensures
        opt_chars(r) == normalize_timezone_spec(raw@),
{
    let c = chars_of(raw);
    let t = trim(c.as_slice());
    let z = ['z'];
    assert(z@ =~= seq!['z']);
    let lower = crate::text::to_ascii_lower(t.as_slice());
    if chars_eq(lower.as_slice(), z.as_slice()) || eq_str(t.as_slice(), "+00:00") || eq_str(t.as_slice(), "-00:00") {
        return Some("UTC".to_owned());
    }
    if t.len() == 0 {
        return None;
    }
    let sign = t[0];
    if sign != '+' && sign != '-' {
        let text = string_from_chars(t.as_slice());
        return clean_exif_string(text.as_str());
    }
    let rest = slice_range(t.as_slice(), 1, t.len());
    assert(rest@ =~= t@.drop_first());
    proof {
        lemma_colon_index(rest@);
    }
    let mut k: usize = 0;
    while k < rest.len() && rest[k] != ':'
        invariant
            k <= rest@.len(),
            k <= colon_index(rest@),
            0 <= colon_index(rest@) <= rest@.len(),
            colon_index(rest@) < rest@.len() ==> rest@[colon_index(rest@)] == ':',
        decreases rest@.len() - k,
    {
        k = k + 1;
    }
    assert(k == colon_index(rest@));
    let hours_raw = slice_range(rest.as_slice(), 0, k);
    let minutes_raw = if k < rest.len() {
        slice_range(rest.as_slice(), k + 1, rest.len())
    } else {
        let zz = chars_of("00");
        zz
    };
    let h = trim_start_char(hours_raw.as_slice(), '0');
    let hours = if h.len() == 0 {
        let mut v: Vec<char> = Vec::new();
        v.push('0');
        v
    } else {
        h
    };
    let minutes = trim_end_chars(minutes_raw.as_slice(), '0');
    let mut out = String::new();
    push_str(&mut out, "UTC");
    push_char(&mut out, sign);
    let hs = string_from_chars(hours.as_slice());
    push_str(&mut out, hs.as_str());
    if minutes.len() > 0 {
        push_char(&mut out, ':');
        let ms = string_from_chars(minutes.as_slice());
        push_str(&mut out, ms.as_str());
    }
    Some(out)
}

/// The little-endian UTF-16 units of `bytes`, two bytes each, up to the first zero unit;
/// an odd last byte is ignored.
pub open spec fn utf16_units_spec(bytes: Seq<u8>) -> Seq<u16>
    decreases bytes.len(),
{
    if bytes.len() < 2 {
        Seq::empty()
    } else {
        let unit = (bytes[0] as int + bytes[1] as int * 256) as u16;
        if unit == 0 {
            Seq::empty()
        } else {
            seq![unit] + utf16_units_spec(bytes.subrange(2, bytes.len() as int))
        }
    }
}

fn utf16_units(bytes: &[u8]) -> (r: Vec<u16>)
    ensures
        r@ == utf16_units_spec(bytes@),
{
    let mut units: Vec<u16> = Vec::new();
    let mut i: usize = 0;
    assert(bytes@.subrange(0, bytes@.len() as int) =~= bytes@);
    assert(units@ + utf16_units_spec(bytes@) =~= utf16_units_spec(bytes@));
    while i + 1 < bytes.len()
        invariant
            i <= bytes@.len(),
            i % 2 == 0,
            units@ + utf16_units_spec(bytes@.subrange(i as int, bytes@.len() as int)) == utf16_units_spec(bytes@),
        decreases bytes@.len() - i,
    {
        let unit: u16 = (bytes[i] as u16) + (bytes[i + 1] as u16) * 256;
        let ghost rest = bytes@.subrange(i as int, bytes@.len() as int);
        assert(rest[0] == bytes@[i as int] && rest[1] == bytes@[i + 1]);
        assert(rest.subrange(2, rest.len() as int) =~= bytes@.subrange(i + 2, bytes@.len() as int));
        if unit == 0 {
            assert(units@ =~= units@ + utf16_units_spec(rest));
            return units;
        }
        units.push(unit);
        assert(seq![unit] + utf16_units_spec(rest.subrange(2, rest.len() as int)) == utf16_units_spec(rest));
        i = i + 2;
        assert(units@ + utf16_units_spec(bytes@.subrange(i as int, bytes@.len() as int)) =~= utf16_units_spec(bytes@));
    }
    assert(utf16_units_spec(bytes@.subrange(i as int, bytes@.len() as int)) =~= Seq::<u16>::empty());
    assert(units@ =~= units@ + Seq::<u16>::empty());
    units
}

/// UTF-16LE text up to its first NUL unit.
pub open spec fn decode_utf16_spec(bytes: Seq<u8>) -> Seq<char> {
    utf16_lossy_spec(utf16_units_spec(bytes))
}

/// Decodes UTF-16LE bytes up to the first NUL unit, replacing unpaired surrogates.
pub fn decode_utf16(bytes: &[u8]) -> (r: String)
    ensures
        r@ == decode_utf16_spec(bytes@),
{
    let units = utf16_units(bytes);
    from_utf16_lossy(units.as_slice())
}

/// The raw value of a tag, as far as the text decoders read it.
#[derive(Debug, Clone, PartialEq, Eq)]
pub enum ExifValue {
    /// `BYTE` or `UNDEFINED` data.
    Bytes(Vec<u8>),
    /// `SHORT` values.
    Short(Vec<u16>),
    /// `LONG` values.
    Long(Vec<u32>),
    /// Any other type.
    Other,
}

pub open spec fn has_prefix_bytes(b: Seq<u8>, p: Seq<u8>) -> bool {
    p.len() <= b.len() && b.subrange(0, p.len() as int) == p
}

/// The 8-byte header of an ASCII user comment.
pub open spec fn ascii_header() -> Seq<u8> {
    seq![65u8, 83, 67, 73, 73, 0, 0, 0]
}

/// The 8-byte header of a UTF-16 user comment.
pub open spec fn unicode_header() -> Seq<u8> {
    seq![85u8, 78, 73, 67, 79, 68, 69, 0]
}

/// A user comment: byte data, read after an `ASCII` header as UTF-8, after a `UNICODE`
/// header as UTF-16LE, otherwise whole as UTF-8; then cleaned.
pub open spec fn user_comment_spec(value: ExifValue) -> Option<Seq<char>> {
    match value {
        ExifValue::Bytes(b) => {
            let bytes = b@;
            let text = if has_prefix_bytes(bytes, ascii_header()) {
                utf8_lossy_spec(bytes.subrange(8, bytes.len() as int))
            } else if has_prefix_bytes(bytes, unicode_header()) {
                decode_utf16_spec(bytes.subrange(8, bytes.len() as int))
            } else {
                utf8_lossy_spec(bytes)
            };
            clean_exif_spec(text)
        },
        _ => None,
    }
}

fn starts_with_bytes(b: &[u8], p: &[u8]) -> (r: bool)
    ensures
        r == has_prefix_bytes(b@, p@),
{
    if p.len() > b.len() {
        return false;
    }
    let mut i: usize = 0;
    while i < p.len()
        invariant
            i <= p@.len(),
            p@.len() <= b@.len(),
            forall|j: int| 0 <= j < i ==> b@[j] == p@[j],
        decreases p@.len() - i,
    {
        if b[i] != p[i] {
            assert(b@.subrange(0, p@.len() as int)[i as int] != p@[i as int]);
            return false;
        }
        i = i + 1;
    }
    assert(b@.subrange(0, p@.len() as int) =~= p@);
    true
}

fn bytes_from(b: &[u8], start: usize) -> (r: Vec<u8>)
    requires
        start <= b@.len(),
    ensures
        r@ == b@.subrange(start as int, b@.len() as int),
{
    let mut r: Vec<u8> = Vec::new();
    let mut i: usize = start;
    while i < b.len()
        invariant
            start <= i <= b@.len(),
            r@ == b@.subrange(start as int, i as int),
        decreases b@.len() - i,
    {
        r.push(b[i]);
        i = i + 1;
        assert(r@ =~= b@.subrange(start as int, i as int));
    }
    r
}

/// Decodes an EXIF user comment.
pub fn decode_user_comment(value: &ExifValue) -> (r: Option<String>)
    ensures
        opt_chars(r) == user_comment_spec(*value),
{
    let b = match value {
        ExifValue::Bytes(b) => b,
        _ => return None,
    };
    let ascii: [u8; 8] = [65, 83, 67, 73, 73, 0, 0, 0];
    let unicode: [u8; 8] = [85, 78, 73, 67, 79, 68, 69, 0];
    assert(ascii@ =~= ascii_header());
    assert(unicode@ =~= unicode_header());
    let text = if starts_with_bytes(b.as_slice(), ascii.as_slice()) {
        let rest = bytes_from(b.as_slice(), 8);
        from_utf8_lossy(rest.as_slice())
    } else if starts_with_bytes(b.as_slice(), unicode.as_slice()) {
        let rest = bytes_from(b.as_slice(), 8);
        decode_utf16(rest.as_slice())
    } else {
        from_utf8_lossy(b.as_slice())
    };
    clean_exif_string(text.as_str())
}

/// A Windows `XP*` tag: byte data as UTF-16LE, cleaned.
pub open spec fn xp_string_spec(value: ExifValue) -> Option<Seq<char>> {
    match value {
        ExifValue::Bytes(b) => clean_exif_spec(decode_utf16_spec(b@)),
        _ => None,
    }
}

/// Decodes a Windows `XP*` tag.
pub fn parse_xp_string(value: &ExifValue) -> (r: Option<String>)
    ensures
        opt_chars(r) == xp_string_spec(*value),
{
    match value {
        ExifValue::Bytes(b) => {
            let text = decode_utf16(b.as_slice());
            clean_exif_string(text.as_str())
        },
        _ => None,
    }
}

/// Characters that separate inline tags: `;`, `,`, `，`, `、` and `#`.
pub open spec fn is_tag_separator(c: char) -> bool {
    c == ';' || c == ',' || c == '，' || c == '、' || c == '#'
}

/// The pieces of `s` between tag separators, empty ones included.
pub open spec fn tag_pieces(s: Seq<char>) -> Seq<Seq<char>>
    decreases s.len(),
{
    if s.len() == 0 {
        seq![Seq::empty()]
    } else {
        let prev = tag_pieces(s.drop_last());
        if is_tag_separator(s.last()) {
            prev.push(Seq::empty())
        } else {
            prev.update(prev.len() - 1, prev.last().push(s.last()))
        }
    }
}

proof fn lemma_tag_pieces_nonempty(s: Seq<char>)
    ensures
        tag_pieces(s).len() >= 1,
    decreases s.len(),
{
    if s.len() > 0 {
        lemma_tag_pieces_nonempty(s.drop_last());
    }
}

/// The cleaned, non-empty pieces, in order.
pub open spec fn cleaned_pieces(pieces: Seq<Seq<char>>) -> Seq<Seq<char>>
    decreases pieces.len(),
{
    if pieces.len() == 0 {
        Seq::empty()
    } else {
        let prev = cleaned_pieces(pieces.drop_last());
        match clean_exif_spec(pieces.last()) {
            Some(t) => prev.push(t),
            None => prev,
        }
    }
}

/// Inline tags of a text: its cleaned pieces between separators, at most 24.
pub open spec fn inline_tags_spec(value: Seq<char>) -> Seq<Seq<char>> {
    let all = cleaned_pieces(tag_pieces(value));
    if all.len() > 24 {
        all.subrange(0, 24)
    } else {
        all
    }
}

pub open spec fn string_seq_view(v: Seq<String>) -> Seq<Seq<char>> {
    v.map_values(|s: String| s@)
}

fn tag_piece_list(s: &[char]) -> (r: Vec<Vec<char>>)
    ensures
        r@.map_values(|p: Vec<char>| p@) == tag_pieces(s@),
{
    let mut pieces: Vec<Vec<char>> = Vec::new();
    let mut cur: Vec<char> = Vec::new();
    let mut i: usize = 0;
    while i < s.len()
        invariant
            i <= s@.len(),
            pieces@.map_values(|p: Vec<char>| p@).push(cur@) == tag_pieces(s@.subrange(0, i as int)),
        decreases s@.len() - i,
    {
        let ghost pre = s@.subrange(0, i as int);
        let ghost old_pieces = pieces@.map_values(|p: Vec<char>| p@);
        proof {
            lemma_tag_pieces_nonempty(pre);
            assert(s@.subrange(0, i + 1).drop_last() =~= pre);
            assert(s@.subrange(0, i + 1).last() == s@[i as int]);
        }
        let c = s[i];
        if c == ';' || c == ',' || c == '，' || c == '、' || c == '#' {
            let done = cur;
            pieces.push(done);
            cur = Vec::new();
            assert(pieces@.map_values(|p: Vec<char>| p@) =~= old_pieces.push(done@));
        } else {
            cur.push(c);
        }
        i = i + 1;
        assert(pieces@.map_values(|p: Vec<char>| p@).push(cur@) =~= tag_pieces(s@.subrange(0, i as int)));
    }
    let ghost before = pieces@.map_values(|p: Vec<char>| p@);
    pieces.push(cur);
    assert(s@.subrange(0, s@.len() as int) =~= s@);
    assert(pieces@.map_values(|p: Vec<char>| p@) =~= before.push(cur@));
    pieces
}

proof fn lemma_cleaned_prefix(pieces: Seq<Seq<char>>, k: int)
    requires
        0 <= k <= pieces.len(),
    ensures
        cleaned_pieces(pieces.subrange(0, k)).len() <= cleaned_pieces(pieces).len(),
        cleaned_pieces(pieces.subrange(0, k)) == cleaned_pieces(pieces).subrange(
            0,
            cleaned_pieces(pieces.subrange(0, k)).len() as int,
        ),
    decreases pieces.len() - k,
{
    if k < pieces.len() {
        assert(pieces.drop_last().subrange(0, k) =~= pieces.subrange(0, k));
        lemma_cleaned_prefix(pieces.drop_last(), k);
        let c = cleaned_pieces(pieces.subrange(0, k));
        let d = cleaned_pieces(pieces.drop_last());
        assert(c =~= cleaned_pieces(pieces).subrange(0, c.len() as int)) by {
            assert(forall|j: int| 0 <= j < c.len() ==> c[j] == d[j]);
        }
    } else {
        assert(pieces.subrange(0, k) =~= pieces);
        assert(cleaned_pieces(pieces) =~= cleaned_pieces(pieces).subrange(0, cleaned_pieces(pieces).len() as int));
    }
}

/// Splits a text into inline tags.
pub fn parse_inline_tags(value: &str) -> (r: Vec<String>)
    ensures
        string_seq_view(r@) == inline_tags_spec(value@),
{
    let c = chars_of(value);
    let pieces = tag_piece_list(c.as_slice());
    let ghost pv = pieces@.map_values(|p: Vec<char>| p@);
    let mut out: Vec<String> = Vec::new();
    let mut i: usize = 0;
    while i < pieces.len() && out.len() < 24
        invariant
            i <= pieces@.len(),
            pv == pieces@.map_values(|p: Vec<char>| p@),
            string_seq_view(out@) == cleaned_pieces(pv.subrange(0, i as int)),
            out@.len() <= 24,
        decreases pieces@.len() - i,
    {
        let text = string_from_chars(pieces[i].as_slice());
        let ghost before = out@;
        assert(pv.subrange(0, i + 1).drop_last() =~= pv.subrange(0, i as int));
        assert(pv.subrange(0, i + 1).last() == pieces@[i as int]@);
        match clean_exif_string(text.as_str()) {
            Some(t) => {
                out.push(t);
                assert(string_seq_view(out@) =~= string_seq_view(before).push(out@.last()@));
            },
            None => {},
        }
        i = i + 1;
    }
    proof {
        lemma_cleaned_prefix(pv, i as int);
        let all = cleaned_pieces(pv);
        assert(pv == tag_pieces(value@));
        if i == pieces@.len() {
            assert(pv.subrange(0, i as int) =~= pv);
        }
        if all.len() > 24 {
            if i < pieces@.len() {
                assert(string_seq_view(out@).len() == 24);
            } else {
                assert(pv.subrange(0, i as int) =~= pv);
            }
            assert(string_seq_view(out@) =~= all.subrange(0, 24));
        } else {
            if i < pieces@.len() {
                assert(string_seq_view(out@).len() == 24);
            }
        }
    }
    out
}

/// Keywords of a Windows `XPKeywords` tag.
pub open spec fn keywords_spec(value: ExifValue) -> Seq<Seq<char>> {
    match xp_string_spec(value) {
        Some(t) => inline_tags_spec(t),
        None => Seq::empty(),
    }
}

/// Reads the keywords of a Windows `XPKeywords` tag.
pub fn parse_keywords(value: &ExifValue) -> (r: Vec<String>)
    ensures
        string_seq_view(r@) == keywords_spec(*value),
{
    match parse_xp_string(value) {
        Some(t) => parse_inline_tags(t.as_str()),
        None => {
            let v: Vec<String> = Vec::new();
            assert(string_seq_view(v@) =~= Seq::<Seq<char>>::empty());
            v
        },
    }
}

/// The tags whose values fill a photo's record. Tags read as floating-point numbers
/// (focal length, aperture, exposure time, GPS coordinates) are read outside the library
/// and count as `Other` here.
#[derive(Debug, Clone, Copy, PartialEq, Eq, Structural)]
pub enum ExifTag {
    Make,
    Model,
    ImageDescription,
    LensModel,
    IsoSpeed,
    DateTimeOriginal,
    OffsetTimeOriginal,
    OffsetTime,
    Flash,
    Software,
    Artist,
    ColorSpace,
    UserComment,
    Orientation,
    ImageWidth,
    ImageLength,
    GpsLatitudeRef,
    GpsLongitudeRef,
    /// Windows `XPComment` (0x9c9c).
    XpComment,
    /// Windows `XPAuthor` (0x9c9d).
    XpAuthor,
    /// Windows `XPKeywords` (0x9c9e).
    XpKeywords,
    /// Windows `XPSubject` (0x9c9f).
    XpSubject,
    Other,
}

/// A tag of a photo: which tag, its raw value, and its displayed value.
#[derive(Debug, Clone, PartialEq, Eq)]
pub struct ExifField {
    pub tag: ExifTag,
    pub value: ExifValue,
    pub display: String,
}

/// Structured EXIF data of a photo. Its GPS position, which is read as floating-point
/// numbers, is kept outside the library.
#[derive(Debug, Clone, PartialEq, Eq)]
pub struct ExifData {
    pub make: Option<String>,
    pub model: Option<String>,
    pub lens: Option<String>,
    pub focal_length: Option<String>,
    pub aperture: Option<String>,
    pub shutter_speed: Option<String>,
    pub iso: Option<u32>,
    pub date_taken: Option<String>,
    pub timezone: Option<String>,
    pub dimensions: ImageDimensions,
    pub file_size: u64,
    pub format: String,
    pub flash: Option<String>,
    pub software: Option<String>,
    pub orientation: Option<u16>,
    pub artist: Option<String>,
    pub color_space: Option<String>,
    pub image_description: Option<String>,
    pub user_comment: Option<String>,
    pub tags: Vec<String>,
}

/// The GPS hemisphere references read so far.
#[derive(Debug, Clone, Default, PartialEq, Eq)]
pub struct GpsRefs {
    pub lat_ref: Option<String>,
    pub lon_ref: Option<String>,
}

/// The fields of [`ExifData`] a tag can set.
#[derive(Debug, Clone, Copy, PartialEq, Eq, Structural)]
pub enum ExifSlot {
    Make,
    Model,
    Lens,
    Iso,
    DateTaken,
    Timezone,
    Width,
    Height,
    Flash,
    Software,
    Orientation,
    Artist,
    ColorSpace,
    ImageDescription,
    UserComment,
    Tags,
    Nothing,
}

/// The field a tag sets.
pub open spec fn slot_of(tag: ExifTag) -> ExifSlot {
    match tag {
        ExifTag::Make => ExifSlot::Make,
        ExifTag::Model => ExifSlot::Model,
        ExifTag::ImageDescription => ExifSlot::ImageDescription,
        ExifTag::LensModel => ExifSlot::Lens,
        ExifTag::IsoSpeed => ExifSlot::Iso,
        ExifTag::DateTimeOriginal => ExifSlot::DateTaken,
        ExifTag::OffsetTimeOriginal => ExifSlot::Timezone,
        ExifTag::OffsetTime => ExifSlot::Timezone,
        ExifTag::Flash => ExifSlot::Flash,
        ExifTag::Software => ExifSlot::Software,
        ExifTag::Artist => ExifSlot::Artist,
        ExifTag::ColorSpace => ExifSlot::ColorSpace,
        ExifTag::UserComment => ExifSlot::UserComment,
        ExifTag::Orientation => ExifSlot::Orientation,
        ExifTag::ImageWidth => ExifSlot::Width,
        ExifTag::ImageLength => ExifSlot::Height,
        ExifTag::XpComment => ExifSlot::UserComment,
        ExifTag::XpAuthor => ExifSlot::Artist,
        ExifTag::XpKeywords => ExifSlot::Tags,
        ExifTag::XpSubject => ExifSlot::ImageDescription,
        _ => ExifSlot::Nothing,
    }
}

/// Every field but `slot` is as before.
pub open spec fn unchanged_except(o: ExifData, n: ExifData, slot: ExifSlot) -> bool {
    &&& (slot != ExifSlot::Make ==> n.make == o.make)
    &&& (slot != ExifSlot::Model ==> n.model == o.model)
    &&& (slot != ExifSlot::Lens ==> n.lens == o.lens)
    &&& n.focal_length == o.focal_length
    &&& n.aperture == o.aperture
    &&& n.shutter_speed == o.shutter_speed
    &&& (slot != ExifSlot::Iso ==> n.iso == o.iso)
    &&& (slot != ExifSlot::DateTaken ==> n.date_taken == o.date_taken)
    &&& (slot != ExifSlot::Timezone ==> n.timezone == o.timezone)
    &&& (slot != ExifSlot::Width ==> n.dimensions.width == o.dimensions.width)
    &&& (slot != ExifSlot::Height ==> n.dimensions.height == o.dimensions.height)
    &&& n.file_size == o.file_size
    &&& n.format == o.format
    &&& (slot != ExifSlot::Flash ==> n.flash == o.flash)
    &&& (slot != ExifSlot::Software ==> n.software == o.software)
    &&& (slot != ExifSlot::Orientation ==> n.orientation == o.orientation)
    &&& (slot != ExifSlot::Artist ==> n.artist == o.artist)
    &&& (slot != ExifSlot::ColorSpace ==> n.color_space == o.color_space)
    &&& (slot != ExifSlot::ImageDescription ==> n.image_description == o.image_description)
    &&& (slot != ExifSlot::UserComment ==> n.user_comment == o.user_comment)
    &&& (slot != ExifSlot::Tags ==> n.tags == o.tags)
}

/// The first value of a `SHORT` tag.
pub open spec fn first_short(v: ExifValue) -> Option<u16> {
    match v {
        ExifValue::Short(s) => if s@.len() > 0 {
            Some(s@[0])
        } else {
            None
        },
        _ => None,
    }
}

/// The first value of a `LONG` tag, else of a `SHORT` one.
pub open spec fn first_dimension(v: ExifValue) -> Option<u32> {
    match v {
        ExifValue::Long(l) => if l@.len() > 0 {
            Some(l@[0])
        } else {
            None
        },
        ExifValue::Short(s) => if s@.len() > 0 {
            Some(s@[0] as u32)
        } else {
            None
        },
        _ => None,
    }
}

/// How the flash tag reads: `No Flash`, `Fired`, or `Flash mode N`.
pub open spec fn flash_text(mode: u16) -> Seq<char> {
    if mode == 0 {
        "No Flash"@
    } else if mode == 1 {
        "Fired"@
    } else {
        "Flash mode "@ + crate::digest::decimal_spec(mode as nat)
    }
}

/// The first of two optional texts that is present.
pub open spec fn or_else(a: Option<Seq<char>>, b: Option<Seq<char>>) -> Option<Seq<char>> {
    match a {
        Some(x) => Some(x),
        None => b,
    }
}

/// A displayed offset, cleaned and normalised.
pub open spec fn offset_text(display: Seq<char>) -> Option<Seq<char>> {
    match clean_exif_spec(display) {
        Some(t) => normalize_timezone_spec(t),
        None => None,
    }
}

/// What reading one tag does to the record (the field [`slot_of`] names), as the tag's
/// rules have it.
pub open spec fn tag_applied(o: ExifData, n: ExifData, f: ExifField) -> bool {
    let shown = clean_exif_spec(f.display@);
    match f.tag {
        ExifTag::Make => opt_chars(n.make) == shown,
        ExifTag::Model => opt_chars(n.model) == shown,
        ExifTag::ImageDescription => opt_chars(n.image_description) == shown,
        ExifTag::LensModel => opt_chars(n.lens) == shown,
        ExifTag::IsoSpeed => n.iso == match first_short(f.value) {
            Some(v) => Some(v as u32),
            None => o.iso,
        },
        ExifTag::DateTimeOriginal => opt_chars(n.date_taken) == shown,
        ExifTag::OffsetTimeOriginal => opt_chars(n.timezone) == offset_text(f.display@),
        ExifTag::OffsetTime => if o.timezone is None {
            opt_chars(n.timezone) == offset_text(f.display@)
        } else {
            n.timezone == o.timezone
        },
        ExifTag::Flash => match first_short(f.value) {
            Some(m) => opt_chars(n.flash) == Some(flash_text(m)),
            None => n.flash == o.flash,
        },
        ExifTag::Software => opt_chars(n.software) == shown,
        ExifTag::Artist => opt_chars(n.artist) == shown,
        ExifTag::ColorSpace => opt_chars(n.color_space) == shown,
        ExifTag::UserComment => opt_chars(n.user_comment) == or_else(user_comment_spec(f.value), shown),
        ExifTag::Orientation => n.orientation == match first_short(f.value) {
            Some(v) => Some(v),
            None => o.orientation,
        },
        ExifTag::ImageWidth => n.dimensions.width == match first_dimension(f.value) {
            Some(v) => v,
            None => o.dimensions.width,
        },
        ExifTag::ImageLength => n.dimensions.height == match first_dimension(f.value) {
            Some(v) => v,
            None => o.dimensions.height,
        },
        ExifTag::XpComment => opt_chars(n.user_comment) == or_else(xp_string_spec(f.value), shown),
        ExifTag::XpAuthor => opt_chars(n.artist) == or_else(xp_string_spec(f.value), shown),
        ExifTag::XpKeywords => string_seq_view(n.tags@) == keywords_spec(f.value),
        ExifTag::XpSubject => opt_chars(n.image_description) == or_else(xp_string_spec(f.value), shown),
        _ => true,
    }
}

/// What reading one tag does to the GPS references.
pub open spec fn refs_applied(o: GpsRefs, n: GpsRefs, f: ExifField) -> bool {
    let shown = clean_exif_spec(f.display@);
    match f.tag {
        ExifTag::GpsLatitudeRef => opt_chars(n.lat_ref) == shown && n.lon_ref == o.lon_ref,
        ExifTag::GpsLongitudeRef => opt_chars(n.lon_ref) == shown && n.lat_ref == o.lat_ref,
        _ => n == o,
    }
}

fn first_or(a: Option<String>, b: Option<String>) -> (r: Option<String>)
    ensures
        opt_chars(r) == or_else(opt_chars(a), opt_chars(b)),
{
    match a {
        Some(x) => Some(x),
        None => b,
    }
}

fn flash_string(mode: u16) -> (r: String)
    ensures
        r@ == flash_text(mode),
{
    if mode == 0 {
        "No Flash".to_owned()
    } else if mode == 1 {
        "Fired".to_owned()
    } else {
        let mut s = "Flash mode ".to_owned();
        let n = crate::digest::decimal_u64(mode as u64);
        push_str(&mut s, n.as_str());
        s
    }
}

fn short_first(v: &ExifValue) -> (r: Option<u16>)
    ensures
        r == first_short(*v),
{
    match v {
        ExifValue::Short(s) => if s.len() > 0 {
            Some(s[0])
        } else {
            None
        },
        _ => None,
    }
}

fn dimension_first(v: &ExifValue) -> (r: Option<u32>)
    ensures
        r == first_dimension(*v),
{
    match v {
        ExifValue::Long(l) => if l.len() > 0 {
            Some(l[0])
        } else {
            None
        },
        ExifValue::Short(s) => if s.len() > 0 {
            Some(s[0] as u32)
        } else {
            None
        },
        _ => None,
    }
}

fn offset_string(display: &str) -> (r: Option<String>)
    ensures
        opt_chars(r) == offset_text(display@),
{
    match display_string(display) {
        Some(t) => normalize_timezone(t.as_str()),
        None => None,
    }
}

impl ExifData {
    /// The record before any tag is read: the file's size and format, all else empty.
    pub fn new(file_size: u64, format: String) -> (d: ExifData)
        ensures
            d.file_size == file_size,
            d.format == format,
            d.make is None && d.model is None && d.lens is None,
            d.focal_length is None && d.aperture is None && d.shutter_speed is None,
            d.iso is None && d.date_taken is None && d.timezone is None,
            d.dimensions.width == 0 && d.dimensions.height == 0,
            d.flash is None && d.software is None && d.orientation is None,
            d.artist is None && d.color_space is None && d.image_description is None,
            d.user_comment is None,
            d.tags@.len() == 0,
    {
        ExifData {
            make: None,
            model: None,
            lens: None,
            focal_length: None,
            aperture: None,
            shutter_speed: None,
            iso: None,
            date_taken: None,
            timezone: None,
            dimensions: ImageDimensions { width: 0, height: 0 },
            file_size,
            format,
            flash: None,
            software: None,
            orientation: None,
            artist: None,
            color_space: None,
            image_description: None,
            user_comment: None,
            tags: Vec::new(),
        }
    }

    /// Reads one tag into the record (and a GPS reference into `refs`).
    pub fn apply_field(&mut self, refs: &mut GpsRefs, f: &ExifField)
        ensures
            tag_applied(*old(self), *final(self), *f),
            unchanged_except(*old(self), *final(self), slot_of(f.tag)),
            refs_applied(*old(refs), *final(refs), *f),
    {
        let shown = display_string(f.display.as_str());
        match f.tag {
            ExifTag::Make => self.make = shown,
            ExifTag::Model => self.model = shown,
            ExifTag::ImageDescription => self.image_description = shown,
            ExifTag::LensModel => self.lens = shown,
            ExifTag::IsoSpeed => {
                if let Some(v) = short_first(&f.value) {
                    self.iso = Some(v as u32);
                }
            },
            ExifTag::DateTimeOriginal => self.date_taken = shown,
            ExifTag::OffsetTimeOriginal => self.timezone = offset_string(f.display.as_str()),
            ExifTag::OffsetTime => {
                if self.timezone.is_none() {
                    self.timezone = offset_string(f.display.as_str());
                }
            },
            ExifTag::Flash => {
                if let Some(m) = short_first(&f.value) {
                    self.flash = Some(flash_string(m));
                }
            },
            ExifTag::Software => self.software = shown,
            ExifTag::Artist => self.artist = shown,
            ExifTag::ColorSpace => self.color_space = shown,
            ExifTag::UserComment => self.user_comment = first_or(decode_user_comment(&f.value), shown),
            ExifTag::Orientation => {
                if let Some(v) = short_first(&f.value) {
                    self.orientation = Some(v);
                }
            },
            ExifTag::ImageWidth => {
                if let Some(v) = dimension_first(&f.value) {
                    self.dimensions.width = v;
                }
            },
            ExifTag::ImageLength => {
                if let Some(v) = dimension_first(&f.value) {
                    self.dimensions.height = v;
                }
            },
            ExifTag::GpsLatitudeRef => refs.lat_ref = shown,
            ExifTag::GpsLongitudeRef => refs.lon_ref = shown,
            ExifTag::XpComment => self.user_comment = first_or(parse_xp_string(&f.value), shown),
            ExifTag::XpAuthor => self.artist = first_or(parse_xp_string(&f.value), shown),
            ExifTag::XpKeywords => self.tags = parse_keywords(&f.value),
            ExifTag::XpSubject => self.image_description = first_or(parse_xp_string(&f.value), shown),
            ExifTag::Other => {},
        }
    }

    /// Whether the image file must be measured because EXIF gave no full size.
    pub fn needs_dimensions(&self) -> (r: bool)
        ensures
            r == (self.dimensions.width == 0 || self.dimensions.height == 0),
    {
        self.dimensions.width == 0 || self.dimensions.height == 0
    }

    /// Completes the record after all tags: a measured size replaces an incomplete one,
    /// and without keywords the description's inline tags become the tags.
    pub fn finish(&mut self, measured: Option<ImageDimensions>)
        ensures
            (old(self).dimensions.width == 0 || old(self).dimensions.height == 0) && measured is Some
                ==> final(self).dimensions == measured->0,
            !((old(self).dimensions.width == 0 || old(self).dimensions.height == 0) && measured is Some)
                ==> final(self).dimensions == old(self).dimensions,
            old(self).tags@.len() == 0 ==> string_seq_view(final(self).tags@) == match opt_chars(old(self).image_description) {
                Some(d) => inline_tags_spec(d),
                None => Seq::empty(),
            },
            old(self).tags@.len() > 0 ==> final(self).tags == old(self).tags,
            final(self).make == old(self).make,
            final(self).model == old(self).model,
            final(self).date_taken == old(self).date_taken,
            final(self).timezone == old(self).timezone,
            final(self).image_description == old(self).image_description,
            final(self).user_comment == old(self).user_comment,
            final(self).artist == old(self).artist,
            final(self).lens == old(self).lens,
            final(self).focal_length == old(self).focal_length,
            final(self).aperture == old(self).aperture,
            final(self).shutter_speed == old(self).shutter_speed,
            final(self).iso == old(self).iso,
            final(self).file_size == old(self).file_size,
            final(self).format == old(self).format,
            final(self).flash == old(self).flash,
            final(self).software == old(self).software,
            final(self).orientation == old(self).orientation,
            final(self).color_space == old(self).color_space,
    {
        if self.dimensions.width == 0 || self.dimensions.height == 0 {
            if let Some(d) = measured {
                self.dimensions = d;
            }
        }
        if self.tags.len() == 0 {
            self.tags = match &self.image_description {
                Some(d) => parse_inline_tags(d.as_str()),
                None => {
                    let v: Vec<String> = Vec::new();
                    assert(string_seq_view(v@) =~= Seq::<Seq<char>>::empty());
                    v
                },
            };
        }
    }
}

} // verus!
