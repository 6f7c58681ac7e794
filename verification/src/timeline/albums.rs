//! Daily albums: photos grouped by first-level folder and local day, named by date and
//! place.
use crate::digest::{decimal_chars_u128, decimal_spec, digit_char, sha1_hex, sha1_hex_spec};
use crate::order::{
    chars_less, lemma_seq_lt_irreflexive, lemma_seq_lt_total, lemma_seq_lt_transitive,
    seq_lt, sort_indices, sorted_permutation, IndexOrder,
};
use crate::text::{chars_eq, chars_of, push_char, push_str, slice_range, string_from_chars};
use crate::timeline::calendar::{
    instant_in_range, parse_rfc3339, rfc3339_parse_spec, tz_valid_spec, CivilDate, Timestamp,
};
use crate::timeline::holidays::{holiday_for, holiday_named};
use crate::timeline::models::{DailyAlbumBuild, TimeSource, TimelineAlbum, TimelinePhoto};
use crate::timeline::time::{local_day, local_day_spec};
use vstd::prelude::*;
use vstd::string::StringSliceAdditionalSpecFns;
use vstd::utf8::encode_utf8;

verus! {

/// The two decimal digits `chrono` writes for a value below 100.
pub open spec fn two_digit_text(n: int) -> Seq<char> {
    seq![digit_char((n / 10) % 10), digit_char(n % 10)]
}

/// The four decimal digits of a value below 10000.
pub open spec fn four_digit_text(n: int) -> Seq<char> {
    two_digit_text(n / 100) + two_digit_text(n % 100)
}

/// A year as `chrono` displays it: four digits within `0..=9999`, else signed and at
/// least four digits wide.
pub open spec fn year_text(y: int) -> Seq<char> {
    if 0 <= y <= 9999 {
        four_digit_text(y)
    } else if y < 0 {
        if -y <= 9999 {
            seq!['-'] + four_digit_text(-y)
        } else {
            seq!['-'] + decimal_spec((-y) as nat)
        }
    } else {
        seq!['+'] + decimal_spec(y as nat)
    }
}

/// `NaiveDate`'s display: `YYYY-MM-DD`.
pub open spec fn date_text(d: CivilDate) -> Seq<char> {
    year_text(d.year as int) + seq!['-'] + two_digit_text(d.month as int) + seq!['-'] + two_digit_text(
        d.day as int,
    )
}

/// `%y%m%d`: the year within its century, the month and the day, two digits each.
pub open spec fn short_date_text(d: CivilDate) -> Seq<char> {
    two_digit_text((d.year as int) % 100) + two_digit_text(d.month as int) + two_digit_text(
        d.day as int,
    )
}

fn push_two_digits(s: &mut String, n: u32)
    ensures
        final(s)@ == old(s)@ + two_digit_text(n as int),
{
    let tens = ((n / 10) % 10) as u8;
    let ones = (n % 10) as u8;
    push_char(s, (tens + 48) as char);
    push_char(s, (ones + 48) as char);
    assert(final(s)@ =~= old(s)@ + two_digit_text(n as int));
}

fn push_year(s: &mut String, y: i32)
    ensures
        final(s)@ == old(s)@ + year_text(y as int),
{
    if 0 <= y && y <= 9999 {
        push_two_digits(s, (y / 100) as u32);
        push_two_digits(s, (y % 100) as u32);
        assert(final(s)@ =~= old(s)@ + year_text(y as int));
    } else if y < 0 {
        push_char(s, '-');
        let m: u32 = (0 - (y as i64)) as u32;
        if m <= 9999 {
            push_two_digits(s, m / 100);
            push_two_digits(s, m % 100);
        } else {
            let digits = decimal_chars_u128(m as u128);
            let text = string_from_chars(digits.as_slice());
            push_str(s, text.as_str());
        }
        assert(final(s)@ =~= old(s)@ + year_text(y as int));
    } else {
        push_char(s, '+');
        let digits = decimal_chars_u128(y as u128);
        let text = string_from_chars(digits.as_slice());
        push_str(s, text.as_str());
        assert(final(s)@ =~= old(s)@ + year_text(y as int));
    }
}

/// A date as `YYYY-MM-DD`.
pub fn date_string(d: CivilDate) -> (s: String)
    ensures
        s@ == date_text(d),
{
    let mut s = String::new();
    push_year(&mut s, d.year);
    push_char(&mut s, '-');
    push_two_digits(&mut s, d.month);
    push_char(&mut s, '-');
    push_two_digits(&mut s, d.day);
    assert(s@ =~= date_text(d));
    s
}

/// A date as `YYMMDD`.
pub fn short_date_string(d: CivilDate) -> (s: String)
    ensures
        s@ == short_date_text(d),
{
    let mut s = String::new();
    let y = d.year % 100;
    let y = if y < 0 { y + 100 } else { y };
    assert(y as int == (d.year as int) % 100);
    push_two_digits(&mut s, y as u32);
    push_two_digits(&mut s, d.month);
    push_two_digits(&mut s, d.day);
    assert(s@ =~= short_date_text(d));
    s
}

/// The first component of a relative path, or nothing for a file at the root.
pub open spec fn first_level_folder_spec(path: Seq<char>) -> Seq<char> {
    if exists|k: int| 0 <= k < path.len() && path[k] == '/' {
        let k = choose|k: int|
            0 <= k < path.len() && path[k] == '/' && forall|j: int| 0 <= j < k ==> path[j] != '/';
        path.subrange(0, k)
    } else {
        Seq::empty()
    }
}

/// The text of `path` before its first `/`; empty when it has none.
pub fn first_level_folder(path: &str) -> (r: String)
    ensures
        r@ == first_level_folder_spec(path@),
{
    let v = chars_of(path);
    let mut i: usize = 0;
    while i < v.len() && v[i] != '/'
        invariant
            i <= v@.len(),
            v@ == path@,
            forall|j: int| 0 <= j < i ==> v@[j] != '/',
        decreases v@.len() - i,
    {
        i = i + 1;
    }
    if i < v.len() {
        let ghost k = choose|k: int|
            0 <= k < path@.len() && path@[k] == '/' && forall|j: int| 0 <= j < k ==> path@[j] != '/';
        assert(0 <= i < path@.len() && path@[i as int] == '/' && forall|j: int| 0 <= j < i ==> path@[j] != '/');
        assert(k == i) by {
            if k < i {
                assert(path@[k] != '/');
            } else if k > i {
                assert(path@[i as int] != '/');
            }
        }
        let mut prefix: Vec<char> = Vec::new();
        let mut j: usize = 0;
        while j < i
            invariant
                j <= i,
                i < v@.len(),
                prefix@ == v@.subrange(0, j as int),
            decreases i - j,
        {
            prefix.push(v[j]);
            j = j + 1;
            assert(prefix@ =~= v@.subrange(0, j as int));
        }
        string_from_chars(prefix.as_slice())
    } else {
        String::new()
    }
}

/// The album id of a day in a folder: `auto-day:DATE`, and for a folder other than the
/// root, `:` and the SHA-1 hex of the folder's UTF-8 bytes.
pub open spec fn dated_album_id_spec(folder: Seq<char>, date: CivilDate) -> Seq<char> {
    if folder.len() == 0 {
        "auto-day:"@ + date_text(date)
    } else {
        "auto-day:"@ + date_text(date) + seq![':'] + sha1_hex_spec(encode_utf8(folder))
    }
}

/// The id of the album for a day in a folder.
pub fn dated_album_id(folder: &str, date: CivilDate) -> (r: String)
    ensures
        r@ == dated_album_id_spec(folder@, date),
{
    let mut r = String::new();
    push_str(&mut r, "auto-day:");
    let d = date_string(date);
    push_str(&mut r, d.as_str());
    if !folder.is_empty() {
        push_char(&mut r, ':');
        let fp = folder_fingerprint(folder);
        push_str(&mut r, fp.as_str());
    }
    assert(r@ =~= dated_album_id_spec(folder@, date));
    r
}

/// Lower-case hex SHA-1 of a folder name's UTF-8 bytes.
pub fn folder_fingerprint(folder: &str) -> (r: String)
    ensures
        r@ == sha1_hex_spec(encode_utf8(folder@)),
{
    assert(folder.spec_bytes() == encode_utf8(folder@));
    sha1_hex(folder.as_bytes())
}

/// The places of an album as its name and summary give them: the first two joined by
/// ` · `, then ` +N` for the `N` more.
pub open spec fn place_summary_spec(places: Seq<Seq<char>>) -> Option<Seq<char>> {
    if places.len() == 0 {
        None
    } else {
        let head = if places.len() == 1 {
            places[0]
        } else {
            places[0] + " · "@ + places[1]
        };
        if places.len() > 2 {
            Some(head + " +"@ + decimal_spec((places.len() - 2) as nat))
        } else {
            Some(head)
        }
    }
}

/// The views of a list of strings.
pub open spec fn string_views(v: Seq<String>) -> Seq<Seq<char>> {
    v.map_values(|s: String| s@)
}

/// Summarises an album's places; `None` when it has none.
pub fn place_summary(places: &[String]) -> (r: Option<String>)
    ensures
        match r {
            Some(s) => place_summary_spec(string_views(places@)) == Some(s@),
            None => place_summary_spec(string_views(places@)) is None,
        },
{
    if places.len() == 0 {
        return None;
    }
    let mut summary = String::new();
    push_str(&mut summary, places[0].as_str());
    if places.len() > 1 {
        push_str(&mut summary, " · ");
        push_str(&mut summary, places[1].as_str());
    }
    if places.len() > 2 {
        push_str(&mut summary, " +");
        let rest = decimal_chars_u128((places.len() - 2) as u128);
        let rest = string_from_chars(rest.as_slice());
        push_str(&mut summary, rest.as_str());
    }
    assert(Some(summary@) == place_summary_spec(string_views(places@)));
    Some(summary)
}

/// An album's name: `YYMMDD`, then ` · ` and the place summary when there are places.
pub open spec fn album_name_spec(date: CivilDate, places: Seq<Seq<char>>) -> Seq<char> {
    match place_summary_spec(places) {
        Some(p) => short_date_text(date) + " · "@ + p,
        None => short_date_text(date),
    }
}

/// Every place of an album is shown or counted: one or two places are all shown, the
/// first leading and joined by ` · `; with more than two, the first two are shown and the
/// summary ends with ` +N`, `N` the number of places not shown. The album's name ends
/// with that summary.
pub proof fn lemma_places_shown_or_counted(date: CivilDate, places: Seq<Seq<char>>)
    requires
        places.len() > 0,
    ensures
        ({
            let n = places.len();
            let s = place_summary_spec(places)->0;
            let name = album_name_spec(date, places);
            &&& place_summary_spec(places) is Some
            &&& s.subrange(0, places[0].len() as int) == places[0]
            &&& n == 1 ==> s == places[0]
            &&& n == 2 ==> s == places[0] + " · "@ + places[1]
            &&& n > 2 ==> {
                let tail = " +"@ + decimal_spec((n - 2) as nat);
                &&& tail.len() <= s.len()
                &&& s.subrange(s.len() - tail.len(), s.len() as int) == tail
                &&& s.subrange(0, s.len() - tail.len()) == places[0] + " · "@ + places[1]
            }
            &&& s.len() <= name.len()
            &&& name.subrange(name.len() - s.len(), name.len() as int) == s
        }),
{
    let n = places.len();
    let s = place_summary_spec(places)->0;
    let name = album_name_spec(date, places);
    let head = if n == 1 {
        places[0]
    } else {
        places[0] + " · "@ + places[1]
    };
    assert(head.subrange(0, places[0].len() as int) =~= places[0]);
    if n > 2 {
        let tail = " +"@ + decimal_spec((n - 2) as nat);
        assert(s == head + tail);
        assert(s.subrange(s.len() - tail.len(), s.len() as int) =~= tail);
        assert(s.subrange(0, s.len() - tail.len()) =~= head);
        assert(s.subrange(0, places[0].len() as int) =~= places[0]);
    }
    let prefix = short_date_text(date) + " · "@;
    assert(name == prefix + s);
    assert(name.subrange(name.len() - s.len(), name.len() as int) =~= s);
}

/// Names the album of a day from its date and places.
pub fn format_album_name(date: CivilDate, places: &[String]) -> (r: String)
    ensures
        r@ == album_name_spec(date, string_views(places@)),
{
    let mut name = short_date_string(date);
    if let Some(place) = place_summary(places) {
        push_str(&mut name, " · ");
        push_str(&mut name, place.as_str());
    }
    name
}

/// What places a photo among the others: its folder and day, then its instant, path
/// and id.
pub struct KeyView {
    pub folder: Seq<char>,
    pub date: CivilDate,
    pub secs: i64,
    pub nanos: u32,
    pub path: Seq<char>,
    pub id: Seq<char>,
}

/// Chronological order of dates.
pub open spec fn date_lt(a: CivilDate, b: CivilDate) -> bool {
    a.year < b.year || (a.year == b.year && (a.month < b.month || (a.month == b.month && a.day
        < b.day)))
}

/// The order of albums' days: by folder name, then by date.
pub open spec fn day_lt(fa: Seq<char>, da: CivilDate, fb: Seq<char>, db: CivilDate) -> bool {
    seq_lt(fa, fb) || (fa == fb && date_lt(da, db))
}

/// The order of photos within a day: by instant, then path, then id.
pub open spec fn member_lt(a: KeyView, b: KeyView) -> bool {
    a.secs < b.secs || (a.secs == b.secs && (a.nanos < b.nanos || (a.nanos == b.nanos && (
    seq_lt(a.path, b.path) || (a.path == b.path && seq_lt(a.id, b.id))))))
}

/// The order of photos: by day, then within the day.
pub open spec fn key_lt(a: KeyView, b: KeyView) -> bool {
    day_lt(a.folder, a.date, b.folder, b.date) || (a.folder == b.folder && a.date == b.date
        && member_lt(a, b))
}

pub open spec fn key_same(a: KeyView, b: KeyView) -> bool {
    &&& a.folder == b.folder
    &&& a.date == b.date
    &&& a.secs == b.secs
    &&& a.nanos == b.nanos
    &&& a.path == b.path
    &&& a.id == b.id
}

/// Photo `i` comes before photo `j`: by key, and by position among equal keys.
pub open spec fn key_before(keys: Seq<KeyView>, i: int, j: int) -> bool {
    key_lt(keys[i], keys[j]) || (key_same(keys[i], keys[j]) && i < j)
}

pub proof fn lemma_day_lt_transitive(
    fa: Seq<char>,
    da: CivilDate,
    fb: Seq<char>,
    db: CivilDate,
    fc: Seq<char>,
    dc: CivilDate,
)
    requires
        day_lt(fa, da, fb, db),
        day_lt(fb, db, fc, dc),
    ensures
        day_lt(fa, da, fc, dc),
{
    if seq_lt(fa, fb) && seq_lt(fb, fc) {
        lemma_seq_lt_transitive(fa, fb, fc);
    }
}

pub proof fn lemma_day_lt_irreflexive(f: Seq<char>, d: CivilDate)
    ensures
        !day_lt(f, d, f, d),
{
    lemma_seq_lt_irreflexive(f);
}

pub proof fn lemma_key_lt_irreflexive(a: KeyView)
    ensures
        !key_lt(a, a),
{
    lemma_seq_lt_irreflexive(a.folder);
    lemma_seq_lt_irreflexive(a.path);
    lemma_seq_lt_irreflexive(a.id);
}

pub proof fn lemma_key_lt_transitive(a: KeyView, b: KeyView, c: KeyView)
    requires
        key_lt(a, b),
        key_lt(b, c),
    ensures
        key_lt(a, c),
{
    if seq_lt(a.folder, b.folder) && seq_lt(b.folder, c.folder) {
        lemma_seq_lt_transitive(a.folder, b.folder, c.folder);
    }
    if seq_lt(a.path, b.path) && seq_lt(b.path, c.path) {
        lemma_seq_lt_transitive(a.path, b.path, c.path);
    }
    if seq_lt(a.id, b.id) && seq_lt(b.id, c.id) {
        lemma_seq_lt_transitive(a.id, b.id, c.id);
    }
}

pub proof fn lemma_key_lt_total(a: KeyView, b: KeyView)
    ensures
        key_lt(a, b) || key_lt(b, a) || key_same(a, b),
{
    lemma_seq_lt_total(a.folder, b.folder);
    lemma_seq_lt_total(a.path, b.path);
    lemma_seq_lt_total(a.id, b.id);
}

/// The instant a photo was taken: its stored RFC 3339 time, else its modification time
/// at UTC.
pub open spec fn photo_instant_spec(p: TimelinePhoto) -> Timestamp {
    let mtime = Timestamp {
        secs: (p.mtime_ns as int / 1_000_000_000) as i64,
        nanos: (p.mtime_ns as int % 1_000_000_000) as u32,
        offset: 0,
    };
    match p.taken_at {
        Some(v) => match rfc3339_parse_spec(v@) {
            Some(t) => t,
            None => mtime,
        },
        None => mtime,
    }
}

/// A photo's key, given its day.
pub open spec fn key_of(p: TimelinePhoto, day: CivilDate) -> KeyView {
    let t = photo_instant_spec(p);
    KeyView {
        folder: first_level_folder_spec(p.relative_path@),
        date: day,
        secs: t.secs,
        nanos: t.nanos,
        path: p.relative_path@,
        id: p.id@,
    }
}

/// The day a photo belongs to in the zone.
pub open spec fn photo_day_spec(p: TimelinePhoto, tz: Seq<char>) -> Option<CivilDate> {
    local_day_spec(photo_instant_spec(p).secs as int, tz)
}

/// Every photo has a day in the zone.
pub open spec fn all_days_known(photos: Seq<TimelinePhoto>, tz: Seq<char>) -> bool {
    forall|i: int| 0 <= i < photos.len() ==> (#[trigger] photo_day_spec(photos[i], tz)) is Some
}

/// The keys of the photos, each with its day in the zone.
pub open spec fn photo_keys_spec(photos: Seq<TimelinePhoto>, tz: Seq<char>) -> Seq<KeyView> {
    Seq::new(photos.len(), |i: int| key_of(photos[i], photo_day_spec(photos[i], tz)->0))
}

/// The instant a photo was taken.
pub fn photo_instant(p: &TimelinePhoto) -> (t: Timestamp)
    ensures
        t == photo_instant_spec(*p),
        instant_in_range(t.secs as int),
{
    if let Some(v) = &p.taken_at {
        if let Some(t) = parse_rfc3339(v.as_str()) {
            return t;
        }
    }
    let secs = p.mtime_ns / 1_000_000_000;
    let nanos = p.mtime_ns % 1_000_000_000;
    let (secs, nanos) = if nanos < 0 {
        (secs - 1, nanos + 1_000_000_000)
    } else {
        (secs, nanos)
    };
    assert(secs as int == p.mtime_ns as int / 1_000_000_000);
    assert(nanos as int == p.mtime_ns as int % 1_000_000_000);
    Timestamp { secs, nanos: nanos as u32, offset: 0 }
}

/// A photo's key as the builder holds it.
pub struct MemberKey {
    pub folder: Vec<char>,
    pub date: CivilDate,
    pub secs: i64,
    pub nanos: u32,
    pub path: Vec<char>,
    pub id: Vec<char>,
}

impl View for MemberKey {
    type V = KeyView;

    open spec fn view(&self) -> KeyView {
        KeyView {
            folder: self.folder@,
            date: self.date,
            secs: self.secs,
            nanos: self.nanos,
            path: self.path@,
            id: self.id@,
        }
    }
}

pub open spec fn key_views(keys: Seq<MemberKey>) -> Seq<KeyView> {
    keys.map_values(|k: MemberKey| k@)
}

fn date_less(a: CivilDate, b: CivilDate) -> (r: bool)
    ensures
        r == date_lt(a, b),
{
    a.year < b.year || (a.year == b.year && (a.month < b.month || (a.month == b.month && a.day
        < b.day)))
}

fn member_key_less(a: &MemberKey, b: &MemberKey) -> (r: bool)
    ensures
        r == key_lt(a@, b@),
{
    if chars_less(&a.folder, &b.folder) {
        return true;
    }
    if !chars_eq(&a.folder, &b.folder) {
        return false;
    }
    if date_less(a.date, b.date) {
        return true;
    }
    if a.date != b.date {
        return false;
    }
    if a.secs != b.secs {
        return a.secs < b.secs;
    }
    if a.nanos != b.nanos {
        return a.nanos < b.nanos;
    }
    if chars_less(&a.path, &b.path) {
        return true;
    }
    if !chars_eq(&a.path, &b.path) {
        return false;
    }
    proof {
        lemma_seq_lt_irreflexive(a.folder@);
    }
    chars_less(&a.id, &b.id)
}

fn member_key_same(a: &MemberKey, b: &MemberKey) -> (r: bool)
    ensures
        r == key_same(a@, b@),
{
    chars_eq(&a.folder, &b.folder) && a.date == b.date && a.secs == b.secs && a.nanos == b.nanos
        && chars_eq(&a.path, &b.path) && chars_eq(&a.id, &b.id)
}

/// The photos' keys, in order, with the order the album builder sorts them by.
pub struct MemberOrder {
    pub keys: Vec<MemberKey>,
}

impl IndexOrder for MemberOrder {
    open spec fn size(&self) -> nat {
        self.keys@.len()
    }

    open spec fn before(&self, i: int, j: int) -> bool {
        key_before(key_views(self.keys@), i, j)
    }

    proof fn lemma_irreflexive(&self, i: int) {
        lemma_key_lt_irreflexive(self.keys@[i]@);
    }

    proof fn lemma_transitive(&self, i: int, j: int, k: int) {
        let v = key_views(self.keys@);
        lemma_key_lt_irreflexive(v[i]);
        if key_lt(v[i], v[j]) && key_lt(v[j], v[k]) {
            lemma_key_lt_transitive(v[i], v[j], v[k]);
        }
    }

    proof fn lemma_total(&self, i: int, j: int) {
        let v = key_views(self.keys@);
        lemma_key_lt_total(v[i], v[j]);
    }

    fn less(&self, i: usize, j: usize) -> (r: bool) {
        let a = &self.keys[i];
        let b = &self.keys[j];
        member_key_less(a, b) || (member_key_same(a, b) && i < j)
    }
}

/// The photos' keys in the zone named `tz`; `None` when some photo has no day there,
/// which happens only when the zone is unknown.
pub fn photo_keys(photos: &[TimelinePhoto], tz: &str) -> (r: Option<Vec<MemberKey>>)
    ensures
        match r {
            Some(keys) => all_days_known(photos@, tz@) && key_views(keys@) == photo_keys_spec(
                photos@,
                tz@,
            ),
            None => !all_days_known(photos@, tz@),
        },
        tz_valid_spec(tz@) ==> r is Some,
{
    let mut keys: Vec<MemberKey> = Vec::new();
    let mut i: usize = 0;
    while i < photos.len()
        invariant
            i <= photos@.len(),
            keys@.len() == i,
            forall|k: int|
                0 <= k < i ==> (#[trigger] photo_day_spec(photos@[k], tz@)) is Some && keys@[k]@
                    == key_of(photos@[k], photo_day_spec(photos@[k], tz@)->0),
        decreases photos@.len() - i,
    {
        let p = &photos[i];
        let t = photo_instant(p);
        let day = match local_day(t, tz) {
            Some(d) => d,
            None => {
                assert(photo_day_spec(photos@[i as int], tz@) is None);
                assert(!tz_valid_spec(tz@));
                return None;
            },
        };
        let folder_text = first_level_folder(p.relative_path.as_str());
        let folder = chars_of(folder_text.as_str());
        let path = chars_of(p.relative_path.as_str());
        let id = chars_of(p.id.as_str());
        keys.push(MemberKey { folder, date: day, secs: t.secs, nanos: t.nanos, path, id });
        i = i + 1;
    }
    assert(key_views(keys@) =~= photo_keys_spec(photos@, tz@));
    Some(keys)
}

/// The photos of one folder on one day, in order.
pub struct DayGroup {
    pub folder: String,
    pub date: CivilDate,
    pub members: Vec<usize>,
}

/// Photo `i` is a member of one of the groups.
pub open spec fn in_some_group(groups: Seq<DayGroup>, i: int) -> bool {
    exists|g: int, m: int|
        0 <= g < groups.len() && 0 <= m < groups[g].members@.len() && groups[g].members@[m] == i
}

/// The groups are the photos' days, in order, each listing its photos in order. Every
/// group has members; each member has the group's folder and day; members are sorted;
/// days are sorted and so distinct.
pub open spec fn groups_sorted(keys: Seq<KeyView>, groups: Seq<DayGroup>) -> bool {
    &&& forall|g: int| 0 <= g < groups.len() ==> (#[trigger] groups[g]).members@.len() > 0
    &&& forall|g: int, m: int|
        0 <= g < groups.len() && 0 <= m < groups[g].members@.len() ==> {
            let i = #[trigger] groups[g].members@[m];
            &&& i < keys.len()
            &&& keys[i as int].folder == groups[g].folder@
            &&& keys[i as int].date == groups[g].date
        }
    &&& forall|g: int, a: int, b: int|
        0 <= g < groups.len() && 0 <= a < b < groups[g].members@.len() ==> key_before(
            keys,
            #[trigger] groups[g].members@[a] as int,
            #[trigger] groups[g].members@[b] as int,
        )
    &&& forall|g1: int, g2: int|
        0 <= g1 < g2 < groups.len() ==> day_lt(
            (#[trigger] groups[g1]).folder@,
            groups[g1].date,
            (#[trigger] groups[g2]).folder@,
            groups[g2].date,
        )
}

/// [`groups_sorted`], and every photo is in a group.
pub open spec fn groups_partition(keys: Seq<KeyView>, groups: Seq<DayGroup>) -> bool {
    &&& groups_sorted(keys, groups)
    &&& forall|i: int| 0 <= i < keys.len() ==> #[trigger] in_some_group(groups, i)
}

/// Groups the photos by first-level folder and local day in the zone named `tz`: days in
/// order of folder then date, photos within a day by instant, path, id and then their
/// position in `photos`. `None` when some photo has no day in the zone.
pub fn daily_groups(photos: &[TimelinePhoto], tz: &str) -> (r: Option<Vec<DayGroup>>)
    ensures
        match r {
            Some(groups) => all_days_known(photos@, tz@) && groups_partition(
                photo_keys_spec(photos@, tz@),
                groups@,
            ),
            None => !all_days_known(photos@, tz@),
        },
        tz_valid_spec(tz@) ==> r is Some,
{
    let keys = match photo_keys(photos, tz) {
        Some(k) => k,
        None => return None,
    };
    let n = keys.len();
    let o = MemberOrder { keys };
    let order = sort_indices(&o, n);
    let ghost kv = key_views(o.keys@);
    let mut groups: Vec<DayGroup> = Vec::new();
    let mut cur_folder: Vec<char> = Vec::new();
    let mut cur_date = CivilDate { year: 0, month: 0, day: 0 };
    let mut p: usize = 0;
    while p < n
        invariant
            n == o.keys@.len(),
            kv == key_views(o.keys@),
            kv.len() == n,
            sorted_permutation(&o, order@, n as nat),
            p <= n,
            groups_sorted(kv, groups@),
            forall|q: int| 0 <= q < p ==> #[trigger] in_some_group(groups@, order@[q] as int),
            p == 0 <==> groups@.len() == 0,
            p > 0 ==> {
                let last = groups@.last();
                &&& last.members@.last() == order@[p - 1]
                &&& cur_folder@ == last.folder@
                &&& cur_date == last.date
            },
        decreases n - p,
    {
        let i = order[p];
        let same = p > 0 && chars_eq(&o.keys[i].folder, &cur_folder) && o.keys[i].date == cur_date;
        let ghost old_groups = groups@;
        proof {
            if p > 0 {
                assert(o.before(order@[p - 1] as int, order@[p as int] as int));
            }
        }
        if same {
            let ghost lastg = (groups@.len() - 1) as int;
            let mut g = groups.pop().unwrap();
            g.members.push(i);
            groups.push(g);
            proof {
                let old_last = old_groups[lastg];
                let lm = (old_last.members@.len() - 1) as int;
                assert(groups@.len() == old_groups.len());
                assert forall|h: int| 0 <= h < lastg implies #[trigger] groups@[h] == old_groups[h] by {}
                assert(groups@[lastg].members@ == old_last.members@.push(i));
                assert(groups@[lastg].folder == old_last.folder);
                assert(old_last.members@[lm] == order@[p - 1]);
                assert(0 <= old_last.members@[lm] < n) by {
                    assert(old_groups[lastg].members@[lm] < kv.len());
                }
                assert forall|a: int, b: int|
                    0 <= a < b < groups@[lastg].members@.len() implies key_before(
                    kv,
                    #[trigger] groups@[lastg].members@[a] as int,
                    #[trigger] groups@[lastg].members@[b] as int,
                ) by {
                    if b == lm + 1 {
                        if a < lm {
                            assert(key_before(kv, old_last.members@[a] as int, old_last.members@[lm] as int));
                            assert(old_last.members@[a] < kv.len());
                            o.lemma_transitive(
                                old_last.members@[a] as int,
                                order@[p - 1] as int,
                                i as int,
                            );
                        }
                    } else {
                        assert(groups@[lastg].members@[a] == old_last.members@[a]);
                        assert(groups@[lastg].members@[b] == old_last.members@[b]);
                    }
                }
                assert forall|g2: int, m: int|
                    0 <= g2 < groups@.len() && 0 <= m < groups@[g2].members@.len() implies {
                    let j = #[trigger] groups@[g2].members@[m];
                    &&& j < kv.len()
                    &&& kv[j as int].folder == groups@[g2].folder@
                    &&& kv[j as int].date == groups@[g2].date
                } by {
                    if g2 == lastg && m == lm + 1 {
                        assert(groups@[g2].members@[m] == i);
                    } else if g2 == lastg {
                        assert(groups@[g2].members@[m] == old_last.members@[m]);
                    }
                }
                assert forall|q: int| 0 <= q < p + 1 implies #[trigger] in_some_group(
                    groups@,
                    order@[q] as int,
                ) by {
                    if q == p {
                        assert(groups@[lastg].members@[lm + 1] == order@[q]);
                    } else {
                        assert(in_some_group(old_groups, order@[q] as int));
                        let (g0, m0) = choose|g0: int, m0: int|
                            0 <= g0 < old_groups.len() && 0 <= m0 < old_groups[g0].members@.len()
                                && old_groups[g0].members@[m0] == order@[q] as int;
                        if g0 == lastg {
                            assert(groups@[g0].members@[m0] == old_groups[g0].members@[m0]);
                        } else {
                            assert(groups@[g0] == old_groups[g0]);
                        }
                    }
                }
            }
        } else {
            let len = o.keys[i].folder.len();
            cur_folder = slice_range(&o.keys[i].folder, 0, len);
            assert(cur_folder@ =~= o.keys@[i as int].folder@);
            cur_date = o.keys[i].date;
            let folder = string_from_chars(cur_folder.as_slice());
            let mut members: Vec<usize> = Vec::new();
            members.push(i);
            groups.push(DayGroup { folder, date: cur_date, members });
            proof {
                let ng = old_groups.len() as int;
                assert forall|h: int| 0 <= h < ng implies #[trigger] groups@[h] == old_groups[h] by {}
                assert(kv[i as int] == o.keys@[i as int]@);
                if p > 0 {
                    let lastg = ng - 1;
                    let old_last = old_groups[lastg];
                    let lm = (old_last.members@.len() - 1) as int;
                    let j = order@[p - 1];
                    assert(old_last.members@[lm] == j);
                    assert(kv[j as int].folder == old_last.folder@);
                    assert(kv[j as int].date == old_last.date);
                    assert(key_before(kv, j as int, i as int));
                    assert(!(kv[j as int].folder == kv[i as int].folder && kv[j as int].date == kv[i as int].date));
                    assert(day_lt(old_last.folder@, old_last.date, kv[i as int].folder, kv[i as int].date));
                    assert forall|g1: int, g2: int|
                        0 <= g1 < g2 < groups@.len() implies day_lt(
                        (#[trigger] groups@[g1]).folder@,
                        groups@[g1].date,
                        (#[trigger] groups@[g2]).folder@,
                        groups@[g2].date,
                    ) by {
                        if g2 == ng && g1 < lastg {
                            lemma_day_lt_transitive(
                                old_groups[g1].folder@,
                                old_groups[g1].date,
                                old_last.folder@,
                                old_last.date,
                                kv[i as int].folder,
                                kv[i as int].date,
                            );
                        }
                    }
                }
                assert forall|q: int| 0 <= q < p + 1 implies #[trigger] in_some_group(
                    groups@,
                    order@[q] as int,
                ) by {
                    if q == p {
                        assert(groups@[ng].members@[0] == order@[q]);
                    } else {
                        assert(in_some_group(old_groups, order@[q] as int));
                        let (g0, m0) = choose|g0: int, m0: int|
                            0 <= g0 < old_groups.len() && 0 <= m0 < old_groups[g0].members@.len()
                                && old_groups[g0].members@[m0] == order@[q] as int;
                        assert(groups@[g0] == old_groups[g0]);
                    }
                }
            }
        }
        p = p + 1;
    }
    proof {
        assert forall|x: int| 0 <= x < kv.len() implies #[trigger] in_some_group(groups@, x) by {
            assert(crate::order::appears_in(order@, x));
            let k = choose|k: int| 0 <= k < order@.len() && order@[k] == x;
            assert(in_some_group(groups@, order@[k] as int));
        }
    }
    Some(groups)
}

/// The view of an optional string.
pub open spec fn opt_view(o: Option<String>) -> Option<Seq<char>> {
    match o {
        Some(s) => Some(s@),
        None => None,
    }
}

#[verifier::opaque]
/// `b` is the album of group `g` with the given places: its photos' ids in the group's
/// order, its id and name from folder, date and places, the place summary, the holiday
/// of the date for the lunar date that came back, the count, and the middle photo
/// (index `len / 2`) as cover.
pub open spec fn album_of(
    b: DailyAlbumBuild,
    g: DayGroup,
    photos: Seq<TimelinePhoto>,
    places: Seq<Seq<char>>,
) -> bool {
    let n = g.members@.len();
    &&& b.photo_ids@.len() == n
    &&& forall|k: int| 0 <= k < n ==> (#[trigger] b.photo_ids@[k])@ == photos[g.members@[k] as int].id@
    &&& b.album.id@ == dated_album_id_spec(g.folder@, g.date)
    &&& b.album.name@ == album_name_spec(g.date, places)
    &&& b.album.description is None
    &&& b.album.date_start == Some(g.date)
    &&& b.album.date_end == Some(g.date)
    &&& opt_view(b.album.place) == place_summary_spec(places)
    &&& holiday_named(g.date, opt_view(b.album.holiday))
    &&& b.album.photo_count == n
    &&& opt_view(b.album.cover_photo_id) == (if n > 0 {
        Some(photos[g.members@[(n / 2) as int] as int].id@)
    } else {
        None
    })
}

/// Builds the album of one group from its resolved places.
pub fn assemble_daily_album(group: &DayGroup, photos: &[TimelinePhoto], places: &[String]) -> (b:
    DailyAlbumBuild)
    requires
        forall|k: int| 0 <= k < group.members@.len() ==> (#[trigger] group.members@[k]) < photos@.len(),
    ensures
        album_of(b, *group, photos@, string_views(places@)),
{
    reveal(album_of);
    let mut photo_ids: Vec<String> = Vec::new();
    let mut k: usize = 0;
    while k < group.members.len()
        invariant
            k <= group.members@.len(),
            photo_ids@.len() == k,
            forall|k2: int| 0 <= k2 < group.members@.len() ==> (#[trigger] group.members@[k2]) < photos@.len(),
            forall|j: int| 0 <= j < k ==> (#[trigger] photo_ids@[j])@ == photos@[group.members@[j] as int].id@,
        decreases group.members@.len() - k,
    {
        let id = photos[group.members[k]].id.clone();
        photo_ids.push(id);
        k = k + 1;
    }
    let n = photo_ids.len();
    let cover_photo_id = if n > 0 {
        Some(photo_ids[n / 2].clone())
    } else {
        None
    };
    let holiday = match holiday_for(group.date) {
        Some(h) => Some(h.to_owned()),
        None => None,
    };
    let album = TimelineAlbum {
        id: dated_album_id(group.folder.as_str(), group.date),
        name: format_album_name(group.date, places),
        description: None,
        date_start: Some(group.date),
        date_end: Some(group.date),
        place: place_summary(places),
        holiday,
        photo_count: n,
        cover_photo_id,
    };
    DailyAlbumBuild { album, photo_ids }
}

/// What orders albums: date, then name, then id.
pub struct AlbumKey {
    pub date: CivilDate,
    pub name: Seq<char>,
    pub id: Seq<char>,
}

pub open spec fn album_key_lt(a: AlbumKey, b: AlbumKey) -> bool {
    date_lt(a.date, b.date) || (a.date == b.date && (seq_lt(a.name, b.name) || (a.name == b.name
        && seq_lt(a.id, b.id))))
}

pub open spec fn album_key_same(a: AlbumKey, b: AlbumKey) -> bool {
    a.date == b.date && a.name == b.name && a.id == b.id
}

/// Album `i` comes before album `j`: by key, and by position among equal keys.
pub open spec fn album_before(keys: Seq<AlbumKey>, i: int, j: int) -> bool {
    album_key_lt(keys[i], keys[j]) || (album_key_same(keys[i], keys[j]) && i < j)
}

/// The key of the album a group makes with its places.
pub open spec fn album_key_of(g: DayGroup, places: Seq<Seq<char>>) -> AlbumKey {
    AlbumKey {
        date: g.date,
        name: album_name_spec(g.date, places),
        id: dated_album_id_spec(g.folder@, g.date),
    }
}

/// The keys of the albums the groups make.
pub open spec fn album_keys_spec(groups: Seq<DayGroup>, places: Seq<Vec<String>>) -> Seq<AlbumKey> {
    Seq::new(groups.len(), |i: int| album_key_of(groups[i], string_views(places[i]@)))
}

/// An album's key as the sorter holds it.
pub struct AlbumSortKey {
    pub date: CivilDate,
    pub name: Vec<char>,
    pub id: Vec<char>,
}

impl View for AlbumSortKey {
    type V = AlbumKey;

    open spec fn view(&self) -> AlbumKey {
        AlbumKey { date: self.date, name: self.name@, id: self.id@ }
    }
}

/// The albums' keys with the order they are listed in.
pub struct AlbumOrder {
    pub keys: Vec<AlbumSortKey>,
}

pub open spec fn album_key_views(keys: Seq<AlbumSortKey>) -> Seq<AlbumKey> {
    keys.map_values(|k: AlbumSortKey| k@)
}

impl IndexOrder for AlbumOrder {
    open spec fn size(&self) -> nat {
        self.keys@.len()
    }

    open spec fn before(&self, i: int, j: int) -> bool {
        album_before(album_key_views(self.keys@), i, j)
    }

    proof fn lemma_irreflexive(&self, i: int) {
        let k = self.keys@[i]@;
        lemma_seq_lt_irreflexive(k.name);
        lemma_seq_lt_irreflexive(k.id);
    }

    proof fn lemma_transitive(&self, i: int, j: int, k: int) {
        let v = album_key_views(self.keys@);
        let (a, b, c) = (v[i], v[j], v[k]);
        lemma_seq_lt_irreflexive(a.name);
        lemma_seq_lt_irreflexive(a.id);
        if seq_lt(a.name, b.name) && seq_lt(b.name, c.name) {
            lemma_seq_lt_transitive(a.name, b.name, c.name);
        }
        if seq_lt(a.id, b.id) && seq_lt(b.id, c.id) {
            lemma_seq_lt_transitive(a.id, b.id, c.id);
        }
    }

    proof fn lemma_total(&self, i: int, j: int) {
        let v = album_key_views(self.keys@);
        lemma_seq_lt_total(v[i].name, v[j].name);
        lemma_seq_lt_total(v[i].id, v[j].id);
    }

    fn less(&self, i: usize, j: usize) -> (r: bool) {
        let a = &self.keys[i];
        let b = &self.keys[j];
        let key_less = date_less(a.date, b.date) || (a.date == b.date && (chars_less(&a.name, &b.name)
            || (chars_eq(&a.name, &b.name) && chars_less(&a.id, &b.id))));
        let same = a.date == b.date && chars_eq(&a.name, &b.name) && chars_eq(&a.id, &b.id);
        key_less || (same && i < j)
    }
}

/// The albums the groups make, `builds[k]` being that of group `order[k]`, with `order`
/// listing the groups by album date, name, id and then position.
pub open spec fn albums_assembled(
    groups: Seq<DayGroup>,
    photos: Seq<TimelinePhoto>,
    places: Seq<Vec<String>>,
    builds: Seq<DailyAlbumBuild>,
) -> bool {
    exists|order: Seq<usize>|
        {
            &&& order.len() == groups.len()
            &&& builds.len() == groups.len()
            &&& forall|k: int| 0 <= k < order.len() ==> order[k] < groups.len()
            &&& forall|a: int, b: int|
                0 <= a < b < order.len() ==> album_before(
                    album_keys_spec(groups, places),
                    #[trigger] order[a] as int,
                    #[trigger] order[b] as int,
                )
            &&& forall|x: int| 0 <= x < groups.len() ==> #[trigger] crate::order::appears_in(order, x)
            &&& forall|k: int|
                0 <= k < order.len() ==> album_of(
                    #[trigger] builds[k],
                    groups[order[k] as int],
                    photos,
                    string_views(places[order[k] as int]@),
                )
        }
}

fn album_sort_keys(groups: &[DayGroup], places: &[Vec<String>]) -> (keys: Vec<AlbumSortKey>)
    requires
        groups@.len() == places@.len(),
    ensures
        album_key_views(keys@) == album_keys_spec(groups@, places@),
{
    let mut keys: Vec<AlbumSortKey> = Vec::new();
    let mut g: usize = 0;
    while g < groups.len()
        invariant
            g <= groups@.len(),
            groups@.len() == places@.len(),
            keys@.len() == g,
            forall|j: int| 0 <= j < g ==> (#[trigger] keys@[j])@ == album_keys_spec(groups@, places@)[j],
        decreases groups@.len() - g,
    {
        let group = &groups[g];
        let name = format_album_name(group.date, places[g].as_slice());
        let id = dated_album_id(group.folder.as_str(), group.date);
        keys.push(AlbumSortKey { date: group.date, name: chars_of(name.as_str()), id: chars_of(id.as_str()) });
        g = g + 1;
    }
    assert(album_key_views(keys@) =~= album_keys_spec(groups@, places@));
    keys
}

proof fn lemma_albums_assembled(
    groups: Seq<DayGroup>,
    photos: Seq<TimelinePhoto>,
    places: Seq<Vec<String>>,
    builds: Seq<DailyAlbumBuild>,
    order: Seq<usize>,
)
    requires
        order.len() == groups.len(),
        builds.len() == groups.len(),
        forall|k: int| 0 <= k < order.len() ==> order[k] < groups.len(),
        forall|a: int, b: int|
            0 <= a < b < order.len() ==> album_before(
                album_keys_spec(groups, places),
                #[trigger] order[a] as int,
                #[trigger] order[b] as int,
            ),
        forall|x: int| 0 <= x < groups.len() ==> #[trigger] crate::order::appears_in(order, x),
        forall|k: int|
            0 <= k < order.len() ==> album_of(
                #[trigger] builds[k],
                groups[order[k] as int],
                photos,
                string_views(places[order[k] as int]@),
            ),
    ensures
        albums_assembled(groups, photos, places, builds),
{
}

/// Builds the albums of the groups with their resolved places, listed by date, then
/// name, then id; groups with equal keys keep their order.
pub fn assemble_daily_albums(
    groups: &[DayGroup],
    photos: &[TimelinePhoto],
    places: &[Vec<String>],
) -> (builds: Vec<DailyAlbumBuild>)
    requires
        groups@.len() == places@.len(),
        forall|g: int, m: int|
            0 <= g < groups@.len() && 0 <= m < groups@[g].members@.len() ==> (
            #[trigger] groups@[g].members@[m]) < photos@.len(),
    ensures
        albums_assembled(groups@, photos@, places@, builds@),
{
    let keys = album_sort_keys(groups, places);
    assert(keys@.len() == album_key_views(keys@).len());
    let n = keys.len();
    let o = AlbumOrder { keys };
    let order = sort_indices(&o, n);
    let mut builds: Vec<DailyAlbumBuild> = Vec::new();
    let mut k: usize = 0;
    while k < n
        invariant
            k <= n,
            n == groups@.len(),
            groups@.len() == places@.len(),
            sorted_permutation(&o, order@, n as nat),
            album_key_views(o.keys@) == album_keys_spec(groups@, places@),
            builds@.len() == k,
            forall|g2: int, m: int|
                0 <= g2 < groups@.len() && 0 <= m < groups@[g2].members@.len() ==> (
                #[trigger] groups@[g2].members@[m]) < photos@.len(),
            forall|j: int|
                0 <= j < k ==> album_of(
                    #[trigger] builds@[j],
                    groups@[order@[j] as int],
                    photos@,
                    string_views(places@[order@[j] as int]@),
                ),
        decreases n - k,
    {
        let idx = order[k];
        let b = assemble_daily_album(&groups[idx], photos, places[idx].as_slice());
        builds.push(b);
        k = k + 1;
    }
    proof {
        assert forall|a: int, b: int| 0 <= a < b < order@.len() implies album_before(
            album_keys_spec(groups@, places@),
            #[trigger] order@[a] as int,
            #[trigger] order@[b] as int,
        ) by {
            assert(o.before(order@[a] as int, order@[b] as int));
        }
        lemma_albums_assembled(groups@, photos@, places@, builds@, order@);
    }
    builds
}

/// Finds the places of an album's photos. Implemented outside the library by resolvers
/// that read a place cache or ask a geocoding service; an `Err` carries its message.
pub trait PlaceResolver {
    fn resolve_album_places(&self, photos: &[TimelinePhoto]) -> Result<Vec<String>, String>;
}

/// A copy of a photo.
pub fn copy_photo(p: &TimelinePhoto) -> (r: TimelinePhoto)
    ensures
        r == *p,
{
    let taken_at = match &p.taken_at {
        Some(t) => Some(t.clone()),
        None => None,
    };
    let gps_bucket = match &p.gps_bucket {
        Some(b) => Some(b.clone()),
        None => None,
    };
    TimelinePhoto {
        id: p.id.clone(),
        relative_path: p.relative_path.clone(),
        name: p.name.clone(),
        width: p.width,
        height: p.height,
        size_bytes: p.size_bytes,
        mtime_ns: p.mtime_ns,
        format: p.format.clone(),
        taken_at,
        time_source: p.time_source,
        fingerprint: p.fingerprint.clone(),
        gps_bucket,
    }
}

/// The photos of a group, in its order.
pub fn group_photos(group: &DayGroup, photos: &[TimelinePhoto]) -> (r: Vec<TimelinePhoto>)
    requires
        forall|k: int| 0 <= k < group.members@.len() ==> (#[trigger] group.members@[k]) < photos@.len(),
    ensures
        r@.len() == group.members@.len(),
        forall|k: int| 0 <= k < r@.len() ==> (#[trigger] r@[k]) == photos@[group.members@[k] as int],
{
    let mut r: Vec<TimelinePhoto> = Vec::new();
    let mut k: usize = 0;
    while k < group.members.len()
        invariant
            k <= group.members@.len(),
            r@.len() == k,
            forall|k2: int| 0 <= k2 < group.members@.len() ==> (#[trigger] group.members@[k2]) < photos@.len(),
            forall|j: int| 0 <= j < k ==> (#[trigger] r@[j]) == photos@[group.members@[j] as int],
        decreases group.members@.len() - k,
    {
        r.push(copy_photo(&photos[group.members[k]]));
        k = k + 1;
    }
    r
}

/// The albums are those of the photos' groups in the zone, with some resolved places.
pub open spec fn albums_built(photos: Seq<TimelinePhoto>, tz: Seq<char>, builds: Seq<DailyAlbumBuild>) -> bool {
    exists|groups: Seq<DayGroup>, resolved: Seq<Vec<String>>|
        {
            &&& groups_partition(photo_keys_spec(photos, tz), groups)
            &&& resolved.len() == groups.len()
            &&& #[trigger] albums_assembled(groups, photos, resolved, builds)
        }
}

proof fn lemma_albums_built(
    photos: Seq<TimelinePhoto>,
    tz: Seq<char>,
    builds: Seq<DailyAlbumBuild>,
    groups: Seq<DayGroup>,
    resolved: Seq<Vec<String>>,
)
    requires
        groups_partition(photo_keys_spec(photos, tz), groups),
        resolved.len() == groups.len(),
        albums_assembled(groups, photos, resolved, builds),
    ensures
        albums_built(photos, tz, builds),
{
}

/// Builds the daily albums of the photos in the zone named `tz`: the photos are grouped
/// by first-level folder and local day ([`daily_groups`]), each group's places are asked
/// of `places` with the group's photos in order, and the albums are listed by date, name
/// and id ([`assemble_daily_albums`]). `Err("unknown time zone")` when some photo has no
/// day in the zone, or the resolver's error. Without photos the resolver is not asked and
/// there are no albums.
pub fn build_daily_albums<P: PlaceResolver>(photos: &[TimelinePhoto], tz: &str, places: &P) -> (r:
    Result<Vec<DailyAlbumBuild>, String>)
    ensures
        r is Ok ==> all_days_known(photos@, tz@),
        !all_days_known(photos@, tz@) ==> (r matches Err(e) && e@ == "unknown time zone"@),
        photos@.len() == 0 ==> (r matches Ok(builds) && builds@.len() == 0),
        r matches Ok(builds) ==> albums_built(photos@, tz@, builds@),
{
    let groups = match daily_groups(photos, tz) {
        Some(g) => g,
        None => return Err("unknown time zone".to_owned()),
    };
    let ghost keys = photo_keys_spec(photos@, tz@);
    proof {
        if photos@.len() == 0 && groups@.len() > 0 {
            assert(groups@[0].members@.len() > 0);
            assert(groups@[0].members@[0] < keys.len());
        }
    }
    let mut resolved: Vec<Vec<String>> = Vec::new();
    let mut g: usize = 0;
    while g < groups.len()
        invariant
            g <= groups@.len(),
            resolved@.len() == g,
            groups_partition(keys, groups@),
            keys.len() == photos@.len(),
            all_days_known(photos@, tz@),
            photos@.len() == 0 ==> groups@.len() == 0,
        decreases groups@.len() - g,
    {
        proof {
            assert forall|k: int| 0 <= k < groups@[g as int].members@.len() implies (
            #[trigger] groups@[g as int].members@[k]) < photos@.len() by {
                assert(groups@[g as int].members@[k] < keys.len());
            }
        }
        let members = group_photos(&groups[g], photos);
        match places.resolve_album_places(members.as_slice()) {
            Ok(names) => resolved.push(names),
            Err(e) => return Err(e),
        }
        g = g + 1;
    }
    proof {
        assert forall|g2: int, m: int|
            0 <= g2 < groups@.len() && 0 <= m < groups@[g2].members@.len() implies (
            #[trigger] groups@[g2].members@[m]) < photos@.len() by {
            assert(groups@[g2].members@[m] < keys.len());
        }
    }
    let builds = assemble_daily_albums(groups.as_slice(), photos, resolved.as_slice());
    proof {
        lemma_albums_built(photos@, tz@, builds@, groups@, resolved@);
    }
    Ok(builds)
}

} // verus!
