//! Local enrichment of the timeline: which thumbnails to make, the contact sheet of each
//! album, and the inputs of album descriptions.
use crate::digest::{decimal_spec, decimal_usize, hex_lower, hex_lower_spec, sha1_digest, sha1_hex, sha1_hex_spec, sha1_spec, usize_be_bytes};
use crate::order::{chars_less, lemma_seq_lt_irreflexive, lemma_seq_lt_total, lemma_seq_lt_transitive, seq_lt, sort_indices, sorted_permutation, IndexOrder};
use crate::paths::{join, join_spec};
use crate::text::{chars_eq, chars_of, push_str, starts_with, string_from_chars, trim, trim_spec};
use crate::timeline::ai::{fp_string, AiDescriptionInput, SelectedPhotoSignature};
use crate::timeline::calendar::{datetime_from_str_spec, offset_in_range, parse_datetime, Timestamp};
use crate::timeline::contact_sheet::{lemma_representative_shape, representative_fits, representative_indices, representative_spec, selected_count};
use crate::timeline::models::{TimelineAlbum, TimelinePhoto};
use vstd::prelude::*;
use vstd::string::StringSliceAdditionalSpecFns;
use vstd::utf8::encode_utf8;

verus! {

/// What an enrichment pass did.
#[derive(Debug, Clone, Copy, Default, PartialEq, Eq, Structural)]
pub struct EnrichmentReport {
    pub thumbnails_generated: usize,
    pub thumbnail_errors: usize,
    pub thumbnails_reused: usize,
    pub vision_tagged: usize,
    pub vision_cached: usize,
    pub vision_errors: usize,
    pub contact_sheets_generated: usize,
    pub contact_sheet_errors: usize,
    pub ai_generated_or_cached: usize,
    pub ai_errors: usize,
}

/// What became of one photo's thumbnail.
#[derive(Debug, Clone, Copy, PartialEq, Eq, Structural)]
pub enum ThumbnailOutcome {
    Reused,
    Generated,
    Failed,
}

/// What became of one album's contact sheet.
#[derive(Debug, Clone, Copy, PartialEq, Eq, Structural)]
pub enum SheetOutcome {
    Generated,
    Reused,
    Failed,
}

impl EnrichmentReport {
    /// Nothing was done: every count is zero.
    pub open spec fn is_empty(&self) -> bool {
        &&& self.thumbnails_generated == 0
        &&& self.thumbnail_errors == 0
        &&& self.thumbnails_reused == 0
        &&& self.vision_tagged == 0
        &&& self.vision_cached == 0
        &&& self.vision_errors == 0
        &&& self.contact_sheets_generated == 0
        &&& self.contact_sheet_errors == 0
        &&& self.ai_generated_or_cached == 0
        &&& self.ai_errors == 0
    }

    /// The report of a pass that did nothing.
    pub fn empty() -> (r: EnrichmentReport)
        ensures
            r.is_empty(),
    {
        EnrichmentReport {
            thumbnails_generated: 0,
            thumbnail_errors: 0,
            thumbnails_reused: 0,
            vision_tagged: 0,
            vision_cached: 0,
            vision_errors: 0,
            contact_sheets_generated: 0,
            contact_sheet_errors: 0,
            ai_generated_or_cached: 0,
            ai_errors: 0,
        }
    }

    /// Counts one thumbnail.
    pub fn record_thumbnail(&mut self, outcome: ThumbnailOutcome)
        requires
            old(self).thumbnails_generated < usize::MAX,
            old(self).thumbnail_errors < usize::MAX,
            old(self).thumbnails_reused < usize::MAX,
        ensures
            final(self).thumbnails_reused == old(self).thumbnails_reused + if outcome == ThumbnailOutcome::Reused { 1int } else { 0 },
            final(self).thumbnails_generated == old(self).thumbnails_generated + if outcome == ThumbnailOutcome::Generated { 1int } else { 0 },
            final(self).thumbnail_errors == old(self).thumbnail_errors + if outcome == ThumbnailOutcome::Failed { 1int } else { 0 },
            final(self).contact_sheets_generated == old(self).contact_sheets_generated,
            final(self).contact_sheet_errors == old(self).contact_sheet_errors,
            final(self).ai_generated_or_cached == old(self).ai_generated_or_cached,
            final(self).ai_errors == old(self).ai_errors,
    {
        match outcome {
            ThumbnailOutcome::Reused => self.thumbnails_reused = self.thumbnails_reused + 1,
            ThumbnailOutcome::Generated => self.thumbnails_generated = self.thumbnails_generated + 1,
            ThumbnailOutcome::Failed => self.thumbnail_errors = self.thumbnail_errors + 1,
        }
    }

    /// Counts one contact sheet; a reused sheet is not counted.
    pub fn record_sheet(&mut self, outcome: SheetOutcome)
        requires
            old(self).contact_sheets_generated < usize::MAX,
            old(self).contact_sheet_errors < usize::MAX,
        ensures
            final(self).contact_sheets_generated == old(self).contact_sheets_generated + if outcome == SheetOutcome::Generated { 1int } else { 0 },
            final(self).contact_sheet_errors == old(self).contact_sheet_errors + if outcome == SheetOutcome::Failed { 1int } else { 0 },
            final(self).thumbnails_generated == old(self).thumbnails_generated,
            final(self).thumbnail_errors == old(self).thumbnail_errors,
            final(self).thumbnails_reused == old(self).thumbnails_reused,
            final(self).ai_generated_or_cached == old(self).ai_generated_or_cached,
            final(self).ai_errors == old(self).ai_errors,
    {
        match outcome {
            SheetOutcome::Generated => self.contact_sheets_generated = self.contact_sheets_generated + 1,
            SheetOutcome::Failed => self.contact_sheet_errors = self.contact_sheet_errors + 1,
            SheetOutcome::Reused => {},
        }
    }

    /// Counts one album description, made or reused, or failed.
    pub fn record_ai(&mut self, ok: bool)
        requires
            old(self).ai_generated_or_cached < usize::MAX,
            old(self).ai_errors < usize::MAX,
        ensures
            final(self).ai_generated_or_cached == old(self).ai_generated_or_cached + if ok { 1int } else { 0 },
            final(self).ai_errors == old(self).ai_errors + if ok { 0int } else { 1 },
            final(self).thumbnails_generated == old(self).thumbnails_generated,
            final(self).thumbnail_errors == old(self).thumbnail_errors,
            final(self).thumbnails_reused == old(self).thumbnails_reused,
            final(self).contact_sheets_generated == old(self).contact_sheets_generated,
            final(self).contact_sheet_errors == old(self).contact_sheet_errors,
    {
        if ok {
            self.ai_generated_or_cached = self.ai_generated_or_cached + 1;
        } else {
            self.ai_errors = self.ai_errors + 1;
        }
    }
}

/// Local enrichment runs only for a pass that prepares album descriptions: otherwise it
/// does no work at all (no thumbnails, no contact sheets) and reports nothing, which is
/// the result returned here. `None` when the pass is to run.
pub fn skipped_enrichment(prepare_ai: bool) -> (r: Option<(EnrichmentReport, Vec<AiDescriptionInput>)>)
    ensures
        r is Some <==> !prepare_ai,
        r matches Some(done) ==> done.0.is_empty() && done.1@.len() == 0,
{
    if prepare_ai {
        None
    } else {
        Some((EnrichmentReport::empty(), Vec::new()))
    }
}

/// The most photos on a contact sheet.
pub const CONTACT_SHEET_PHOTOS: usize = 36;

/// The photos of an album chosen for its contact sheet: at most 36, evenly spaced, first
/// and last included.
pub fn contact_sheet_selection(count: usize) -> (r: Vec<usize>)
    ensures
        r@.len() == representative_spec(count as nat, 36).len(),
        forall|i: int| 0 <= i < r@.len() ==> r@[i] as int == representative_spec(count as nat, 36)[i],
{
    proof {
        let sel = selected_count(count as nat, 36);
        if sel > 1 && sel != count {
            let span = (count - 1) as int;
            let iv = (sel - 1) as int;
            assert((span % iv) * iv <= 35 * 35) by (nonlinear_arith)
                requires
                    1 <= iv <= 35,
                    span >= 0,
            ;
        }
    }
    representative_indices(count, CONTACT_SHEET_PHOTOS)
}

/// The bytes a contact sheet's fingerprint is the SHA-1 of: each photo's id and
/// fingerprint, length-prefixed, in order.
pub open spec fn sheet_fingerprint_input(photos: Seq<TimelinePhoto>) -> Seq<u8>
    decreases photos.len(),
{
    if photos.len() == 0 {
        Seq::empty()
    } else {
        sheet_fingerprint_input(photos.drop_last()) + fp_string(photos.last().id@) + fp_string(photos.last().fingerprint@)
    }
}

/// The fingerprint of a contact sheet of these photos.
pub open spec fn contact_sheet_fingerprint_spec(photos: Seq<TimelinePhoto>) -> Seq<char> {
    hex_lower_spec(sha1_spec(sheet_fingerprint_input(photos)))
}

fn add_fp_string(out: &mut Vec<u8>, s: &str)
    ensures
        final(out)@ == old(out)@ + fp_string(s@),
{
    let b = s.as_bytes();
    assert(s.spec_bytes() == encode_utf8(s@));
    let len = usize_be_bytes(b.len());
    let ghost start = out@;
    let mut i: usize = 0;
    while i < len.len()
        invariant
            i <= len@.len(),
            out@ == start + len@.subrange(0, i as int),
        decreases len@.len() - i,
    {
        out.push(len[i]);
        i = i + 1;
        assert(out@ =~= start + len@.subrange(0, i as int));
    }
    let ghost mid = out@;
    let mut j: usize = 0;
    while j < b.len()
        invariant
            j <= b@.len(),
            out@ == mid + b@.subrange(0, j as int),
        decreases b@.len() - j,
    {
        out.push(b[j]);
        j = j + 1;
        assert(out@ =~= mid + b@.subrange(0, j as int));
    }
    assert(len@.subrange(0, len@.len() as int) =~= len@);
    assert(b@.subrange(0, b@.len() as int) =~= b@);
    assert(final(out)@ =~= old(out)@ + fp_string(s@));
}

/// The fingerprint of a contact sheet of the photos, in order; a sheet is rebuilt when
/// it changes.
pub fn contact_sheet_fingerprint(photos: &[TimelinePhoto]) -> (r: String)
    ensures
        r@ == contact_sheet_fingerprint_spec(photos@),
{
    let mut out: Vec<u8> = Vec::new();
    let mut i: usize = 0;
    while i < photos.len()
        invariant
            i <= photos@.len(),
            out@ == sheet_fingerprint_input(photos@.subrange(0, i as int)),
        decreases photos@.len() - i,
    {
        add_fp_string(&mut out, photos[i].id.as_str());
        add_fp_string(&mut out, photos[i].fingerprint.as_str());
        assert(photos@.subrange(0, i + 1).drop_last() =~= photos@.subrange(0, i as int));
        i = i + 1;
    }
    assert(photos@.subrange(0, photos@.len() as int) =~= photos@);
    let digest = sha1_digest(out.as_slice());
    hex_lower(digest.as_slice())
}

/// Where an album's contact sheet is kept: `ai/contact-sheets/HEX.jpg` under the data
/// directory, `HEX` being the SHA-1 of the album id.
pub open spec fn contact_sheet_path_spec(data_path: Seq<char>, album_id: Seq<char>) -> Seq<char> {
    join_spec(join_spec(data_path, "ai/contact-sheets"@), sha1_hex_spec(encode_utf8(album_id)) + ".jpg"@)
}

/// The file of an album's contact sheet.
pub fn contact_sheet_path(data_path: &str, album_id: &str) -> (r: String)
    ensures
        r@ == contact_sheet_path_spec(data_path@, album_id@),
{
    let dir = join(data_path, "ai/contact-sheets");
    assert(album_id.spec_bytes() == encode_utf8(album_id@));
    let mut name = sha1_hex(album_id.as_bytes());
    push_str(&mut name, ".jpg");
    join(dir.as_str(), name.as_str())
}

/// A camera's name from its make and model: the model when it already starts with the
/// make, else both joined by a space, else whichever is there; blank parts count as
/// missing and parts are trimmed.
pub open spec fn camera_name_spec(make: Option<Seq<char>>, model: Option<Seq<char>>) -> Option<Seq<char>> {
    let mk = match make {
        Some(m) => if trim_spec(m).len() > 0 {
            Some(trim_spec(m))
        } else {
            None
        },
        None => None,
    };
    let md = match model {
        Some(m) => if trim_spec(m).len() > 0 {
            Some(trim_spec(m))
        } else {
            None
        },
        None => None,
    };
    match (mk, md) {
        (Some(a), Some(b)) => if a.len() <= b.len() && b.subrange(0, a.len() as int) == a {
            Some(b)
        } else {
            Some(a + seq![' '] + b)
        },
        (Some(a), None) => Some(a),
        (None, Some(b)) => Some(b),
        (None, None) => None,
    }
}

fn trimmed_part(o: Option<&str>) -> (r: Option<Vec<char>>)
    ensures
        match r {
            Some(v) => o matches Some(s) && trim_spec(s@).len() > 0 && v@ == trim_spec(s@),
            None => !(o matches Some(s) && trim_spec(s@).len() > 0),
        },
{
    match o {
        Some(s) => {
            let c = chars_of(s);
            let t = trim(c.as_slice());
            if t.len() > 0 {
                Some(t)
            } else {
                None
            }
        },
        None => None,
    }
}

/// Names a camera from its make and model.
pub fn camera_name(make: Option<&str>, model: Option<&str>) -> (r: Option<String>)
    ensures
        crate::timeline::places::opt_view(r) == camera_name_spec(
            match make {
                Some(s) => Some(s@),
                None => None,
            },
            match model {
                Some(s) => Some(s@),
                None => None,
            },
        ),
{
    let mk = trimmed_part(make);
    let md = trimmed_part(model);
    match (mk, md) {
        (Some(a), Some(b)) => {
            if starts_with(b.as_slice(), a.as_slice()) {
                Some(string_from_chars(b.as_slice()))
            } else {
                let mut v = a;
                v.push(' ');
                let mut i: usize = 0;
                let ghost a0 = v@;
                while i < b.len()
                    invariant
                        i <= b@.len(),
                        v@ == a0 + b@.subrange(0, i as int),
                    decreases b@.len() - i,
                {
                    v.push(b[i]);
                    i = i + 1;
                    assert(v@ =~= a0 + b@.subrange(0, i as int));
                }
                assert(b@.subrange(0, b@.len() as int) =~= b@);
                Some(string_from_chars(v.as_slice()))
            }
        },
        (Some(a), None) => Some(string_from_chars(a.as_slice())),
        (None, Some(b)) => Some(string_from_chars(b.as_slice())),
        (None, None) => None,
    }
}

/// The local hour and minute an instant shows at its offset.
pub open spec fn local_hour_minute(t: Timestamp) -> (int, int) {
    let sod = (t.secs + t.offset) % 86400;
    (sod / 3600, (sod % 3600) / 60)
}

/// Whether one hour and minute is earlier than another.
pub open spec fn hm_lt(a: (int, int), b: (int, int)) -> bool {
    a.0 < b.0 || (a.0 == b.0 && a.1 < b.1)
}

/// The local hour and minute of an instant.
pub fn hour_minute(t: Timestamp) -> (r: (u32, u32))
    ensures
        r.0 as int == local_hour_minute(t).0,
        r.1 as int == local_hour_minute(t).1,
{
    let local = t.secs as i128 + t.offset as i128;
    let mut sod = local % 86400;
    if sod < 0 {
        sod = sod + 86400;
    }
    assert(sod as int == (t.secs + t.offset) % 86400);
    ((sod / 3600) as u32, ((sod % 3600) / 60) as u32)
}

/// Two digits of a value below 100.
pub open spec fn two_digits(n: int) -> Seq<char> {
    crate::timeline::albums::two_digit_text(n)
}

/// The span of the day an album's photos cover, `HH:MM–HH:MM` in local time.
pub open spec fn time_range_text(lo: (int, int), hi: (int, int)) -> Seq<char> {
    two_digits(lo.0) + seq![':'] + two_digits(lo.1) + seq!['–'] + two_digits(hi.0) + seq![':'] + two_digits(hi.1)
}

/// The local hour and minute a photo's stored time shows, if it reads as a time with an
/// offset.
pub open spec fn photo_hm(p: TimelinePhoto) -> Option<(int, int)> {
    match p.taken_at {
        Some(v) => match datetime_from_str_spec(v@) {
            Some(t) => Some(local_hour_minute(t)),
            None => None,
        },
        None => None,
    }
}

/// The earliest and latest hour and minute among the photos.
pub open spec fn hm_extremes(photos: Seq<TimelinePhoto>) -> Option<((int, int), (int, int))>
    decreases photos.len(),
{
    if photos.len() == 0 {
        None
    } else {
        let prev = hm_extremes(photos.drop_last());
        match photo_hm(photos.last()) {
            None => prev,
            Some(v) => match prev {
                None => Some((v, v)),
                Some((lo, hi)) => Some((if hm_lt(v, lo) { v } else { lo }, if hm_lt(hi, v) { v } else { hi })),
            },
        }
    }
}

/// The span of the day the photos cover, if any has a readable time.
pub open spec fn time_range_spec(photos: Seq<TimelinePhoto>) -> Option<Seq<char>> {
    match hm_extremes(photos) {
        Some((lo, hi)) => Some(time_range_text(lo, hi)),
        None => None,
    }
}

proof fn lemma_hm_bounds(t: Timestamp)
    ensures
        0 <= local_hour_minute(t).0 < 24,
        0 <= local_hour_minute(t).1 < 60,
{
}

proof fn lemma_extremes_bounds(photos: Seq<TimelinePhoto>)
    ensures
        hm_extremes(photos) matches Some((lo, hi)) ==> 0 <= lo.0 < 24 && 0 <= lo.1 < 60 && 0 <= hi.0 < 24 && 0 <= hi.1 < 60,
    decreases photos.len(),
{
    if photos.len() > 0 {
        lemma_extremes_bounds(photos.drop_last());
        if let Some(v) = photo_hm(photos.last()) {
            let t = datetime_from_str_spec(photos.last().taken_at->0@)->0;
            lemma_hm_bounds(t);
        }
    }
}

fn push_two(s: &mut String, n: u32)
    requires
        n < 100,
    ensures
        final(s)@ == old(s)@ + two_digits(n as int),
{
    crate::text::push_char(s, (((n / 10) % 10) as u8 + 48) as char);
    crate::text::push_char(s, ((n % 10) as u8 + 48) as char);
    assert(final(s)@ =~= old(s)@ + two_digits(n as int));
}

/// The span of the day the photos cover, `HH:MM–HH:MM`.
pub fn time_range(photos: &[TimelinePhoto]) -> (r: Option<String>)
    ensures
        crate::timeline::places::opt_view(r) == time_range_spec(photos@),
{
    let mut lo: (u32, u32) = (0, 0);
    let mut hi: (u32, u32) = (0, 0);
    let mut any = false;
    let mut i: usize = 0;
    while i < photos.len()
        invariant
            i <= photos@.len(),
            any == hm_extremes(photos@.subrange(0, i as int)) is Some,
            any ==> hm_extremes(photos@.subrange(0, i as int)) == Some((((lo.0 as int), (lo.1 as int)), ((hi.0 as int), (hi.1 as int)))),
        decreases photos@.len() - i,
    {
        let ghost pre = photos@.subrange(0, i + 1);
        assert(pre.drop_last() =~= photos@.subrange(0, i as int));
        assert(pre.last() == photos@[i as int]);
        if let Some(v) = &photos[i].taken_at {
            if let Some(t) = parse_datetime(v.as_str()) {
                let hm = hour_minute(t);
                if !any {
                    lo = hm;
                    hi = hm;
                    any = true;
                } else {
                    if hm.0 < lo.0 || (hm.0 == lo.0 && hm.1 < lo.1) {
                        lo = hm;
                    }
                    if hi.0 < hm.0 || (hi.0 == hm.0 && hi.1 < hm.1) {
                        hi = hm;
                    }
                }
            }
        }
        i = i + 1;
    }
    assert(photos@.subrange(0, photos@.len() as int) =~= photos@);
    if !any {
        return None;
    }
    proof {
        lemma_extremes_bounds(photos@);
    }
    let mut s = String::new();
    push_two(&mut s, lo.0);
    crate::text::push_char(&mut s, ':');
    push_two(&mut s, lo.1);
    crate::text::push_char(&mut s, '–');
    push_two(&mut s, hi.0);
    crate::text::push_char(&mut s, ':');
    push_two(&mut s, hi.1);
    assert(s@ =~= time_range_text((lo.0 as int, lo.1 as int), (hi.0 as int, hi.1 as int)));
    Some(s)
}

pub open spec fn key_view(k: Option<Vec<char>>) -> Option<Seq<char>> {
    match k {
        Some(v) => Some(v@),
        None => None,
    }
}

/// How many of the keys are `c`.
pub open spec fn key_count(keys: Seq<Option<Seq<char>>>, c: Seq<char>) -> nat
    decreases keys.len(),
{
    if keys.len() == 0 {
        0
    } else {
        key_count(keys.drop_last(), c) + if keys.last() == Some(c) {
            1nat
        } else {
            0nat
        }
    }
}

/// Some key is `c`.
pub open spec fn has_key(keys: Seq<Option<Seq<char>>>, c: Seq<char>) -> bool {
    exists|i: int| 0 <= i < keys.len() && keys[i] == Some(c)
}

proof fn lemma_no_key_zero(keys: Seq<Option<Seq<char>>>, c: Seq<char>)
    requires
        !has_key(keys, c),
    ensures
        key_count(keys, c) == 0,
    decreases keys.len(),
{
    if keys.len() > 0 {
        assert(!has_key(keys.drop_last(), c)) by {
            if has_key(keys.drop_last(), c) {
                let i = choose|i: int| 0 <= i < keys.drop_last().len() && keys.drop_last()[i] == Some(c);
                assert(keys[i] == keys.drop_last()[i]);
            }
        }
        lemma_no_key_zero(keys.drop_last(), c);
    }
}

proof fn lemma_key_count_bound(keys: Seq<Option<Seq<char>>>, c: Seq<char>)
    ensures
        key_count(keys, c) <= keys.len(),
    decreases keys.len(),
{
    if keys.len() > 0 {
        lemma_key_count_bound(keys.drop_last(), c);
    }
}

/// Keys ranked by count, most first, ties by key.
pub struct CountOrder {
    pub names: Vec<Vec<char>>,
    pub counts: Vec<usize>,
}

impl IndexOrder for CountOrder {
    open spec fn size(&self) -> nat {
        if self.names@.len() <= self.counts@.len() {
            self.names@.len()
        } else {
            self.counts@.len()
        }
    }

    open spec fn before(&self, i: int, j: int) -> bool {
        self.counts@[i] > self.counts@[j] || (self.counts@[i] == self.counts@[j] && seq_lt(self.names@[i]@, self.names@[j]@))
            || (self.counts@[i] == self.counts@[j] && self.names@[i]@ == self.names@[j]@ && i < j)
    }

    proof fn lemma_irreflexive(&self, i: int) {
        lemma_seq_lt_irreflexive(self.names@[i]@);
    }

    proof fn lemma_transitive(&self, i: int, j: int, k: int) {
        let (a, b, c) = (self.names@[i]@, self.names@[j]@, self.names@[k]@);
        lemma_seq_lt_irreflexive(a);
        if seq_lt(a, b) && seq_lt(b, c) {
            lemma_seq_lt_transitive(a, b, c);
        }
    }

    proof fn lemma_total(&self, i: int, j: int) {
        lemma_seq_lt_total(self.names@[i]@, self.names@[j]@);
    }

    fn less(&self, i: usize, j: usize) -> (r: bool) {
        let (ci, cj) = (self.counts[i], self.counts[j]);
        ci > cj || (ci == cj && chars_less(self.names[i].as_slice(), self.names[j].as_slice()))
            || (ci == cj && chars_eq(self.names[i].as_slice(), self.names[j].as_slice()) && i < j)
    }
}

/// The distinct keys with their counts, most common first, ties by key.
pub open spec fn ranked_ok(keys: Seq<Option<Seq<char>>>, names: Seq<Seq<char>>, counts: Seq<usize>) -> bool {
    &&& names.len() == counts.len()
    &&& forall|a: int, b: int| 0 <= a < b < names.len() ==> names[a] != names[b]
    &&& forall|k: int| 0 <= k < names.len() ==> has_key(keys, #[trigger] names[k]) && counts[k] == key_count(keys, names[k])
    &&& forall|c: Seq<char>| #[trigger] has_key(keys, c) ==> exists|k: int| 0 <= k < names.len() && names[k] == c
    &&& forall|a: int, b: int| 0 <= a < b < names.len() ==> (#[trigger] counts[a]) > (#[trigger] counts[b]) || (counts[a] == counts[b] && seq_lt(names[a], names[b]))
}

pub open spec fn key_views(keys: Seq<Option<Vec<char>>>) -> Seq<Option<Seq<char>>> {
    keys.map_values(|k: Option<Vec<char>>| key_view(k))
}

pub open spec fn name_views(v: Seq<Vec<char>>) -> Seq<Seq<char>> {
    v.map_values(|n: Vec<char>| n@)
}

/// Counts the keys and ranks them, most common first, ties by key.
pub fn rank_keys(keys: &[Option<Vec<char>>]) -> (r: (Vec<Vec<char>>, Vec<usize>))
    ensures
        ranked_ok(key_views(keys@), name_views(r.0@), r.1@),
{
    let ghost kv = key_views(keys@);
    let mut names: Vec<Vec<char>> = Vec::new();
    let mut counts: Vec<usize> = Vec::new();
    let mut i: usize = 0;
    while i < keys.len()
        invariant
            i <= keys@.len(),
            kv == key_views(keys@),
            names@.len() == counts@.len(),
            forall|a: int, b: int| 0 <= a < b < names@.len() ==> names@[a]@ != names@[b]@,
            forall|k: int| 0 <= k < names@.len() ==> has_key(kv.subrange(0, i as int), #[trigger] names@[k]@),
            forall|k: int| 0 <= k < names@.len() ==> (#[trigger] counts@[k]) == key_count(kv.subrange(0, i as int), names@[k]@),
            forall|c: Seq<char>| #[trigger] has_key(kv.subrange(0, i as int), c) ==> exists|k: int| 0 <= k < names@.len() && names@[k]@ == c,
        decreases keys@.len() - i,
    {
        let ghost pre = kv.subrange(0, i as int);
        let ghost next = kv.subrange(0, i + 1);
        assert(next.drop_last() =~= pre);
        assert(next.last() == kv[i as int]);
        assert(kv[i as int] == key_view(keys@[i as int]));
        proof {
            assert forall|k: int| 0 <= k < names@.len() implies has_key(next, #[trigger] names@[k]@) by {
                let j = choose|j: int| 0 <= j < pre.len() && pre[j] == Some(names@[k]@);
                assert(next[j] == pre[j]);
            }
        }
        match &keys[i] {
            Some(c) => {
                let mut k: usize = 0;
                while k < names.len() && !chars_eq(names[k].as_slice(), c.as_slice())
                    invariant
                        k <= names@.len(),
                        forall|j: int| 0 <= j < k ==> names@[j]@ != c@,
                    decreases names@.len() - k,
                {
                    k = k + 1;
                }
                let found = k < names.len();
                proof {
                    if !found {
                        assert(!has_key(pre, c@)) by {
                            if has_key(pre, c@) {
                                let k0 = choose|k0: int| 0 <= k0 < names@.len() && names@[k0]@ == c@;
                                assert(names@[k0]@ != c@);
                            }
                        }
                        lemma_no_key_zero(pre, c@);
                    }
                    lemma_key_count_bound(pre, c@);
                }
                let ghost old_names = names@;
                if found {
                    let n = counts[k] + 1;
                    counts.set(k, n);
                } else {
                    names.push(c.clone());
                    counts.push(1);
                }
                proof {
                    assert forall|k2: int| 0 <= k2 < names@.len() implies (#[trigger] counts@[k2]) == key_count(next, names@[k2]@) by {
                        if k2 < old_names.len() {
                            assert(names@[k2] == old_names[k2]);
                        }
                    }
                    assert forall|c2: Seq<char>| #[trigger] has_key(next, c2) implies exists|k2: int| 0 <= k2 < names@.len() && names@[k2]@ == c2 by {
                        let j = choose|j: int| 0 <= j < next.len() && next[j] == Some(c2);
                        if j < i {
                            assert(pre[j] == next[j]);
                            assert(has_key(pre, c2));
                            let k0 = choose|k0: int| 0 <= k0 < old_names.len() && old_names[k0]@ == c2;
                            assert(names@[k0] == old_names[k0]);
                        } else if !found {
                            assert(names@[names@.len() - 1]@ == c2);
                        } else {
                            assert(names@[k as int]@ == c2);
                        }
                    }
                    assert forall|k2: int| 0 <= k2 < names@.len() implies has_key(next, #[trigger] names@[k2]@) by {
                        if !found && k2 == names@.len() - 1 {
                            assert(next[i as int] == Some(c@));
                        } else {
                            assert(names@[k2] == old_names[k2]);
                        }
                    }
                }
            },
            None => {
                proof {
                    assert forall|c2: Seq<char>| #[trigger] has_key(next, c2) implies exists|k2: int| 0 <= k2 < names@.len() && names@[k2]@ == c2 by {
                        let j = choose|j: int| 0 <= j < next.len() && next[j] == Some(c2);
                        assert(j < i);
                        assert(pre[j] == next[j]);
                        assert(has_key(pre, c2));
                    }
                }
            },
        }
        i = i + 1;
    }
    assert(kv.subrange(0, kv.len() as int) =~= kv);
    let n = names.len();
    let o = CountOrder { names, counts };
    let order = sort_indices(&o, n);
    let mut rn: Vec<Vec<char>> = Vec::new();
    let mut rc: Vec<usize> = Vec::new();
    let mut t: usize = 0;
    while t < n
        invariant
            t <= n,
            n == o.names@.len(),
            o.names@.len() == o.counts@.len(),
            sorted_permutation(&o, order@, n as nat),
            rn@.len() == t,
            rc@.len() == t,
            forall|j: int| 0 <= j < t ==> (#[trigger] rn@[j])@ == o.names@[order@[j] as int]@,
            forall|j: int| 0 <= j < t ==> (#[trigger] rc@[j]) == o.counts@[order@[j] as int],
        decreases n - t,
    {
        let idx = order[t];
        let nm = &o.names[idx];
        let len = nm.len();
        rn.push(crate::text::slice_range(nm.as_slice(), 0, len));
        assert(rn@[t as int]@ =~= o.names@[idx as int]@);
        rc.push(o.counts[idx]);
        t = t + 1;
    }
    proof {
        crate::order::lemma_sorted_distinct(&o, order@, n as nat);
        let nv = name_views(rn@);
        assert forall|a: int, b: int| 0 <= a < b < nv.len() implies nv[a] != nv[b] by {
            assert(order@[a] != order@[b]);
        }
        assert forall|a: int, b: int| 0 <= a < b < nv.len() implies (#[trigger] rc@[a]) > (#[trigger] rc@[b]) || (rc@[a] == rc@[b] && seq_lt(nv[a], nv[b])) by {
            assert(o.before(order@[a] as int, order@[b] as int));
            assert(order@[a] != order@[b]);
        }
        assert forall|k: int| 0 <= k < nv.len() implies has_key(kv, #[trigger] nv[k]) && rc@[k] == key_count(kv, nv[k]) by {
            assert(nv[k] == o.names@[order@[k] as int]@);
        }
        assert forall|c: Seq<char>| #[trigger] has_key(kv, c) implies exists|k: int| 0 <= k < nv.len() && nv[k] == c by {
            let k0 = choose|k0: int| 0 <= k0 < o.names@.len() && o.names@[k0]@ == c;
            assert(crate::order::appears_in(order@, k0));
            let t0 = choose|t0: int| 0 <= t0 < order@.len() && order@[t0] == k0;
            assert(nv[t0] == c);
        }
    }
    (rn, rc)
}

/// The camera recorded for a photo id: the last entry with that id.
pub open spec fn camera_lookup(cameras: Seq<(String, Option<String>)>, id: Seq<char>) -> Option<Option<Seq<char>>>
    decreases cameras.len(),
{
    if cameras.len() == 0 {
        None
    } else if cameras.last().0@ == id {
        Some(crate::timeline::places::opt_view(cameras.last().1))
    } else {
        camera_lookup(cameras.drop_last(), id)
    }
}

/// A photo's camera, if one is recorded for it.
pub open spec fn photo_camera(p: TimelinePhoto, cameras: Seq<(String, Option<String>)>) -> Option<Seq<char>> {
    match camera_lookup(cameras, p.id@) {
        Some(Some(c)) => Some(c),
        _ => None,
    }
}

/// The cameras of the photos, in order.
pub open spec fn camera_keys(photos: Seq<TimelinePhoto>, cameras: Seq<(String, Option<String>)>) -> Seq<Option<Seq<char>>> {
    Seq::new(photos.len(), |i: int| photo_camera(photos[i], cameras))
}

/// The cameras of an album, `NAME × COUNT` each, most photos first, ties by name.
pub open spec fn camera_summary_ok(photos: Seq<TimelinePhoto>, cameras: Seq<(String, Option<String>)>, r: Seq<String>) -> bool {
    exists|names: Seq<Seq<char>>, counts: Seq<usize>|
        {
            &&& #[trigger] ranked_ok(camera_keys(photos, cameras), names, counts)
            &&& r.len() == names.len()
            &&& forall|k: int| 0 <= k < r.len() ==> (#[trigger] r[k])@ == names[k] + " × "@ + decimal_spec(counts[k] as nat)
        }
}

fn lookup_camera(cameras: &[(String, Option<String>)], id: &str) -> (r: Option<Vec<char>>)
    ensures
        key_view(r) == photo_camera_of_id(cameras@, id@),
{
    let idc = chars_of(id);
    let mut k: usize = cameras.len();
    assert(cameras@.subrange(0, cameras@.len() as int) =~= cameras@);
    while k > 0
        invariant
            k <= cameras@.len(),
            idc@ == id@,
            camera_lookup(cameras@, id@) == camera_lookup(cameras@.subrange(0, k as int), id@),
        decreases k,
    {
        let ghost pre = cameras@.subrange(0, k as int);
        assert(pre.drop_last() =~= cameras@.subrange(0, k - 1));
        assert(pre.last() == cameras@[k - 1]);
        let entry = &cameras[k - 1];
        let ec = chars_of(entry.0.as_str());
        if chars_eq(ec.as_slice(), idc.as_slice()) {
            return match &entry.1 {
                Some(c) => Some(chars_of(c.as_str())),
                None => None,
            };
        }
        k = k - 1;
    }
    None
}

/// The camera of the photo with this id.
pub open spec fn photo_camera_of_id(cameras: Seq<(String, Option<String>)>, id: Seq<char>) -> Option<Seq<char>> {
    match camera_lookup(cameras, id) {
        Some(Some(c)) => Some(c),
        _ => None,
    }
}

proof fn lemma_camera_summary_ok(photos: Seq<TimelinePhoto>, cameras: Seq<(String, Option<String>)>, r: Seq<String>, names: Seq<Seq<char>>, counts: Seq<usize>)
    requires
        ranked_ok(camera_keys(photos, cameras), names, counts),
        r.len() == names.len(),
        forall|k: int| 0 <= k < r.len() ==> (#[trigger] r[k])@ == names[k] + " × "@ + decimal_spec(counts[k] as nat),
    ensures
        camera_summary_ok(photos, cameras, r),
{
}

/// Summarises an album's cameras from the cameras recorded per photo id.
pub fn camera_summary(photos: &[TimelinePhoto], cameras: &[(String, Option<String>)]) -> (r: Vec<String>)
    ensures
        camera_summary_ok(photos@, cameras@, r@),
{
    let mut keys: Vec<Option<Vec<char>>> = Vec::new();
    let mut i: usize = 0;
    while i < photos.len()
        invariant
            i <= photos@.len(),
            keys@.len() == i,
            forall|j: int| 0 <= j < i ==> key_view(#[trigger] keys@[j]) == photo_camera(photos@[j], cameras@),
        decreases photos@.len() - i,
    {
        keys.push(lookup_camera(cameras, photos[i].id.as_str()));
        i = i + 1;
    }
    assert(key_views(keys@) =~= camera_keys(photos@, cameras@));
    let (names, counts) = rank_keys(keys.as_slice());
    let mut r: Vec<String> = Vec::new();
    let mut t: usize = 0;
    while t < names.len()
        invariant
            t <= names@.len(),
            names@.len() == counts@.len(),
            r@.len() == t,
            forall|k: int| 0 <= k < t ==> (#[trigger] r@[k])@ == names@[k]@ + " × "@ + decimal_spec(counts@[k] as nat),
        decreases names@.len() - t,
    {
        let mut line = string_from_chars(names[t].as_slice());
        push_str(&mut line, " × ");
        let c = decimal_usize(counts[t]);
        push_str(&mut line, c.as_str());
        r.push(line);
        t = t + 1;
    }
    proof {
        let nv = name_views(names@);
        assert forall|k: int| 0 <= k < r@.len() implies (#[trigger] r@[k])@ == nv[k] + " × "@ + decimal_spec(counts@[k] as nat) by {}
        lemma_camera_summary_ok(photos@, cameras@, r@, nv, counts@);
    }
    r
}


/// The contact sheet of an album: the photos on it, in order, the file it is kept in,
/// and the fingerprint that decides whether it is rebuilt.
#[derive(Debug, Clone, PartialEq, Eq)]
pub struct SheetPlan {
    pub photos: Vec<TimelinePhoto>,
    pub path: String,
    pub fingerprint: String,
}

/// The photos at the selected positions, in order.
pub open spec fn selected_photos_spec(photos: Seq<TimelinePhoto>) -> Seq<TimelinePhoto> {
    let sel = representative_spec(photos.len(), 36);
    Seq::new(sel.len(), |k: int| photos[sel[k]])
}

/// Plans the contact sheet of an album from its photos in album order; none for an album
/// without photos.
pub fn sheet_plan(data_path: &str, album_id: &str, photos: &[TimelinePhoto]) -> (r: Option<SheetPlan>)
    ensures
        photos@.len() == 0 <==> r is None,
        r matches Some(p) ==> p.photos@ == selected_photos_spec(photos@) && p.path@ == contact_sheet_path_spec(
            data_path@,
            album_id@,
        ) && p.fingerprint@ == contact_sheet_fingerprint_spec(p.photos@),
{
    let indices = contact_sheet_selection(photos.len());
    proof {
        lemma_representative_shape(photos@.len(), 36);
    }
    if indices.len() == 0 {
        return None;
    }
    let ghost sel = representative_spec(photos@.len(), 36);
    let mut selected: Vec<TimelinePhoto> = Vec::new();
    let mut k: usize = 0;
    while k < indices.len()
        invariant
            k <= indices@.len(),
            indices@.len() == sel.len(),
            forall|i: int| 0 <= i < indices@.len() ==> indices@[i] as int == sel[i],
            forall|i: int| 0 <= i < sel.len() ==> 0 <= #[trigger] sel[i] < photos@.len(),
            selected@.len() == k,
            forall|i: int| 0 <= i < k ==> #[trigger] selected@[i] == photos@[sel[i]],
        decreases indices@.len() - k,
    {
        assert(0 <= sel[k as int] < photos@.len());
        selected.push(crate::timeline::albums::copy_photo(&photos[indices[k]]));
        k = k + 1;
    }
    assert(selected@ =~= selected_photos_spec(photos@));
    let fingerprint = contact_sheet_fingerprint(selected.as_slice());
    let path = contact_sheet_path(data_path, album_id);
    Some(SheetPlan { photos: selected, path, fingerprint })
}

/// The description input of an album once its contact sheet exists: the album, its time
/// range and camera summary from all its photos, no vision tags, and the sheet's photos.
pub fn description_input(
    album: TimelineAlbum,
    photos: &[TimelinePhoto],
    plan: &SheetPlan,
    cameras: &[(String, Option<String>)],
) -> (r: AiDescriptionInput)
    ensures
        r.album == album,
        crate::timeline::places::opt_view(r.time_range) == time_range_spec(photos@),
        camera_summary_ok(photos@, cameras@, r.camera_summary@),
        r.vision_tag_summary@.len() == 0,
        r.selected_photos@.len() == plan.photos@.len(),
        forall|k: int|
            0 <= k < plan.photos@.len() ==> (#[trigger] r.selected_photos@[k]).photo_id == plan.photos@[k].id
                && r.selected_photos@[k].photo_fingerprint == plan.photos@[k].fingerprint
                && r.selected_photos@[k].vision_input_fingerprint is None,
        r.contact_sheet_path == plan.path,
{
    let mut signatures: Vec<SelectedPhotoSignature> = Vec::new();
    let mut k: usize = 0;
    while k < plan.photos.len()
        invariant
            k <= plan.photos@.len(),
            signatures@.len() == k,
            forall|i: int|
                0 <= i < k ==> (#[trigger] signatures@[i]).photo_id == plan.photos@[i].id
                    && signatures@[i].photo_fingerprint == plan.photos@[i].fingerprint
                    && signatures@[i].vision_input_fingerprint is None,
        decreases plan.photos@.len() - k,
    {
        let p = &plan.photos[k];
        signatures.push(SelectedPhotoSignature {
            photo_id: p.id.clone(),
            photo_fingerprint: p.fingerprint.clone(),
            vision_input_fingerprint: None,
        });
        k = k + 1;
    }
    AiDescriptionInput {
        album,
        time_range: time_range(photos),
        camera_summary: camera_summary(photos, cameras),
        vision_tag_summary: Vec::new(),
        selected_photos: signatures,
        contact_sheet_path: plan.path.clone(),
    }
}

} // verus!
