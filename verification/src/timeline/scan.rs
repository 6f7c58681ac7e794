//! Finding photos under the library root: which entries count, their stable ids and
//! fingerprints, and the scan's tally.
use crate::digest::{decimal_i64, decimal_spec, decimal_u64, hex_lower, hex_lower_spec, sha1_digest, sha1_hex, sha1_hex_spec, sha1_spec, signed_decimal_spec};
use crate::paths::{extension, extension_spec, last_index_of, lemma_last_index_of_bounds};
use crate::text::{ascii_lower_spec, chars_of, eq_ignore_ascii_case, push_char, push_str, slice_range, string_from_chars, to_ascii_lower};
use crate::exif::ExifData;
use crate::timeline::calendar::{rfc3339_format_spec, Timestamp};
use crate::timeline::models::{AnalysisDecision, PhotoAnalysis, PhotoCandidate, TimeSource};
use crate::timeline::time::{offset_readable, resolve_taken_at, resolve_taken_at_spec, TimeInput};
use vstd::prelude::*;
use vstd::string::StringSliceAdditionalSpecFns;
use vstd::utf8::encode_utf8;

verus! {

/// The analyser that reads a photo's EXIF metadata. Its work is file I/O and happens
/// outside the library.
#[derive(Debug, Default, Clone, Copy, PartialEq, Eq, Structural)]
pub struct ExifAnalyzer;

/// What a scan found and did.
#[derive(Debug, Default, Clone, Copy, PartialEq, Eq, Structural)]
pub struct ScanReport {
    pub found: usize,
    pub analyzed: usize,
    pub reused: usize,
    pub errors: usize,
    pub marked_missing: usize,
}

impl ScanReport {
    /// Counts a photo found, and what the store decided for it.
    pub fn record(&mut self, decision: AnalysisDecision)
        requires
            old(self).found < usize::MAX,
            old(self).reused < usize::MAX,
            old(self).analyzed < usize::MAX,
        ensures
            final(self).found == old(self).found + 1,
            decision == AnalysisDecision::Reuse ==> final(self).reused == old(self).reused + 1
                && final(self).analyzed == old(self).analyzed,
            decision == AnalysisDecision::Analyze ==> final(self).analyzed == old(self).analyzed + 1
                && final(self).reused == old(self).reused,
            final(self).errors == old(self).errors,
            final(self).marked_missing == old(self).marked_missing,
    {
        self.found = self.found + 1;
        match decision {
            AnalysisDecision::Reuse => self.reused = self.reused + 1,
            AnalysisDecision::Analyze => self.analyzed = self.analyzed + 1,
        }
    }
}

/// File extensions of photos, compared without regard to ASCII case.
pub open spec fn supported_extensions() -> Seq<Seq<char>> {
    seq!["jpg"@, "jpeg"@, "png"@, "webp"@, "gif"@, "heic"@, "heif"@, "avif"@, "tif"@, "tiff"@]
}

/// Whether an extension names a photo format.
pub open spec fn supported_extension_spec(ext: Seq<char>) -> bool {
    exists|i: int| 0 <= i < supported_extensions().len() && ascii_lower_spec(ext) == ascii_lower_spec(supported_extensions()[i])
}

/// Whether a path's extension names a photo format.
pub open spec fn is_supported_spec(path: Seq<char>) -> bool {
    match extension_spec(path) {
        Some(ext) => supported_extension_spec(ext),
        None => false,
    }
}

/// Whether an extension names a photo format.
pub fn is_supported_extension(ext: &[char]) -> (r: bool)
    ensures
        r == supported_extension_spec(ext@),
{
    let names = ["jpg", "jpeg", "png", "webp", "gif", "heic", "heif", "avif", "tif", "tiff"];
    let mut i: usize = 0;
    proof {
        assert(names@.len() == 10);
    }
    while i < 10
        invariant
            i <= 10,
            names@.len() == 10,
            forall|j: int| 0 <= j < 10 ==> (#[trigger] names@[j])@ == supported_extensions()[j],
            forall|j: int| 0 <= j < i ==> ascii_lower_spec(ext@) != ascii_lower_spec(supported_extensions()[j]),
        decreases 10 - i,
    {
        let candidate = chars_of(names[i]);
        if eq_ignore_ascii_case(ext, candidate.as_slice()) {
            return true;
        }
        i = i + 1;
    }
    false
}

/// Whether a path names a photo by its extension.
pub fn is_supported(path: &str) -> (r: bool)
    ensures
        r == is_supported_spec(path@),
{
    let p = chars_of(path);
    match extension(p.as_slice()) {
        Some(ext) => is_supported_extension(ext.as_slice()),
        None => false,
    }
}

/// Directory names a scan never enters: NAS metadata and recycle bins.
pub open spec fn excluded_component_spec(name: Seq<char>) -> bool {
    name == "@eaDir"@ || name == "#recycle"@
}

/// Whether the walk enters an entry: the root always; otherwise not a symbolic link and
/// not an excluded name.
pub fn should_descend(depth: usize, is_symlink: bool, file_name: &str) -> (r: bool)
    ensures
        r == (depth == 0 || (!is_symlink && !excluded_component_spec(file_name@))),
{
    if depth == 0 {
        return true;
    }
    if is_symlink {
        return false;
    }
    let n = chars_of(file_name);
    !(crate::text::eq_str(n.as_slice(), "@eaDir") || crate::text::eq_str(n.as_slice(), "#recycle"))
}

/// A component of a photo's path below the root.
#[derive(Debug, Clone, PartialEq, Eq)]
pub enum PathComponent {
    /// A name; `None` when it is not valid UTF-8.
    Normal(Option<String>),
    /// `.`, `..`, a root or a prefix.
    Other,
}

/// The text of one component, or why it has none.
pub open spec fn component_text(c: PathComponent) -> Result<Seq<char>, Seq<char>> {
    match c {
        PathComponent::Normal(Some(s)) => Ok(s@),
        PathComponent::Normal(None) => Err("photo path is not valid UTF-8"@),
        PathComponent::Other => Err("photo path contains a non-normal component"@),
    }
}

/// The error of the first component that has no text.
pub open spec fn first_component_error(components: Seq<PathComponent>) -> Option<Seq<char>>
    decreases components.len(),
{
    if components.len() == 0 {
        None
    } else {
        match first_component_error(components.drop_last()) {
            Some(e) => Some(e),
            None => match component_text(components.last()) {
                Err(e) => Some(e),
                Ok(_) => None,
            },
        }
    }
}

/// The components' texts joined by `/`.
pub open spec fn joined_components(components: Seq<PathComponent>) -> Seq<char>
    decreases components.len(),
{
    if components.len() == 0 {
        Seq::empty()
    } else if components.len() == 1 {
        match component_text(components[0]) {
            Ok(t) => t,
            Err(_) => Seq::empty(),
        }
    } else {
        joined_components(components.drop_last()) + seq!['/'] + match component_text(components.last()) {
            Ok(t) => t,
            Err(_) => Seq::empty(),
        }
    }
}

/// The relative path of a photo: its components joined by `/`. Errors: the first
/// component that is not a UTF-8 name, or no components at all.
pub open spec fn relative_path_spec(components: Seq<PathComponent>) -> Result<Seq<char>, Seq<char>> {
    match first_component_error(components) {
        Some(e) => Err(e),
        None => if components.len() == 0 {
            Err("photo relative path is empty"@)
        } else {
            Ok(joined_components(components))
        },
    }
}

proof fn lemma_first_error_sticks(components: Seq<PathComponent>, k: int)
    requires
        0 <= k <= components.len(),
        first_component_error(components.subrange(0, k)) is Some,
    ensures
        first_component_error(components) == first_component_error(components.subrange(0, k)),
    decreases components.len() - k,
{
    if k < components.len() {
        assert(components.drop_last().subrange(0, k) =~= components.subrange(0, k));
        lemma_first_error_sticks(components.drop_last(), k);
    } else {
        assert(components.subrange(0, k) =~= components);
    }
}

/// Joins the components of a photo's path below the root with `/`.
pub fn normalized_relative_path(components: &[PathComponent]) -> (r: Result<String, String>)
    ensures
        match r {
            Ok(s) => relative_path_spec(components@) == Ok::<Seq<char>, Seq<char>>(s@),
            Err(e) => relative_path_spec(components@) == Err::<Seq<char>, Seq<char>>(e@),
        },
{
    let mut normalized = String::new();
    let mut i: usize = 0;
    while i < components.len()
        invariant
            i <= components@.len(),
            first_component_error(components@.subrange(0, i as int)) is None,
            normalized@ == joined_components(components@.subrange(0, i as int)),
        decreases components@.len() - i,
    {
        let ghost pre = components@.subrange(0, i + 1);
        assert(pre.drop_last() =~= components@.subrange(0, i as int));
        assert(pre.last() == components@[i as int]);
        match &components[i] {
            PathComponent::Normal(Some(name)) => {
                if i > 0 {
                    push_char(&mut normalized, '/');
                }
                push_str(&mut normalized, name.as_str());
                proof {
                    if i == 0 {
                        assert(pre.len() == 1);
                        assert(pre[0] == components@[0]);
                    }
                }
            },
            PathComponent::Normal(None) => {
                let e = "photo path is not valid UTF-8".to_owned();
                proof {
                    lemma_first_error_sticks(components@, i as int + 1);
                }
                return Err(e);
            },
            PathComponent::Other => {
                let e = "photo path contains a non-normal component".to_owned();
                proof {
                    lemma_first_error_sticks(components@, i as int + 1);
                }
                return Err(e);
            },
        }
        i = i + 1;
    }
    assert(components@.subrange(0, components@.len() as int) =~= components@);
    if i == 0 {
        return Err("photo relative path is empty".to_owned());
    }
    Ok(normalized)
}

/// A photo's stable id: lower-case hex SHA-1 of its relative path's UTF-8 bytes.
pub open spec fn photo_id_spec(relative_path: Seq<char>) -> Seq<char> {
    sha1_hex_spec(encode_utf8(relative_path))
}

/// The bytes a photo's fingerprint is the SHA-1 of: path, NUL, size, NUL, modification
/// time in nanoseconds, numbers in decimal.
pub open spec fn fingerprint_input(relative_path: Seq<char>, size_bytes: u64, mtime_ns: i64) -> Seq<u8> {
    encode_utf8(relative_path) + seq![0u8] + encode_utf8(decimal_spec(size_bytes as nat)) + seq![0u8]
        + encode_utf8(signed_decimal_spec(mtime_ns as int))
}

/// A photo's fingerprint: lower-case hex of the SHA-1 of [`fingerprint_input`]. It
/// changes when the path, size or modification time does.
pub open spec fn photo_fingerprint_spec(relative_path: Seq<char>, size_bytes: u64, mtime_ns: i64) -> Seq<char> {
    hex_lower_spec(sha1_spec(fingerprint_input(relative_path, size_bytes, mtime_ns)))
}

fn append_bytes(out: &mut Vec<u8>, s: &str)
    ensures
        final(out)@ == old(out)@ + encode_utf8(s@),
{
    let b = s.as_bytes();
    assert(s.spec_bytes() == encode_utf8(s@));
    let ghost start = out@;
    let mut i: usize = 0;
    while i < b.len()
        invariant
            i <= b@.len(),
            out@ == start + b@.subrange(0, i as int),
        decreases b@.len() - i,
    {
        out.push(b[i]);
        i = i + 1;
        assert(out@ =~= start + b@.subrange(0, i as int));
    }
    assert(b@.subrange(0, b@.len() as int) =~= b@);
}

/// The fingerprint of a photo's path, size and modification time.
pub fn photo_fingerprint(relative_path: &str, size_bytes: u64, mtime_ns: i64) -> (r: String)
    ensures
        r@ == photo_fingerprint_spec(relative_path@, size_bytes, mtime_ns),
{
    let mut input: Vec<u8> = Vec::new();
    append_bytes(&mut input, relative_path);
    input.push(0u8);
    let size = decimal_u64(size_bytes);
    append_bytes(&mut input, size.as_str());
    input.push(0u8);
    let mtime = decimal_i64(mtime_ns);
    append_bytes(&mut input, mtime.as_str());
    assert(input@ =~= fingerprint_input(relative_path@, size_bytes, mtime_ns));
    let digest = sha1_digest(input.as_slice());
    hex_lower(digest.as_slice())
}

/// A photo's stable id.
pub fn photo_id(relative_path: &str) -> (r: String)
    ensures
        r@ == photo_id_spec(relative_path@),
{
    assert(relative_path.spec_bytes() == encode_utf8(relative_path@));
    sha1_hex(relative_path.as_bytes())
}

/// A file's modification time as the file system gives it.
#[derive(Debug, Clone, Copy, PartialEq, Eq, Structural)]
pub enum ModifiedTime {
    Unavailable,
    BeforeEpoch,
    SinceEpochNanos(u128),
}

/// Nanoseconds since the Unix epoch, if they fit in an `i64`.
pub open spec fn modified_ns_spec(t: ModifiedTime) -> Result<i64, Seq<char>> {
    match t {
        ModifiedTime::Unavailable => Err("photo mtime is unavailable"@),
        ModifiedTime::BeforeEpoch => Err("photo mtime predates Unix epoch"@),
        ModifiedTime::SinceEpochNanos(n) => if n <= i64::MAX {
            Ok(n as i64)
        } else {
            Err("photo mtime exceeds supported range"@)
        },
    }
}

/// A photo's modification time in nanoseconds since the Unix epoch.
pub fn modified_ns(t: ModifiedTime) -> (r: Result<i64, String>)
    ensures
        match r {
            Ok(n) => modified_ns_spec(t) == Ok::<i64, Seq<char>>(n),
            Err(e) => modified_ns_spec(t) == Err::<i64, Seq<char>>(e@),
        },
{
    match t {
        ModifiedTime::Unavailable => Err("photo mtime is unavailable".to_owned()),
        ModifiedTime::BeforeEpoch => Err("photo mtime predates Unix epoch".to_owned()),
        ModifiedTime::SinceEpochNanos(n) => if n <= i64::MAX as u128 {
            Ok(n as i64)
        } else {
            Err("photo mtime exceeds supported range".to_owned())
        },
    }
}

/// The file name of a relative path: the text after its last `/`.
pub open spec fn last_segment(path: Seq<char>) -> Seq<char> {
    path.subrange(last_index_of(path, '/') + 1, path.len() as int)
}

/// The candidate record of a photo. Its extension is the file name's, in ASCII lower
/// case; a file name without one is an error.
pub open spec fn candidate_ok(c: PhotoCandidate, relative_path: Seq<char>, size_bytes: u64, mtime_ns: i64, scan_id: Seq<char>) -> bool {
    let filename = last_segment(relative_path);
    &&& c.id@ == photo_id_spec(relative_path)
    &&& c.relative_path@ == relative_path
    &&& c.filename@ == filename
    &&& (extension_spec(filename) matches Some(ext) && c.extension@ == ascii_lower_spec(ext))
    &&& c.size_bytes == size_bytes
    &&& c.mtime_ns == mtime_ns
    &&& c.fingerprint@ == photo_fingerprint_spec(relative_path, size_bytes, mtime_ns)
    &&& c.scan_id@ == scan_id
}

/// Builds a photo's candidate record.
pub fn candidate(relative_path: &str, size_bytes: u64, mtime_ns: i64, scan_id: &str) -> (r: Result<PhotoCandidate, String>)
    ensures
        match r {
            Ok(c) => candidate_ok(c, relative_path@, size_bytes, mtime_ns, scan_id@),
            Err(e) => extension_spec(last_segment(relative_path@)) is None
                && e@ == "photo extension is not valid UTF-8"@,
        },
{
    let p = chars_of(relative_path);
    proof {
        lemma_last_index_of_bounds(p@, '/');
    }
    let start = match crate::paths::find_last(p.as_slice(), '/') {
        Some(k) => k + 1,
        None => 0,
    };
    let name = slice_range(p.as_slice(), start, p.len());
    assert(name@ == last_segment(relative_path@));
    let ext = match extension(name.as_slice()) {
        Some(e) => e,
        None => return Err("photo extension is not valid UTF-8".to_owned()),
    };
    let lower = to_ascii_lower(ext.as_slice());
    Ok(PhotoCandidate {
        id: photo_id(relative_path),
        relative_path: relative_path.to_owned(),
        filename: string_from_chars(name.as_slice()),
        extension: string_from_chars(lower.as_slice()),
        size_bytes,
        mtime_ns,
        fingerprint: photo_fingerprint(relative_path, size_bytes, mtime_ns),
        scan_id: scan_id.to_owned(),
    })
}

/// An analysis must be of the photo it was asked for.
pub fn check_analysis_id(analysis_id: &str, candidate_id: &str) -> (r: Result<(), String>)
    ensures
        r is Ok <==> analysis_id@ == candidate_id@,
        r matches Err(e) ==> e@ == "analyzer returned mismatched photo id `"@ + analysis_id@ + "` for `"@
            + candidate_id@ + "`"@,
{
    let a = chars_of(analysis_id);
    let b = chars_of(candidate_id);
    if crate::text::chars_eq(a.as_slice(), b.as_slice()) {
        Ok(())
    } else {
        let mut e = String::new();
        push_str(&mut e, "analyzer returned mismatched photo id `");
        push_str(&mut e, analysis_id);
        push_str(&mut e, "` for `");
        push_str(&mut e, candidate_id);
        push_str(&mut e, "`");
        Err(e)
    }
}

/// The id of a scan: the process id and the start time in nanoseconds, joined by `-`.
pub fn make_scan_id(process_id: u32, nanos: u128) -> (r: String)
    ensures
        r@ == decimal_spec(process_id as nat) + seq!['-'] + decimal_spec(nanos as nat),
{
    let mut r = decimal_u64(process_id as u64);
    push_char(&mut r, '-');
    let digits = crate::digest::decimal_chars_u128(nanos);
    let t = string_from_chars(digits.as_slice());
    push_str(&mut r, t.as_str());
    r
}

/// The time input of a photo: its EXIF date and stored offset text, its file name, and
/// its modification time.
pub open spec fn exif_time_input(exif: ExifData, filename: String, mtime: Timestamp) -> TimeInput {
    TimeInput { exif_datetime: exif.date_taken, exif_offset: exif.timezone, filename, mtime }
}

/// The analysis of a photo from its EXIF record: when it was taken, in RFC 3339 form, and
/// from where; its offset text, size, camera and lens.
pub open spec fn analysis_ok(a: PhotoAnalysis, id: Seq<char>, exif: ExifData, filename: String, mtime: Timestamp, tz: Seq<char>) -> bool {
    let resolved = resolve_taken_at_spec(exif_time_input(exif, filename, mtime), tz);
    &&& a.id@ == id
    &&& match resolved {
        Some(t) => a.time_source == t.source && match rfc3339_format_spec(t.timestamp) {
            Some(text) => a.taken_at matches Some(s) && s@ == text,
            None => a.taken_at is None,
        },
        None => a.time_source == TimeSource::Unknown && a.taken_at is None,
    }
    &&& a.timezone == exif.timezone
    &&& a.width == exif.dimensions.width
    &&& a.height == exif.dimensions.height
    &&& a.camera_make == exif.make
    &&& a.camera_model == exif.model
    &&& a.lens == exif.lens
}

/// Builds a photo's analysis from its EXIF record, file name and modification time in the
/// zone named `tz`. The stored offset text is what the time resolver reads as the EXIF
/// offset.
pub fn analysis_from_exif(id: &str, filename: String, mtime: Timestamp, exif: &ExifData, tz: &str) -> (a: PhotoAnalysis)
    requires
        offset_readable(exif_time_input(*exif, filename, mtime)),
    ensures
        analysis_ok(a, id@, *exif, filename, mtime, tz@),
{
    let ghost name = filename;
    let input = TimeInput {
        exif_datetime: exif.date_taken.clone(),
        exif_offset: exif.timezone.clone(),
        filename,
        mtime,
    };
    assert(input == exif_time_input(*exif, name, mtime));
    let resolved = resolve_taken_at(&input, tz);
    let (taken_at, time_source) = match resolved {
        Some(t) => (t.timestamp.to_rfc3339(), t.source),
        None => (None, TimeSource::Unknown),
    };
    PhotoAnalysis {
        id: id.to_owned(),
        taken_at,
        time_source,
        timezone: exif.timezone.clone(),
        width: exif.dimensions.width,
        height: exif.dimensions.height,
        camera_make: exif.make.clone(),
        camera_model: exif.model.clone(),
        lens: exif.lens.clone(),
    }
}

} // verus!
