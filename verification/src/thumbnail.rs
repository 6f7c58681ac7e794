//! Image formats the thumbnailer knows and where cached thumbnails live.
use crate::paths::{
    extension, extension_spec, file_name_spec, join, join_spec, last_index_of, lemma_last_index_absent,
    lemma_last_index_suffix, name_extension_spec, strip_trailing_slashes,
};
use crate::text::{all_ascii, ascii_lower_spec, chars_of, eq_str, to_lowercase, to_lowercase_spec};
use vstd::prelude::*;

verus! {

/// Supported image formats for decoding.
#[derive(Debug, Clone, Copy, PartialEq, Eq, Structural)]
pub enum ImageFormat {
    Jpeg,
    Png,
    WebP,
    Gif,
    Heic,
    Heif,
    Avif,
    Tiff,
}

/// The format named by a lower-cased extension.
pub open spec fn format_for_lower_extension(ext: Seq<char>) -> Option<ImageFormat> {
    if ext == "jpg"@ || ext == "jpeg"@ {
        Some(ImageFormat::Jpeg)
    } else if ext == "png"@ {
        Some(ImageFormat::Png)
    } else if ext == "webp"@ {
        Some(ImageFormat::WebP)
    } else if ext == "gif"@ {
        Some(ImageFormat::Gif)
    } else if ext == "heic"@ {
        Some(ImageFormat::Heic)
    } else if ext == "heif"@ {
        Some(ImageFormat::Heif)
    } else if ext == "avif"@ {
        Some(ImageFormat::Avif)
    } else if ext == "tif"@ || ext == "tiff"@ {
        Some(ImageFormat::Tiff)
    } else {
        None
    }
}

/// An extension lower-cased as `str::to_lowercase` does it: ASCII lower-casing on ASCII
/// text, the Unicode mapping otherwise.
pub open spec fn lower_extension(ext: Seq<char>) -> Seq<char> {
    if all_ascii(ext) {
        ascii_lower_spec(ext)
    } else {
        to_lowercase_spec(ext)
    }
}

/// The format of a path: its extension, lower-cased, looked up.
pub open spec fn format_of_path_spec(path: Seq<char>) -> Option<ImageFormat> {
    match extension_spec(path) {
        Some(ext) => format_for_lower_extension(lower_extension(ext)),
        None => None,
    }
}

/// The canonical file extension of each format.
pub open spec fn format_extension_spec(format: ImageFormat) -> Seq<char> {
    match format {
        ImageFormat::Jpeg => "jpg"@,
        ImageFormat::Png => "png"@,
        ImageFormat::WebP => "webp"@,
        ImageFormat::Gif => "gif"@,
        ImageFormat::Heic => "heic"@,
        ImageFormat::Heif => "heif"@,
        ImageFormat::Avif => "avif"@,
        ImageFormat::Tiff => "tiff"@,
    }
}

impl ImageFormat {
    /// The format of a path from its extension, ignoring case.
    pub fn from_path(path: &str) -> (f: Option<ImageFormat>)
        ensures
            f == format_of_path_spec(path@),
    {
        let p = chars_of(path);
        match extension(p.as_slice()) {
            Some(e) => {
                let ext = crate::text::string_from_chars(e.as_slice());
                let lower = to_lowercase(ext.as_str());
                let l = chars_of(lower.as_str());
                let l = l.as_slice();
                if eq_str(l, "jpg") || eq_str(l, "jpeg") {
                    Some(ImageFormat::Jpeg)
                } else if eq_str(l, "png") {
                    Some(ImageFormat::Png)
                } else if eq_str(l, "webp") {
                    Some(ImageFormat::WebP)
                } else if eq_str(l, "gif") {
                    Some(ImageFormat::Gif)
                } else if eq_str(l, "heic") {
                    Some(ImageFormat::Heic)
                } else if eq_str(l, "heif") {
                    Some(ImageFormat::Heif)
                } else if eq_str(l, "avif") {
                    Some(ImageFormat::Avif)
                } else if eq_str(l, "tif") || eq_str(l, "tiff") {
                    Some(ImageFormat::Tiff)
                } else {
                    None
                }
            },
            None => None,
        }
    }

    /// The canonical extension of the format: lower-case ASCII letters, which name the
    /// format again ([`lemma_extension_names_its_format`]).
    pub fn extension(&self) -> (e: &'static str)
        ensures
            e@ == format_extension_spec(*self),
    {
        match self {
            ImageFormat::Jpeg => "jpg",
            ImageFormat::Png => "png",
            ImageFormat::WebP => "webp",
            ImageFormat::Gif => "gif",
            ImageFormat::Heic => "heic",
            ImageFormat::Heif => "heif",
            ImageFormat::Avif => "avif",
            ImageFormat::Tiff => "tiff",
        }
    }
}

/// The extension of `stem.ext`, for a non-empty stem and an extension of lower-case
/// letters, neither holding `/` or `.`.
proof fn lemma_extension_of_dotted_name(stem: Seq<char>, ext: Seq<char>)
    requires
        stem.len() > 0,
        ext.len() > 0,
        forall|i: int| 0 <= i < stem.len() ==> stem[i] != '/' && stem[i] != '.',
        forall|i: int| 0 <= i < ext.len() ==> 'a' <= #[trigger] ext[i] <= 'z',
    ensures
        extension_spec(stem + seq!['.'] + ext) == Some(ext),
{
    let p = stem + seq!['.'] + ext;
    assert(p.last() == ext.last());
    assert(strip_trailing_slashes(p) == p);
    assert forall|i: int| 0 <= i < p.len() implies p[i] != '/' by {
        if i < stem.len() {
        } else if i == stem.len() {
        } else {
            assert(p[i] == ext[i - stem.len() - 1]);
        }
    }
    lemma_last_index_absent(p, '/');
    assert(p.subrange(0, p.len() as int) =~= p);
    assert(p.len() >= 3);
    assert(p != seq!['.']);
    assert(p != seq!['.', '.']);
    assert(file_name_spec(p) == Some(p));
    assert forall|i: int| 0 <= i < ext.len() implies ext[i] != '.' by {
        assert('a' <= ext[i]);
    }
    lemma_last_index_suffix(stem + seq!['.'], ext, '.');
    assert(last_index_of(stem + seq!['.'], '.') == stem.len());
    assert(p.subrange(stem.len() + 1int, p.len() as int) =~= ext);
    assert(name_extension_spec(p) == Some(ext));
}

proof fn lemma_differs_at(a: Seq<char>, b: Seq<char>, i: int)
    requires
        0 <= i < a.len(),
        i < b.len(),
        a[i] != b[i],
    ensures
        a != b,
{
}

/// Each format's extension is lower-case ASCII letters, and a file named with it is of
/// that format: `stem.ext` for any non-empty stem without `/` or `.`.
pub proof fn lemma_extension_names_its_format(f: ImageFormat, stem: Seq<char>)
    requires
        stem.len() > 0,
        forall|i: int| 0 <= i < stem.len() ==> stem[i] != '/' && stem[i] != '.',
    ensures
        forall|i: int|
            0 <= i < format_extension_spec(f).len() ==> 'a' <= #[trigger] format_extension_spec(f)[i] <= 'z',
        format_of_path_spec(stem + seq!['.'] + format_extension_spec(f)) == Some(f),
{
    reveal_strlit("jpg");
    reveal_strlit("jpeg");
    reveal_strlit("png");
    reveal_strlit("webp");
    reveal_strlit("gif");
    reveal_strlit("heic");
    reveal_strlit("heif");
    reveal_strlit("avif");
    reveal_strlit("tif");
    reveal_strlit("tiff");
    let e = format_extension_spec(f);
    assert(e.len() > 0);
    lemma_extension_of_dotted_name(stem, e);
    assert(all_ascii(e));
    assert(ascii_lower_spec(e) =~= e);
    assert(lower_extension(e) == e);
    match f {
        ImageFormat::Jpeg => {},
        ImageFormat::Png => {
            lemma_differs_at(e, "jpg"@, 0);
        },
        ImageFormat::WebP => {
            lemma_differs_at(e, "jpeg"@, 0);
        },
        ImageFormat::Gif => {
            lemma_differs_at(e, "jpg"@, 0);
            lemma_differs_at(e, "png"@, 0);
        },
        ImageFormat::Heic => {
            lemma_differs_at(e, "jpeg"@, 0);
            lemma_differs_at(e, "webp"@, 0);
        },
        ImageFormat::Heif => {
            lemma_differs_at(e, "jpeg"@, 0);
            lemma_differs_at(e, "webp"@, 0);
            lemma_differs_at(e, "heic"@, 3);
        },
        ImageFormat::Avif => {
            lemma_differs_at(e, "jpeg"@, 0);
            lemma_differs_at(e, "webp"@, 0);
            lemma_differs_at(e, "heic"@, 0);
            lemma_differs_at(e, "heif"@, 0);
        },
        ImageFormat::Tiff => {
            lemma_differs_at(e, "jpeg"@, 0);
            lemma_differs_at(e, "webp"@, 0);
            lemma_differs_at(e, "heic"@, 0);
            lemma_differs_at(e, "heif"@, 0);
            lemma_differs_at(e, "avif"@, 0);
        },
    }
}

/// Where the folder-mode thumbnail of `album/filename` is cached:
/// `<data>/thumbs/<album>/<filename>.webp`.
pub open spec fn thumb_path_spec(data_path: Seq<char>, album: Seq<char>, filename: Seq<char>) -> Seq<
    char,
> {
    join_spec(join_spec(join_spec(data_path, "thumbs"@), album), filename + ".webp"@)
}

/// The cached thumbnail path of a folder-mode photo.
pub fn thumb_path(data_path: &str, album: &str, filename: &str) -> (p: String)
    ensures
        p@ == thumb_path_spec(data_path@, album@, filename@),
{
    let a = join(data_path, "thumbs");
    let b = join(a.as_str(), album);
    let name = crate::text::concat(filename, ".webp");
    join(b.as_str(), name.as_str())
}

/// Where the timeline thumbnail of a photo is cached, keyed only by its stable id:
/// `<data>/thumbs/by-id/<id>.webp`.
pub open spec fn timeline_thumb_path_spec(data_path: Seq<char>, photo_id: Seq<char>) -> Seq<char> {
    join_spec(join_spec(join_spec(data_path, "thumbs"@), "by-id"@), photo_id + ".webp"@)
}

/// The cached thumbnail path of a timeline photo.
pub fn timeline_thumb_path(data_path: &str, photo_id: &str) -> (p: String)
    ensures
        p@ == timeline_thumb_path_spec(data_path@, photo_id@),
{
    let a = join(data_path, "thumbs");
    let b = join(a.as_str(), "by-id");
    let name = crate::text::concat(photo_id, ".webp");
    join(b.as_str(), name.as_str())
}

/// Where the source fingerprint of a timeline thumbnail is kept:
/// `<data>/thumbs/by-id/<id>.fingerprint`.
pub open spec fn timeline_thumb_fingerprint_path_spec(data_path: Seq<char>, photo_id: Seq<char>) -> Seq<
    char,
> {
    join_spec(join_spec(join_spec(data_path, "thumbs"@), "by-id"@), photo_id + ".fingerprint"@)
}

/// The fingerprint sidecar path of a timeline thumbnail.
pub fn timeline_thumb_fingerprint_path(data_path: &str, photo_id: &str) -> (p: String)
    ensures
        p@ == timeline_thumb_fingerprint_path_spec(data_path@, photo_id@),
{
    let a = join(data_path, "thumbs");
    let b = join(a.as_str(), "by-id");
    let name = crate::text::concat(photo_id, ".fingerprint");
    join(b.as_str(), name.as_str())
}

/// A timeline thumbnail is fresh when it and its sidecar exist and the sidecar holds
/// exactly the photo's current fingerprint.
pub fn timeline_thumb_is_fresh(
    thumbnail_exists: bool,
    sidecar: Option<&str>,
    fingerprint: &str,
) -> (fresh: bool)
    ensures
        fresh <==> thumbnail_exists && match sidecar {
            Some(cached) => cached@ == fingerprint@,
            None => false,
        },
{
    match sidecar {
        Some(cached) => {
            let c = chars_of(cached);
            thumbnail_exists && eq_str(c.as_slice(), fingerprint)
        },
        None => false,
    }
}

/// A folder-mode thumbnail is served from cache when both modification times are
/// known and the thumbnail is not older than its source.
pub fn cached_thumb_is_fresh(source_mtime: Option<u128>, thumb_mtime: Option<u128>) -> (fresh: bool)
    ensures
        fresh <==> (source_mtime is Some && thumb_mtime is Some && thumb_mtime->0
            >= source_mtime->0),
{
    match (source_mtime, thumb_mtime) {
        (Some(s), Some(t)) => t >= s,
        _ => false,
    }
}

/// A watcher regenerates a thumbnail when its source is newer than it, or when the
/// source exists and the thumbnail does not.
pub fn thumb_is_stale(source_mtime: Option<u128>, thumb_mtime: Option<u128>) -> (stale: bool)
    ensures
        stale <==> match (source_mtime, thumb_mtime) {
            (Some(s), Some(t)) => s > t,
            (Some(_), None) => true,
            _ => false,
        },
{
    match (source_mtime, thumb_mtime) {
        (Some(s), Some(t)) => s > t,
        (Some(_), None) => true,
        _ => false,
    }
}

/// The number of decode workers a pool gets: the configured count, at least one.
pub fn pool_worker_count(workers: usize) -> (n: usize)
    ensures
        n == if workers >= 1 {
            workers
        } else {
            1
        },
{
    if workers >= 1 {
        workers
    } else {
        1
    }
}

/// A decoded image: its size and its RGBA pixels, four bytes each, row by row.
#[derive(Debug, Clone, PartialEq, Eq)]
pub struct DecodedImage {
    pub width: u32,
    pub height: u32,
    pub data: Vec<u8>,
}

impl DecodedImage {
    /// The buffer holds exactly the image's pixels.
    pub open spec fn well_formed(&self) -> bool {
        self.data@.len() == self.width as nat * self.height as nat * 4
    }

    /// Whether the buffer holds exactly the image's pixels.
    pub fn is_well_formed(&self) -> (r: bool)
        ensures
            r == self.well_formed(),
    {
        let w = self.width as u128;
        let h = self.height as u128;
        assert(w * h <= 0xffff_ffff * 0xffff_ffff) by (nonlinear_arith)
            requires
                w <= 0xffff_ffff,
                h <= 0xffff_ffff,
        ;
        let pixels = w * h * 4;
        self.data.len() as u128 == pixels
    }
}

} // verus!
