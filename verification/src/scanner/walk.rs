//! Folder mode: which entries of an album folder are photos, how albums are summarised,
//! and the order albums are listed in.
use crate::order::{sort_indices, sorted_permutation, IndexOrder};
use crate::pattern::{regex_is_match, regex_is_match_spec};
use crate::scanner::manifest::{Album, PhotoEntry};
use crate::scanner::watcher::{names_photo, path_names_photo};
use crate::text::{chars_of, push_char, push_str, string_from_chars, to_uppercase, to_uppercase_spec};
use crate::paths::{extension, extension_spec};
use crate::timeline::calendar::Timestamp;
use vstd::prelude::*;

verus! {

/// An entry directly inside an album folder, in file-name order.
#[derive(Debug, Clone, PartialEq, Eq)]
pub struct FolderEntry {
    pub name: String,
    pub is_file: bool,
    /// The size, when the file's metadata could be read.
    pub size_bytes: Option<u64>,
}

/// A photo's format: its extension in upper case, empty without one.
pub open spec fn format_spec(name: Seq<char>) -> Seq<char> {
    match extension_spec(name) {
        Some(e) => to_uppercase_spec(e),
        None => to_uppercase_spec(Seq::empty()),
    }
}

/// Whether an entry is listed: not matched by the exclusion pattern, a file, a photo by
/// extension, with readable metadata.
pub open spec fn listed(e: FolderEntry, pattern: Seq<char>) -> bool {
    &&& regex_is_match_spec(pattern, e.name@) == Some(false)
    &&& e.is_file
    &&& names_photo(e.name@)
    &&& e.size_bytes is Some
}

/// The entries that are listed, in order.
pub open spec fn listed_entries(entries: Seq<FolderEntry>, pattern: Seq<char>) -> Seq<FolderEntry>
    decreases entries.len(),
{
    if entries.len() == 0 {
        Seq::empty()
    } else {
        let prev = listed_entries(entries.drop_last(), pattern);
        if listed(entries.last(), pattern) {
            prev.push(entries.last())
        } else {
            prev
        }
    }
}

/// The photo entry of the `i`-th listed file: numbered from zero, size kept, format from
/// the extension, size unknown to the walk.
pub open spec fn entry_ok(p: PhotoEntry, e: FolderEntry, i: int) -> bool {
    &&& p.id == i
    &&& p.name@ == e.name@
    &&& p.width == 0
    &&& p.height == 0
    &&& Some(p.size_bytes) == e.size_bytes
    &&& p.format@ == format_spec(e.name@)
}

/// Some entry's name the exclusion pattern cannot judge (it does not compile).
pub open spec fn pattern_fails(entries: Seq<FolderEntry>, pattern: Seq<char>) -> bool {
    exists|i: int| 0 <= i < entries.len() && regex_is_match_spec(pattern, #[trigger] entries[i].name@) is None
}

/// The photos of an album folder, in file-name order; `None` when the exclusion pattern
/// does not compile.
pub fn album_photos(entries: &[FolderEntry], exclude: &str) -> (r: Option<Vec<PhotoEntry>>)
    ensures
        match r {
            Some(photos) => !pattern_fails(entries@, exclude@) && photos@.len() == listed_entries(entries@, exclude@).len()
                && forall|i: int| 0 <= i < photos@.len() ==> entry_ok(#[trigger] photos@[i], listed_entries(entries@, exclude@)[i], i),
            None => pattern_fails(entries@, exclude@),
        },
{
    let mut photos: Vec<PhotoEntry> = Vec::new();
    let mut i: usize = 0;
    while i < entries.len()
        invariant
            i <= entries@.len(),
            !pattern_fails(entries@.subrange(0, i as int), exclude@),
            photos@.len() == listed_entries(entries@.subrange(0, i as int), exclude@).len(),
            forall|k: int| 0 <= k < photos@.len() ==> entry_ok(#[trigger] photos@[k], listed_entries(entries@.subrange(0, i as int), exclude@)[k], k),
        decreases entries@.len() - i,
    {
        let ghost pre = entries@.subrange(0, i as int);
        let ghost next = entries@.subrange(0, i + 1);
        assert(next.drop_last() =~= pre);
        assert(next.last() == entries@[i as int]);
        let e = &entries[i];
        let excluded = match regex_is_match(exclude, e.name.as_str()) {
            Some(m) => m,
            None => {
                proof {
                    assert(pattern_fails(entries@, exclude@)) by {
                        assert(regex_is_match_spec(exclude@, entries@[i as int].name@) is None);
                    }
                }
                return None;
            },
        };
        if !excluded && e.is_file && path_names_photo(e.name.as_str()) && e.size_bytes.is_some() {
            let size = match e.size_bytes {
                Some(s) => s,
                None => 0,
            };
            let n = chars_of(e.name.as_str());
            let fmt = match extension(n.as_slice()) {
                Some(x) => to_uppercase(string_from_chars(x.as_slice()).as_str()),
                None => to_uppercase(""),
            };
            proof {
                reveal_strlit("");
            }
            let id = photos.len();
            photos.push(PhotoEntry { id, name: e.name.clone(), width: 0, height: 0, size_bytes: size, format: fmt });
        }
        proof {
            assert(regex_is_match_spec(exclude@, entries@[i as int].name@) is Some);
            assert forall|j: int| 0 <= j < next.len() implies regex_is_match_spec(exclude@, #[trigger] next[j].name@) is Some by {
                if j < i {
                    assert(next[j] == pre[j]);
                    if regex_is_match_spec(exclude@, pre[j].name@) is None {
                        assert(pattern_fails(pre, exclude@));
                    }
                } else {
                    assert(next[j] == entries@[i as int]);
                }
            }
        }
        i = i + 1;
    }
    assert(entries@.subrange(0, entries@.len() as int) =~= entries@);
    Some(photos)
}

/// A top-level folder is skipped when the exclusion pattern matches `/NAME` or `NAME`.
pub open spec fn folder_excluded_spec(pattern: Seq<char>, name: Seq<char>) -> Option<bool> {
    match (regex_is_match_spec(pattern, seq!['/'] + name), regex_is_match_spec(pattern, name)) {
        (Some(a), Some(b)) => Some(a || b),
        _ => None,
    }
}

/// Whether a top-level folder is skipped; `None` when the pattern does not compile.
pub fn folder_excluded(pattern: &str, name: &str) -> (r: Option<bool>)
    ensures
        r == folder_excluded_spec(pattern@, name@),
{
    let mut slashed = String::new();
    push_char(&mut slashed, '/');
    push_str(&mut slashed, name);
    let a = regex_is_match(pattern, slashed.as_str());
    let b = regex_is_match(pattern, name);
    match (a, b) {
        (Some(x), Some(y)) => Some(x || y),
        _ => None,
    }
}

/// The album of a folder: its name, its first photo as cover and its photo count;
/// nothing for a folder without photos.
pub fn album_of_folder(name: &str, photos: &[PhotoEntry], created_at: Timestamp, updated_at: Timestamp) -> (r: Option<Album>)
    ensures
        photos@.len() == 0 ==> r is None,
        photos@.len() > 0 ==> (r matches Some(a) && a.name@ == name@ && a.cover@ == photos@[0].name@
            && a.count == photos@.len() && a.created_at == created_at && a.updated_at == updated_at),
{
    if photos.len() == 0 {
        return None;
    }
    Some(Album { name: name.to_owned(), cover: photos[0].name.clone(), count: photos.len(), created_at, updated_at })
}

/// Instant order: by seconds, then nanoseconds.
pub open spec fn instant_lt(a: Timestamp, b: Timestamp) -> bool {
    a.secs < b.secs || (a.secs == b.secs && a.nanos < b.nanos)
}

/// The latest of the instants; `now` when there are none.
pub open spec fn latest_spec(times: Seq<Timestamp>, now: Timestamp) -> Timestamp
    decreases times.len(),
{
    if times.len() == 0 {
        now
    } else if times.len() == 1 {
        times[0]
    } else {
        let prev = latest_spec(times.drop_last(), now);
        if instant_lt(prev, times.last()) {
            times.last()
        } else {
            prev
        }
    }
}

/// An album's update time: the latest modification time of its photos, or `now`.
pub fn latest_modification(times: &[Timestamp], now: Timestamp) -> (r: Timestamp)
    ensures
        r == latest_spec(times@, now),
{
    if times.len() == 0 {
        return now;
    }
    let mut best = times[0];
    let mut i: usize = 1;
    assert(times@.subrange(0, 1) =~= seq![times@[0]]);
    while i < times.len()
        invariant
            1 <= i <= times@.len(),
            best == latest_spec(times@.subrange(0, i as int), now),
        decreases times@.len() - i,
    {
        assert(times@.subrange(0, i + 1).drop_last() =~= times@.subrange(0, i as int));
        let t = times[i];
        if best.secs < t.secs || (best.secs == t.secs && best.nanos < t.nanos) {
            best = t;
        }
        i = i + 1;
    }
    assert(times@.subrange(0, times@.len() as int) =~= times@);
    best
}

/// Albums listed newest first by creation time; albums created at the same instant keep
/// their order.
pub struct CreatedOrder {
    pub created: Vec<Timestamp>,
}

impl IndexOrder for CreatedOrder {
    open spec fn size(&self) -> nat {
        self.created@.len()
    }

    open spec fn before(&self, i: int, j: int) -> bool {
        instant_lt(self.created@[j], self.created@[i]) || (self.created@[i].secs == self.created@[j].secs
            && self.created@[i].nanos == self.created@[j].nanos && i < j)
    }

    proof fn lemma_irreflexive(&self, i: int) {
    }

    proof fn lemma_transitive(&self, i: int, j: int, k: int) {
    }

    proof fn lemma_total(&self, i: int, j: int) {
    }

    fn less(&self, i: usize, j: usize) -> (r: bool) {
        let (a, b) = (self.created[i], self.created[j]);
        b.secs < a.secs || (b.secs == a.secs && b.nanos < a.nanos) || (a.secs == b.secs && a.nanos == b.nanos && i < j)
    }
}

/// The order albums are listed in: newest creation first, ties in scan order.
pub fn newest_first(created: Vec<Timestamp>) -> (r: Vec<usize>)
    ensures
        sorted_permutation(&CreatedOrder { created }, r@, created@.len()),
{
    let n = created.len();
    let o = CreatedOrder { created };
    sort_indices(&o, n)
}

} // verus!
