//! The folder-mode manifest: one album per top-level folder, and what changed between
//! two scans.
use crate::text::{chars_eq, chars_of};
use crate::timeline::calendar::Timestamp;
use vstd::prelude::*;

verus! {

/// An album of folder mode: a top-level folder with photos.
#[derive(Debug, Clone, PartialEq, Eq)]
pub struct Album {
    pub name: String,
    pub cover: String,
    pub count: usize,
    pub created_at: Timestamp,
    pub updated_at: Timestamp,
}

/// The albums of the last scan and when it ran.
#[derive(Debug, Clone, PartialEq, Eq)]
pub struct Manifest {
    pub updated: Timestamp,
    pub albums: Vec<Album>,
}

/// A photo of a folder album.
#[derive(Debug, Clone, PartialEq, Eq)]
pub struct PhotoEntry {
    /// Index within the album, for previous/next navigation.
    pub id: usize,
    pub name: String,
    pub width: u32,
    pub height: u32,
    pub size_bytes: u64,
    pub format: String,
}

/// A folder album with its photos.
#[derive(Debug, Clone, PartialEq, Eq)]
pub struct AlbumDetail {
    pub name: String,
    pub photo_count: usize,
    pub photos: Vec<PhotoEntry>,
}

/// What changed between two manifests: albums that appeared and albums that went, by
/// name. Per-photo changes are keyed by album name; a manifest holds no per-photo times,
/// so the diff leaves them empty and a rescan finds them.
#[derive(Debug, Clone, PartialEq, Eq)]
pub struct ManifestDiff {
    pub new_albums: Vec<String>,
    pub removed_albums: Vec<String>,
    pub new_photos: Vec<(String, Vec<String>)>,
    pub removed_photos: Vec<(String, Vec<String>)>,
}

impl ManifestDiff {
    /// Whether anything changed.
    pub fn has_changes(&self) -> (r: bool)
        ensures
            r == (self.new_albums@.len() > 0 || self.removed_albums@.len() > 0
                || self.new_photos@.len() > 0 || self.removed_photos@.len() > 0),
    {
        self.new_albums.len() > 0 || self.removed_albums.len() > 0 || self.new_photos.len() > 0
            || self.removed_photos.len() > 0
    }
}

/// The names of a manifest's albums.
pub open spec fn album_names(albums: Seq<Album>) -> Set<Seq<char>> {
    Set::new(|n: Seq<char>| exists|i: int| 0 <= i < albums.len() && albums[i].name@ == n)
}

/// The strings are pairwise distinct.
pub open spec fn distinct_strings(v: Seq<String>) -> bool {
    forall|a: int, b: int| 0 <= a < v.len() && 0 <= b < v.len() && a != b ==> v[a]@ != v[b]@
}

/// The names of `v`, as a set.
pub open spec fn string_set(v: Seq<String>) -> Set<Seq<char>> {
    Set::new(|n: Seq<char>| exists|i: int| 0 <= i < v.len() && v[i]@ == n)
}

fn contains_name(names: &[Vec<char>], name: &[char]) -> (r: bool)
    ensures
        r == exists|i: int| 0 <= i < names@.len() && names@[i]@ == name@,
{
    let mut i: usize = 0;
    while i < names.len()
        invariant
            i <= names@.len(),
            forall|j: int| 0 <= j < i ==> names@[j]@ != name@,
        decreases names@.len() - i,
    {
        if chars_eq(names[i].as_slice(), name) {
            return true;
        }
        i = i + 1;
    }
    false
}

fn album_name_chars(albums: &[Album]) -> (r: Vec<Vec<char>>)
    ensures
        r@.len() == albums@.len(),
        forall|i: int| 0 <= i < albums@.len() ==> (#[trigger] r@[i])@ == albums@[i].name@,
{
    let mut r: Vec<Vec<char>> = Vec::new();
    let mut i: usize = 0;
    while i < albums.len()
        invariant
            i <= albums@.len(),
            r@.len() == i,
            forall|j: int| 0 <= j < i ==> (#[trigger] r@[j])@ == albums@[j].name@,
        decreases albums@.len() - i,
    {
        r.push(chars_of(albums[i].name.as_str()));
        i = i + 1;
    }
    r
}

/// The names of `from` that `other` lacks, each once, in the order `from` first lists
/// them.
fn names_missing_from(from: &[Album], other: &[Album]) -> (r: Vec<String>)
    ensures
        distinct_strings(r@),
        string_set(r@) == album_names(from@).difference(album_names(other@)),
{
    let other_names = album_name_chars(other);
    let mut seen: Vec<Vec<char>> = Vec::new();
    let mut r: Vec<String> = Vec::new();
    let mut i: usize = 0;
    while i < from.len()
        invariant
            i <= from@.len(),
            other_names@.len() == other@.len(),
            forall|j: int| 0 <= j < other@.len() ==> (#[trigger] other_names@[j])@ == other@[j].name@,
            r@.len() == seen@.len(),
            forall|j: int| 0 <= j < r@.len() ==> (#[trigger] r@[j])@ == seen@[j]@,
            distinct_strings(r@),
            forall|n: Seq<char>| #[trigger] string_set(r@).contains(n) <==> (
                exists|j: int| 0 <= j < i && from@[j].name@ == n) && !album_names(other@).contains(n),
        decreases from@.len() - i,
    {
        let name = chars_of(from[i].name.as_str());
        let in_other = contains_name(other_names.as_slice(), name.as_slice());
        let already = contains_name(seen.as_slice(), name.as_slice());
        proof {
            if in_other {
                let j = choose|j: int| 0 <= j < other_names@.len() && other_names@[j]@ == name@;
                assert(other@[j].name@ == name@);
                assert(album_names(other@).contains(name@));
            } else {
                assert forall|j: int| 0 <= j < other@.len() implies other@[j].name@ != name@ by {
                    assert(other_names@[j]@ == other@[j].name@);
                }
            }
        }
        if !in_other && !already {
            let ghost old_r = r@;
            r.push(from[i].name.clone());
            seen.push(name);
            proof {
                assert forall|a: int, b: int| 0 <= a < r@.len() && 0 <= b < r@.len() && a != b implies r@[a]@ != r@[b]@ by {
                    if a == old_r.len() as int {
                        assert(seen@[b]@ == r@[b]@);
                    } else if b == old_r.len() as int {
                        assert(seen@[a]@ == r@[a]@);
                    }
                }
                assert forall|n: Seq<char>| #[trigger] string_set(r@).contains(n) <==> (
                    exists|j: int| 0 <= j < i + 1 && from@[j].name@ == n) && !album_names(other@).contains(n) by {
                    if string_set(r@).contains(n) {
                        let k = choose|k: int| 0 <= k < r@.len() && r@[k]@ == n;
                        if k < old_r.len() {
                            assert(string_set(old_r).contains(n));
                        }
                    }
                    if (exists|j: int| 0 <= j < i + 1 && from@[j].name@ == n) && !album_names(other@).contains(n) {
                        let j = choose|j: int| 0 <= j < i + 1 && from@[j].name@ == n;
                        if j == i {
                            assert(r@[old_r.len() as int]@ == n);
                        } else {
                            assert(string_set(old_r).contains(n));
                            let k = choose|k: int| 0 <= k < old_r.len() && old_r[k]@ == n;
                            assert(r@[k]@ == n);
                        }
                    }
                }
            }
        } else {
            proof {
                assert forall|n: Seq<char>| #[trigger] string_set(r@).contains(n) <==> (
                    exists|j: int| 0 <= j < i + 1 && from@[j].name@ == n) && !album_names(other@).contains(n) by {
                    if (exists|j: int| 0 <= j < i + 1 && from@[j].name@ == n) && !album_names(other@).contains(n) {
                        let j = choose|j: int| 0 <= j < i + 1 && from@[j].name@ == n;
                        if j == i {
                            let k = choose|k: int| 0 <= k < seen@.len() && seen@[k]@ == name@;
                            assert(r@[k]@ == n);
                        }
                    }
                }
            }
        }
        i = i + 1;
    }
    proof {
        assert(string_set(r@) =~= album_names(from@).difference(album_names(other@)));
    }
    r
}

impl Manifest {
    /// What changed since `old`: album names now present that were not, and names that
    /// were present and are not now, each once.
    pub fn diff(&self, old: &Manifest) -> (d: ManifestDiff)
        ensures
            distinct_strings(d.new_albums@),
            distinct_strings(d.removed_albums@),
            string_set(d.new_albums@) == album_names(self.albums@).difference(album_names(old.albums@)),
            string_set(d.removed_albums@) == album_names(old.albums@).difference(album_names(self.albums@)),
            d.new_photos@.len() == 0,
            d.removed_photos@.len() == 0,
    {
        ManifestDiff {
            new_albums: names_missing_from(self.albums.as_slice(), old.albums.as_slice()),
            removed_albums: names_missing_from(old.albums.as_slice(), self.albums.as_slice()),
            new_photos: Vec::new(),
            removed_photos: Vec::new(),
        }
    }
}

} // verus!
