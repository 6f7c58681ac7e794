//! Which file-system changes trigger a folder rescan, when the watcher rescans, and
//! what a rescan refreshes.
use crate::paths::{extension, extension_spec};
use crate::scanner::manifest::{Album, Manifest, ManifestDiff};
use crate::text::{chars_eq, chars_of, eq_str, string_from_chars, to_lowercase, to_lowercase_spec};
use crate::timeline::calendar::Timestamp;
use vstd::prelude::*;

verus! {

/// The kind of a file-system event, as far as rescans care.
#[derive(Debug, Clone, Copy, PartialEq, Eq, Structural)]
pub enum ChangeKind {
    /// A file or folder was created.
    Created,
    /// A file's data changed, or something was renamed.
    ContentOrName,
    /// A file or folder was removed.
    Removed,
    /// Only metadata changed.
    Metadata,
    /// Anything else.
    Other,
}

/// A file-system event: its kind and the paths it names.
#[derive(Debug, Clone, PartialEq, Eq)]
pub struct ChangeEvent {
    pub kind: ChangeKind,
    pub paths: Vec<String>,
}

/// Photo extensions, lower case.
pub open spec fn photo_extensions() -> Seq<Seq<char>> {
    seq!["jpg"@, "jpeg"@, "png"@, "webp"@, "gif"@, "heic"@, "heif"@, "avif"@, "tif"@, "tiff"@]
}

/// The path's extension, lower-cased, is a photo extension.
pub open spec fn names_photo(path: Seq<char>) -> bool {
    match extension_spec(path) {
        Some(ext) => exists|i: int| 0 <= i < photo_extensions().len() && to_lowercase_spec(ext) == photo_extensions()[i],
        None => false,
    }
}

/// Creations, content changes, renames and removals count; a metadata change counts
/// when it touches a photo.
pub open spec fn is_relevant_spec(e: ChangeEvent) -> bool {
    match e.kind {
        ChangeKind::Created => true,
        ChangeKind::ContentOrName => true,
        ChangeKind::Removed => true,
        ChangeKind::Metadata => exists|i: int| 0 <= i < e.paths@.len() && names_photo(#[trigger] e.paths@[i]@),
        ChangeKind::Other => false,
    }
}

/// Whether a path names a photo by its extension, lower-cased.
pub fn path_names_photo(path: &str) -> (r: bool)
    ensures
        r == names_photo(path@),
{
    let p = chars_of(path);
    let ext = match extension(p.as_slice()) {
        Some(e) => e,
        None => return false,
    };
    let text = string_from_chars(ext.as_slice());
    let lower = to_lowercase(text.as_str());
    let l = chars_of(lower.as_str());
    let names = ["jpg", "jpeg", "png", "webp", "gif", "heic", "heif", "avif", "tif", "tiff"];
    let mut i: usize = 0;
    proof {
        assert(names@.len() == 10);
    }
    while i < 10
        invariant
            i <= 10,
            names@.len() == 10,
            l@ == to_lowercase_spec(ext@),
            extension_spec(path@) == Some(ext@),
            forall|j: int| 0 <= j < 10 ==> (#[trigger] names@[j])@ == photo_extensions()[j],
            forall|j: int| 0 <= j < i ==> to_lowercase_spec(ext@) != photo_extensions()[j],
        decreases 10 - i,
    {
        if eq_str(l.as_slice(), names[i]) {
            assert(to_lowercase_spec(ext@) == photo_extensions()[i as int]);
            return true;
        }
        i = i + 1;
    }
    false
}

/// Whether an event can change the albums.
pub fn is_relevant_change(event: &ChangeEvent) -> (r: bool)
    ensures
        r == is_relevant_spec(*event),
{
    match event.kind {
        ChangeKind::Created | ChangeKind::ContentOrName | ChangeKind::Removed => true,
        ChangeKind::Other => false,
        ChangeKind::Metadata => {
            let mut i: usize = 0;
            while i < event.paths.len()
                invariant
                    i <= event.paths@.len(),
                    event.kind == ChangeKind::Metadata,
                    forall|j: int| 0 <= j < i ==> !names_photo(#[trigger] event.paths@[j]@),
                decreases event.paths@.len() - i,
            {
                if path_names_photo(event.paths[i].as_str()) {
                    assert(names_photo(event.paths@[i as int]@));
                    return true;
                }
                i = i + 1;
            }
            false
        },
    }
}

/// Some album present in both manifests has a new update time.
pub open spec fn photo_changes_spec(old: Seq<Album>, new: Seq<Album>) -> bool {
    exists|i: int, j: int| 0 <= i < old.len() && 0 <= j < new.len() && #[trigger] new[j].name@ == #[trigger] old[i].name@
        && new[j].updated_at != old[i].updated_at
}

/// Whether photos changed inside albums both manifests have.
pub fn has_photo_changes(old: &Manifest, new: &Manifest) -> (r: bool)
    ensures
        r == photo_changes_spec(old.albums@, new.albums@),
{
    let mut i: usize = 0;
    while i < old.albums.len()
        invariant
            i <= old.albums@.len(),
            forall|i2: int, j: int| 0 <= i2 < i && 0 <= j < new.albums@.len() ==> !(#[trigger] new.albums@[j].name@ == #[trigger] old.albums@[i2].name@
                && new.albums@[j].updated_at != old.albums@[i2].updated_at),
        decreases old.albums@.len() - i,
    {
        let a = chars_of(old.albums[i].name.as_str());
        let mut j: usize = 0;
        while j < new.albums.len()
            invariant
                j <= new.albums@.len(),
                i < old.albums@.len(),
                a@ == old.albums@[i as int].name@,
                forall|j2: int| 0 <= j2 < j ==> !(new.albums@[j2].name@ == old.albums@[i as int].name@
                    && new.albums@[j2].updated_at != old.albums@[i as int].updated_at),
            decreases new.albums@.len() - j,
        {
            let b = chars_of(new.albums[j].name.as_str());
            if chars_eq(a.as_slice(), b.as_slice()) && new.albums[j].updated_at != old.albums[i].updated_at {
                assert(new.albums@[j as int].name@ == old.albums@[i as int].name@);
                return true;
            }
            j = j + 1;
        }
        i = i + 1;
    }
    false
}

/// Whether a rescan has anything to sync: albums came or went, or photos changed.
pub fn should_sync(diff: &ManifestDiff, old: &Manifest, new: &Manifest) -> (r: bool)
    ensures
        r == ((diff.new_albums@.len() > 0 || diff.removed_albums@.len() > 0 || diff.new_photos@.len() > 0
            || diff.removed_photos@.len() > 0) || photo_changes_spec(old.albums@, new.albums@)),
{
    diff.has_changes() || has_photo_changes(old, new)
}

/// The first album of the old manifest with the name, if any.
pub open spec fn first_named(albums: Seq<Album>, name: Seq<char>) -> Option<Album>
    decreases albums.len(),
{
    if albums.len() == 0 {
        None
    } else if albums[0].name@ == name {
        Some(albums[0])
    } else {
        first_named(albums.drop_first(), name)
    }
}

/// An album's thumbnails are refreshed when it is new or its update time changed.
pub fn needs_refresh(old: &Manifest, album: &Album) -> (r: bool)
    ensures
        r == match first_named(old.albums@, album.name@) {
            Some(oa) => oa.updated_at != album.updated_at,
            None => true,
        },
{
    let name = chars_of(album.name.as_str());
    let mut i: usize = 0;
    assert(old.albums@.subrange(0, old.albums@.len() as int) =~= old.albums@);
    while i < old.albums.len()
        invariant
            i <= old.albums@.len(),
            name@ == album.name@,
            first_named(old.albums@, album.name@) == first_named(old.albums@.subrange(i as int, old.albums@.len() as int), album.name@),
        decreases old.albums@.len() - i,
    {
        let ghost rest = old.albums@.subrange(i as int, old.albums@.len() as int);
        assert(rest[0] == old.albums@[i as int]);
        assert(rest.drop_first() =~= old.albums@.subrange(i + 1, old.albums@.len() as int));
        let n = chars_of(old.albums[i].name.as_str());
        if chars_eq(n.as_slice(), name.as_slice()) {
            return old.albums[i].updated_at != album.updated_at;
        }
        i = i + 1;
    }
    true
}


/// The albums of a rescan whose existing thumbnails are checked for staleness: those of
/// the new manifest that are not new albums and that [`needs_refresh`] picks.
pub open spec fn refreshed_album(diff: ManifestDiff, old: Manifest, album: Album) -> bool {
    &&& !(exists|j: int| 0 <= j < diff.new_albums@.len() && #[trigger] diff.new_albums@[j]@ == album.name@)
    &&& match first_named(old.albums@, album.name@) {
        Some(oa) => oa.updated_at != album.updated_at,
        None => true,
    }
}

/// The positions, in order, of the albums of `new` whose thumbnails a rescan refreshes.
pub fn albums_to_refresh(diff: &ManifestDiff, old: &Manifest, new: &Manifest) -> (r: Vec<usize>)
    ensures
        forall|k: int| 0 <= k < r@.len() ==> #[trigger] r@[k] < new.albums@.len(),
        forall|a: int, b: int| 0 <= a < b < r@.len() ==> #[trigger] r@[a] < #[trigger] r@[b],
        forall|i: int|
            0 <= i < new.albums@.len() ==> (refreshed_album(*diff, *old, #[trigger] new.albums@[i])
                <==> exists|k: int| 0 <= k < r@.len() && r@[k] == i),
{
    let mut r: Vec<usize> = Vec::new();
    let mut i: usize = 0;
    while i < new.albums.len()
        invariant
            i <= new.albums@.len(),
            forall|k: int| 0 <= k < r@.len() ==> #[trigger] r@[k] < i,
            forall|a: int, b: int| 0 <= a < b < r@.len() ==> #[trigger] r@[a] < #[trigger] r@[b],
            forall|x: int|
                0 <= x < i ==> (refreshed_album(*diff, *old, #[trigger] new.albums@[x])
                    <==> exists|k: int| 0 <= k < r@.len() && r@[k] == x),
        decreases new.albums@.len() - i,
    {
        let name = chars_of(new.albums[i].name.as_str());
        let mut is_new = false;
        let mut j: usize = 0;
        while j < diff.new_albums.len()
            invariant
                j <= diff.new_albums@.len(),
                i < new.albums@.len(),
                name@ == new.albums@[i as int].name@,
                is_new <==> exists|j2: int| 0 <= j2 < j && #[trigger] diff.new_albums@[j2]@ == name@,
            decreases diff.new_albums@.len() - j,
        {
            let n = chars_of(diff.new_albums[j].as_str());
            if chars_eq(n.as_slice(), name.as_slice()) {
                is_new = true;
            }
            j = j + 1;
        }
        let picked = !is_new && needs_refresh(old, &new.albums[i]);
        let ghost before = r@;
        if picked {
            r.push(i);
        }
        proof {
            assert(picked == refreshed_album(*diff, *old, new.albums@[i as int]));
            assert forall|x: int|
                0 <= x < i + 1 implies (refreshed_album(*diff, *old, #[trigger] new.albums@[x])
                    <==> exists|k: int| 0 <= k < r@.len() && r@[k] == x) by {
                if x < i {
                    if exists|k: int| 0 <= k < r@.len() && r@[k] == x {
                        let k = choose|k: int| 0 <= k < r@.len() && r@[k] == x;
                        if k < before.len() {
                            assert(before[k] == x);
                        }
                    }
                    if exists|k: int| 0 <= k < before.len() && before[k] == x {
                        let k = choose|k: int| 0 <= k < before.len() && before[k] == x;
                        assert(r@[k] == x);
                    }
                } else {
                    if picked {
                        assert(r@[before.len() as int] == x);
                    } else {
                        if exists|k: int| 0 <= k < r@.len() && r@[k] == x {
                            let k = choose|k: int| 0 <= k < r@.len() && r@[k] == x;
                            assert(before[k] < i);
                        }
                    }
                }
            }
        }
        i = i + 1;
    }
    r
}

/// Where the folder watcher stands between file-system events.
#[derive(Debug, Clone, Copy, PartialEq, Eq, Structural)]
pub enum WatchPhase {
    /// Waiting for the next event.
    Waiting,
    /// An irrelevant event came; looking for a relevant one within a short window.
    Probing,
    /// A relevant event came; letting the burst settle before the rescan.
    Debouncing,
    /// The event stream has ended.
    Stopped,
}

/// What the watcher learns next.
#[derive(Debug, Clone, Copy, PartialEq, Eq, Structural)]
pub enum WatchEvent {
    /// An event arrived; whether it is relevant ([`is_relevant_change`]).
    Change(bool),
    /// The open window ended with no event.
    Quiet,
    /// The event stream ended.
    Closed,
}

/// What the watcher does next.
#[derive(Debug, Clone, Copy, PartialEq, Eq, Structural)]
pub enum WatchAction {
    /// Wait for the next event, with no deadline.
    WaitForEvent,
    /// Open the short window (one second) in which a relevant event is looked for.
    OpenProbeWindow,
    /// Open the debounce window (five seconds) that drains the burst.
    OpenDebounceWindow,
    /// Keep waiting within the window already open.
    KeepWindow,
    /// Rescan, then wait for the next event.
    Rescan,
    /// Rescan, then stop.
    RescanThenStop,
    /// Stop.
    Stop,
}

/// The watcher's decisions: an irrelevant first event opens a short window in which a
/// relevant one is looked for; a relevant event opens the debounce window, which drains
/// every further event and ends with a rescan; a closed stream stops the watcher, after
/// the rescan a debounce window owes.
pub open spec fn watch_step_spec(phase: WatchPhase, event: WatchEvent) -> (WatchPhase, WatchAction) {
    match (phase, event) {
        (WatchPhase::Stopped, _) => (WatchPhase::Stopped, WatchAction::Stop),
        (_, WatchEvent::Closed) => (
            WatchPhase::Stopped,
            if phase == WatchPhase::Debouncing {
                WatchAction::RescanThenStop
            } else {
                WatchAction::Stop
            },
        ),
        (WatchPhase::Waiting, WatchEvent::Change(true)) => (WatchPhase::Debouncing, WatchAction::OpenDebounceWindow),
        (WatchPhase::Waiting, WatchEvent::Change(false)) => (WatchPhase::Probing, WatchAction::OpenProbeWindow),
        (WatchPhase::Waiting, WatchEvent::Quiet) => (WatchPhase::Waiting, WatchAction::WaitForEvent),
        (WatchPhase::Probing, WatchEvent::Change(true)) => (WatchPhase::Debouncing, WatchAction::OpenDebounceWindow),
        (WatchPhase::Probing, WatchEvent::Change(false)) => (WatchPhase::Probing, WatchAction::KeepWindow),
        (WatchPhase::Probing, WatchEvent::Quiet) => (WatchPhase::Waiting, WatchAction::WaitForEvent),
        (WatchPhase::Debouncing, WatchEvent::Change(_)) => (WatchPhase::Debouncing, WatchAction::KeepWindow),
        (WatchPhase::Debouncing, WatchEvent::Quiet) => (WatchPhase::Waiting, WatchAction::Rescan),
    }
}

/// The watcher's next phase and action.
pub fn watch_step(phase: WatchPhase, event: WatchEvent) -> (r: (WatchPhase, WatchAction))
    ensures
        r == watch_step_spec(phase, event),
        (r.1 == WatchAction::Rescan || r.1 == WatchAction::RescanThenStop) ==> phase == WatchPhase::Debouncing,
        r.0 == WatchPhase::Debouncing ==> phase == WatchPhase::Debouncing || event == WatchEvent::Change(true),
{
    match phase {
        WatchPhase::Stopped => (WatchPhase::Stopped, WatchAction::Stop),
        WatchPhase::Waiting => match event {
            WatchEvent::Closed => (WatchPhase::Stopped, WatchAction::Stop),
            WatchEvent::Change(true) => (WatchPhase::Debouncing, WatchAction::OpenDebounceWindow),
            WatchEvent::Change(false) => (WatchPhase::Probing, WatchAction::OpenProbeWindow),
            WatchEvent::Quiet => (WatchPhase::Waiting, WatchAction::WaitForEvent),
        },
        WatchPhase::Probing => match event {
            WatchEvent::Closed => (WatchPhase::Stopped, WatchAction::Stop),
            WatchEvent::Change(true) => (WatchPhase::Debouncing, WatchAction::OpenDebounceWindow),
            WatchEvent::Change(false) => (WatchPhase::Probing, WatchAction::KeepWindow),
            WatchEvent::Quiet => (WatchPhase::Waiting, WatchAction::WaitForEvent),
        },
        WatchPhase::Debouncing => match event {
            WatchEvent::Closed => (WatchPhase::Stopped, WatchAction::RescanThenStop),
            WatchEvent::Change(_) => (WatchPhase::Debouncing, WatchAction::KeepWindow),
            WatchEvent::Quiet => (WatchPhase::Waiting, WatchAction::Rescan),
        },
    }
}

/// Where the timeline watcher stands between file-system events.
#[derive(Debug, Clone, Copy, PartialEq, Eq, Structural)]
pub enum TimelineWatchPhase {
    /// Waiting for the next event.
    Waiting,
    /// A relevant event came; draining the burst before the rescan.
    Debouncing,
    /// The event stream has ended.
    Stopped,
}

/// What the timeline watcher learns next.
#[derive(Debug, Clone, Copy, PartialEq, Eq, Structural)]
pub enum TimelineWatchEvent {
    /// An event arrived; whether it is relevant ([`is_relevant_change`]).
    Change(bool),
    /// The open window ended with no event.
    Quiet,
    /// The event stream ended.
    Closed,
}

/// What the timeline watcher does next.
#[derive(Debug, Clone, Copy, PartialEq, Eq, Structural)]
pub enum TimelineWatchAction {
    /// Wait for the next event, with no deadline.
    Wait,
    /// Open the debounce window (five seconds) that drains the burst.
    OpenWindow,
    /// Keep draining within the window already open.
    KeepWindow,
    /// Rescan the timeline, then wait for the next event.
    Rescan,
    /// Rescan the timeline, then stop.
    RescanThenStop,
    /// Stop.
    Stop,
}

/// The timeline watcher's decisions: irrelevant events are skipped; a relevant one opens
/// the debounce window, which drains every further event and ends with a rescan; a closed
/// stream stops the watcher, after the rescan an open window owes.
pub open spec fn timeline_watch_step_spec(
    phase: TimelineWatchPhase,
    event: TimelineWatchEvent,
) -> (TimelineWatchPhase, TimelineWatchAction) {
    match (phase, event) {
        (TimelineWatchPhase::Stopped, _) => (TimelineWatchPhase::Stopped, TimelineWatchAction::Stop),
        (TimelineWatchPhase::Debouncing, TimelineWatchEvent::Closed) => (
            TimelineWatchPhase::Stopped,
            TimelineWatchAction::RescanThenStop,
        ),
        (TimelineWatchPhase::Waiting, TimelineWatchEvent::Closed) => (
            TimelineWatchPhase::Stopped,
            TimelineWatchAction::Stop,
        ),
        (TimelineWatchPhase::Waiting, TimelineWatchEvent::Change(true)) => (
            TimelineWatchPhase::Debouncing,
            TimelineWatchAction::OpenWindow,
        ),
        (TimelineWatchPhase::Waiting, _) => (TimelineWatchPhase::Waiting, TimelineWatchAction::Wait),
        (TimelineWatchPhase::Debouncing, TimelineWatchEvent::Change(_)) => (
            TimelineWatchPhase::Debouncing,
            TimelineWatchAction::KeepWindow,
        ),
        (TimelineWatchPhase::Debouncing, TimelineWatchEvent::Quiet) => (
            TimelineWatchPhase::Waiting,
            TimelineWatchAction::Rescan,
        ),
    }
}

/// The timeline watcher's next phase and action.
pub fn timeline_watch_step(phase: TimelineWatchPhase, event: TimelineWatchEvent) -> (r: (
    TimelineWatchPhase,
    TimelineWatchAction,
))
    ensures
        r == timeline_watch_step_spec(phase, event),
        (r.1 == TimelineWatchAction::Rescan || r.1 == TimelineWatchAction::RescanThenStop) ==> phase
            == TimelineWatchPhase::Debouncing,
        r.0 == TimelineWatchPhase::Debouncing ==> phase == TimelineWatchPhase::Debouncing || event
            == TimelineWatchEvent::Change(true),
{
    match phase {
        TimelineWatchPhase::Stopped => (TimelineWatchPhase::Stopped, TimelineWatchAction::Stop),
        TimelineWatchPhase::Waiting => match event {
            TimelineWatchEvent::Closed => (TimelineWatchPhase::Stopped, TimelineWatchAction::Stop),
            TimelineWatchEvent::Change(true) => (TimelineWatchPhase::Debouncing, TimelineWatchAction::OpenWindow),
            TimelineWatchEvent::Change(false) => (TimelineWatchPhase::Waiting, TimelineWatchAction::Wait),
            TimelineWatchEvent::Quiet => (TimelineWatchPhase::Waiting, TimelineWatchAction::Wait),
        },
        TimelineWatchPhase::Debouncing => match event {
            TimelineWatchEvent::Closed => (TimelineWatchPhase::Stopped, TimelineWatchAction::RescanThenStop),
            TimelineWatchEvent::Change(_) => (TimelineWatchPhase::Debouncing, TimelineWatchAction::KeepWindow),
            TimelineWatchEvent::Quiet => (TimelineWatchPhase::Waiting, TimelineWatchAction::Rescan),
        },
    }
}

} // verus!
