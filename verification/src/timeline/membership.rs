//! What daily albums promise of their photos: every photo is in an album, no photo is
//! in two, and an album's photos share one first-level folder and one local day.
use crate::order::{appears_in, lemma_seq_lt_irreflexive};
use crate::timeline::albums::{
    album_before, album_keys_spec, album_of, albums_assembled, albums_built, all_days_known,
    first_level_folder_spec, groups_partition, in_some_group, key_before, lemma_day_lt_irreflexive,
    lemma_key_lt_irreflexive, photo_day_spec, photo_keys_spec, DayGroup,
};
use crate::timeline::models::{DailyAlbumBuild, TimelinePhoto};
use vstd::prelude::*;

verus! {

/// Album `k` lists photo id `id` at position `a`.
pub open spec fn lists(builds: Seq<DailyAlbumBuild>, k: int, a: int, id: Seq<char>) -> bool {
    &&& 0 <= k < builds.len()
    &&& 0 <= a < builds[k].photo_ids@.len()
    &&& builds[k].photo_ids@[a]@ == id
}

/// No two photos share an id.
pub open spec fn distinct_ids(photos: Seq<TimelinePhoto>) -> bool {
    forall|i: int, j: int| 0 <= i < j < photos.len() ==> photos[i].id@ != photos[j].id@
}

/// Every photo the album lists is a photo of the first-level folder `folder` taken on the
/// album's day.
pub open spec fn members_share_folder_and_day(
    b: DailyAlbumBuild,
    photos: Seq<TimelinePhoto>,
    tz: Seq<char>,
    folder: Seq<char>,
) -> bool {
    forall|a: int|
        0 <= a < b.photo_ids@.len() ==> exists|i: int|
            0 <= i < photos.len() && #[trigger] photos[i].id@ == (#[trigger] b.photo_ids@[a])@
                && first_level_folder_spec(photos[i].relative_path@) == folder && photo_day_spec(
                photos[i],
                tz,
            ) == b.album.date_start
}

/// The album's photos all come from one first-level folder and its day.
pub open spec fn album_in_one_folder_and_day(b: DailyAlbumBuild, photos: Seq<TimelinePhoto>, tz: Seq<char>) -> bool {
    exists|folder: Seq<char>| #[trigger] members_share_folder_and_day(b, photos, tz, folder)
}

/// `builds[k]` is the album of group `order[k]`, for an `order` that lists the groups
/// by album key.
spec fn built_in_order(
    photos: Seq<TimelinePhoto>,
    groups: Seq<DayGroup>,
    places: Seq<Vec<String>>,
    builds: Seq<DailyAlbumBuild>,
    order: Seq<usize>,
) -> bool {
    &&& order.len() == groups.len()
    &&& builds.len() == groups.len()
    &&& forall|k: int| 0 <= k < order.len() ==> order[k] < groups.len()
    &&& forall|a: int, b: int|
        0 <= a < b < order.len() ==> album_before(
            album_keys_spec(groups, places),
            #[trigger] order[a] as int,
            #[trigger] order[b] as int,
        )
    &&& forall|x: int| 0 <= x < groups.len() ==> #[trigger] appears_in(order, x)
    &&& forall|k: int|
        0 <= k < order.len() ==> album_of(
            #[trigger] builds[k],
            groups[order[k] as int],
            photos,
            crate::timeline::albums::string_views(places[order[k] as int]@),
        )
}

proof fn lemma_every_photo_listed(
    photos: Seq<TimelinePhoto>,
    tz: Seq<char>,
    groups: Seq<DayGroup>,
    places: Seq<Vec<String>>,
    builds: Seq<DailyAlbumBuild>,
    order: Seq<usize>,
)
    requires
        groups_partition(photo_keys_spec(photos, tz), groups),
        built_in_order(photos, groups, places, builds, order),
    ensures
        forall|i: int|
            #![trigger photos[i]]
            0 <= i < photos.len() ==> exists|k: int, a: int| #[trigger] lists(builds, k, a, photos[i].id@),
{
    reveal(album_of);
    assert forall|i: int|
        #![trigger photos[i]]
        0 <= i < photos.len() implies exists|k: int, a: int| #[trigger] lists(builds, k, a, photos[i].id@) by {
        assert(in_some_group(groups, i));
        let (g, m) = choose|g: int, m: int|
            0 <= g < groups.len() && 0 <= m < groups[g].members@.len() && groups[g].members@[m] == i;
        assert(appears_in(order, g));
        let k = choose|k: int| 0 <= k < order.len() && order[k] == g;
        assert(album_of(builds[k], groups[order[k] as int], photos, crate::timeline::albums::string_views(places[order[k] as int]@)));
        assert(lists(builds, k, m, photos[i].id@));
    }
}

proof fn lemma_members_share_folder_and_day(
    photos: Seq<TimelinePhoto>,
    tz: Seq<char>,
    groups: Seq<DayGroup>,
    places: Seq<Vec<String>>,
    builds: Seq<DailyAlbumBuild>,
    order: Seq<usize>,
    k: int,
)
    requires
        all_days_known(photos, tz),
        groups_partition(photo_keys_spec(photos, tz), groups),
        built_in_order(photos, groups, places, builds, order),
        0 <= k < builds.len(),
    ensures
        members_share_folder_and_day(builds[k], photos, tz, groups[order[k] as int].folder@),
{
    reveal(album_of);
    let keys = photo_keys_spec(photos, tz);
    let g = order[k] as int;
    assert(album_of(builds[k], groups[g], photos, crate::timeline::albums::string_views(places[g]@)));
    assert forall|a: int| 0 <= a < builds[k].photo_ids@.len() implies exists|i: int|
        0 <= i < photos.len() && #[trigger] photos[i].id@ == (#[trigger] builds[k].photo_ids@[a])@
            && first_level_folder_spec(photos[i].relative_path@) == groups[g].folder@
            && photo_day_spec(photos[i], tz) == builds[k].album.date_start by {
        let i = groups[g].members@[a] as int;
        assert(i < keys.len());
        assert(keys[i].folder == groups[g].folder@);
        assert(photo_day_spec(photos[i], tz) is Some);
        assert(photos[i].id@ == builds[k].photo_ids@[a]@);
    }
}

proof fn lemma_albums_share_folder_and_day(
    photos: Seq<TimelinePhoto>,
    tz: Seq<char>,
    groups: Seq<DayGroup>,
    places: Seq<Vec<String>>,
    builds: Seq<DailyAlbumBuild>,
    order: Seq<usize>,
)
    requires
        all_days_known(photos, tz),
        groups_partition(photo_keys_spec(photos, tz), groups),
        built_in_order(photos, groups, places, builds, order),
    ensures
        forall|k: int|
            0 <= k < builds.len() ==> #[trigger] album_in_one_folder_and_day(builds[k], photos, tz),
{
    assert forall|k: int| 0 <= k < builds.len() implies #[trigger] album_in_one_folder_and_day(builds[k], photos, tz) by {
        lemma_members_share_folder_and_day(photos, tz, groups, places, builds, order, k);
    }
}

proof fn lemma_listed_once(
    photos: Seq<TimelinePhoto>,
    tz: Seq<char>,
    groups: Seq<DayGroup>,
    places: Seq<Vec<String>>,
    builds: Seq<DailyAlbumBuild>,
    order: Seq<usize>,
    k1: int,
    a1: int,
    k2: int,
    a2: int,
)
    requires
        distinct_ids(photos),
        groups_partition(photo_keys_spec(photos, tz), groups),
        built_in_order(photos, groups, places, builds, order),
        lists(builds, k1, a1, builds[k2].photo_ids@[a2]@),
        0 <= k2 < builds.len(),
        0 <= a2 < builds[k2].photo_ids@.len(),
    ensures
        k1 == k2 && a1 == a2,
{
    reveal(album_of);
    let keys = photo_keys_spec(photos, tz);
    let g1 = order[k1] as int;
    let g2 = order[k2] as int;
    assert(album_of(builds[k1], groups[g1], photos, crate::timeline::albums::string_views(places[g1]@)));
    assert(album_of(builds[k2], groups[g2], photos, crate::timeline::albums::string_views(places[g2]@)));
    let i1 = groups[g1].members@[a1] as int;
    let i2 = groups[g2].members@[a2] as int;
    assert(i1 < keys.len() && i2 < keys.len());
    if i1 < i2 {
        assert(photos[i1].id@ != photos[i2].id@);
    } else if i2 < i1 {
        assert(photos[i2].id@ != photos[i1].id@);
    }
    assert(i1 == i2);
    if g1 < g2 {
        lemma_day_lt_irreflexive(groups[g1].folder@, groups[g1].date);
    } else if g2 < g1 {
        lemma_day_lt_irreflexive(groups[g2].folder@, groups[g2].date);
    }
    assert(g1 == g2);
    let akeys = album_keys_spec(groups, places);
    if k1 < k2 {
        assert(album_before(akeys, order[k1] as int, order[k2] as int));
        lemma_seq_lt_irreflexive(akeys[g1].name);
        lemma_seq_lt_irreflexive(akeys[g1].id);
    } else if k2 < k1 {
        assert(album_before(akeys, order[k2] as int, order[k1] as int));
        lemma_seq_lt_irreflexive(akeys[g1].name);
        lemma_seq_lt_irreflexive(akeys[g1].id);
    }
    assert(k1 == k2);
    if a1 < a2 {
        assert(key_before(keys, i1, i2));
        lemma_key_lt_irreflexive(keys[i1]);
    } else if a2 < a1 {
        assert(key_before(keys, i2, i1));
        lemma_key_lt_irreflexive(keys[i1]);
    }
}

/// Built daily albums list each photo of the photos: every photo is listed by some
/// album; every album's photos come from one first-level folder and were taken on the
/// album's local day; and, where photo ids are distinct, no photo is listed twice, in
/// one album or in two.
pub proof fn lemma_daily_albums_partition_photos(
    photos: Seq<TimelinePhoto>,
    tz: Seq<char>,
    builds: Seq<DailyAlbumBuild>,
)
    requires
        all_days_known(photos, tz),
        albums_built(photos, tz, builds),
    ensures
        forall|i: int|
            #![trigger photos[i]]
            0 <= i < photos.len() ==> exists|k: int, a: int| #[trigger] lists(builds, k, a, photos[i].id@),
        forall|k: int|
            0 <= k < builds.len() ==> #[trigger] album_in_one_folder_and_day(builds[k], photos, tz),
        distinct_ids(photos) ==> forall|k1: int, a1: int, k2: int, a2: int|
            #![trigger lists(builds, k1, a1, builds[k2].photo_ids@[a2]@)]
            lists(builds, k1, a1, builds[k2].photo_ids@[a2]@) && 0 <= k2 < builds.len() && 0 <= a2
                < builds[k2].photo_ids@.len() ==> k1 == k2 && a1 == a2,
{
    let (groups, places) = choose|groups: Seq<DayGroup>, resolved: Seq<Vec<String>>|
        {
            &&& groups_partition(photo_keys_spec(photos, tz), groups)
            &&& resolved.len() == groups.len()
            &&& #[trigger] albums_assembled(groups, photos, resolved, builds)
        };
    let order = choose|order: Seq<usize>| built_in_order(photos, groups, places, builds, order);
    assert(exists|order: Seq<usize>| built_in_order(photos, groups, places, builds, order)) by {
        let o = choose|order: Seq<usize>|
            {
                &&& order.len() == groups.len()
                &&& builds.len() == groups.len()
                &&& forall|k: int| 0 <= k < order.len() ==> order[k] < groups.len()
                &&& forall|a: int, b: int|
                    0 <= a < b < order.len() ==> album_before(
                        album_keys_spec(groups, places),
                        #[trigger] order[a] as int,
                        #[trigger] order[b] as int,
                    )
                &&& forall|x: int| 0 <= x < groups.len() ==> #[trigger] appears_in(order, x)
                &&& forall|k: int|
                    0 <= k < order.len() ==> album_of(
                        #[trigger] builds[k],
                        groups[order[k] as int],
                        photos,
                        crate::timeline::albums::string_views(places[order[k] as int]@),
                    )
            };
        assert(built_in_order(photos, groups, places, builds, o));
    }
    lemma_every_photo_listed(photos, tz, groups, places, builds, order);
    lemma_albums_share_folder_and_day(photos, tz, groups, places, builds, order);
    if distinct_ids(photos) {
        assert forall|k1: int, a1: int, k2: int, a2: int|
            lists(builds, k1, a1, builds[k2].photo_ids@[a2]@) && 0 <= k2 < builds.len() && 0 <= a2
                < builds[k2].photo_ids@.len() implies k1 == k2 && a1 == a2 by {
            lemma_listed_once(photos, tz, groups, places, builds, order, k1, a1, k2, a2);
        }
    }
}

} // verus!
