//! Place names of albums: the cached geocoding results of their photos' GPS buckets,
//! ranked by how many photos share a bucket, else place names found in folder names.
use crate::order::{
    chars_less, lemma_seq_lt_irreflexive, lemma_seq_lt_total, lemma_seq_lt_transitive, seq_lt,
    sort_indices, sorted_permutation, IndexOrder,
};
use crate::text::{
    chars_eq, chars_of, eq_str, split_char, split_spec, string_from_chars, to_lowercase,
    to_lowercase_spec, trim, trim_spec,
};
use crate::timeline::models::TimelinePhoto;
use vstd::prelude::*;

verus! {

/// A geocoded place, cached by GPS bucket. Its coordinates, which are floating-point
/// numbers, are kept outside the library.
#[derive(Debug, Clone, PartialEq, Eq)]
pub struct Place {
    pub geo_bucket: String,
    pub country: Option<String>,
    pub region: Option<String>,
    pub city: Option<String>,
    pub district: Option<String>,
    pub provider: String,
    pub resolved_at: String,
}

pub open spec fn opt_view(o: Option<String>) -> Option<Seq<char>> {
    match o {
        Some(s) => Some(s@),
        None => None,
    }
}

/// A value that is there and not blank.
pub open spec fn filled(o: Option<String>) -> bool {
    o matches Some(s) && trim_spec(s@).len() > 0
}

/// The name a place is shown by: its city, else district, else region, else country,
/// the first that is not blank, as stored.
pub open spec fn display_name_spec(p: Place) -> Option<Seq<char>> {
    if filled(p.city) {
        opt_view(p.city)
    } else if filled(p.district) {
        opt_view(p.district)
    } else if filled(p.region) {
        opt_view(p.region)
    } else if filled(p.country) {
        opt_view(p.country)
    } else {
        None
    }
}

fn is_filled(o: &Option<String>) -> (r: bool)
    ensures
        r == filled(*o),
{
    match o {
        Some(s) => {
            let c = chars_of(s.as_str());
            trim(c.as_slice()).len() > 0
        },
        None => false,
    }
}

impl Place {
    /// The name the place is shown by.
    pub fn display_name(&self) -> (r: Option<String>)
        ensures
            opt_view(r) == display_name_spec(*self),
    {
        if is_filled(&self.city) {
            self.city.clone()
        } else if is_filled(&self.district) {
            self.district.clone()
        } else if is_filled(&self.region) {
            self.region.clone()
        } else if is_filled(&self.country) {
            self.country.clone()
        } else {
            None
        }
    }
}

/// A text trimmed, or nothing when blank.
pub open spec fn clean_spec(o: Option<Seq<char>>) -> Option<Seq<char>> {
    match o {
        Some(v) => if trim_spec(v).len() > 0 {
            Some(trim_spec(v))
        } else {
            None
        },
        None => None,
    }
}

/// Trims a text; nothing when it is blank.
pub fn clean(value: Option<String>) -> (r: Option<String>)
    ensures
        opt_view(r) == clean_spec(opt_view(value)),
{
    match value {
        Some(v) => {
            let c = chars_of(v.as_str());
            let t = trim(c.as_slice());
            if t.len() > 0 {
                Some(string_from_chars(t.as_slice()))
            } else {
                None
            }
        },
        None => None,
    }
}

/// The first of the values that is not blank, trimmed.
pub open spec fn first_non_empty_spec(values: Seq<Option<Seq<char>>>) -> Option<Seq<char>>
    decreases values.len(),
{
    if values.len() == 0 {
        None
    } else {
        match clean_spec(values[0]) {
            Some(v) => Some(v),
            None => first_non_empty_spec(values.drop_first()),
        }
    }
}

pub open spec fn opt_views(v: Seq<Option<String>>) -> Seq<Option<Seq<char>>> {
    v.map_values(|o: Option<String>| opt_view(o))
}

/// The first value that is not blank, trimmed.
pub fn first_non_empty(values: Vec<Option<String>>) -> (r: Option<String>)
    ensures
        opt_view(r) == first_non_empty_spec(opt_views(values@)),
{
    let ghost all = opt_views(values@);
    let mut i: usize = 0;
    assert(all.subrange(0, all.len() as int) =~= all);
    while i < values.len()
        invariant
            i <= values@.len(),
            all == opt_views(values@),
            first_non_empty_spec(all) == first_non_empty_spec(all.subrange(i as int, all.len() as int)),
        decreases values@.len() - i,
    {
        let ghost rest = all.subrange(i as int, all.len() as int);
        assert(rest[0] == opt_view(values@[i as int]));
        assert(rest.drop_first() =~= all.subrange(i + 1, all.len() as int));
        let v = clean(values[i].clone());
        if v.is_some() {
            return v;
        }
        i = i + 1;
    }
    None
}

/// The address fields of a reverse-geocoding answer.
#[derive(Debug, Clone, Default, PartialEq, Eq)]
pub struct NominatimAddress {
    pub country: Option<String>,
    pub state: Option<String>,
    pub city: Option<String>,
    pub town: Option<String>,
    pub village: Option<String>,
    pub suburb: Option<String>,
    pub county: Option<String>,
}

/// The place an answer describes: country and region as given, the city from city,
/// town, village or county, the district from suburb or county, all trimmed.
pub open spec fn place_from_address_ok(p: Place, bucket: Seq<char>, a: NominatimAddress, resolved_at: Seq<char>) -> bool {
    &&& p.geo_bucket@ == bucket
    &&& opt_view(p.country) == clean_spec(opt_view(a.country))
    &&& opt_view(p.region) == clean_spec(opt_view(a.state))
    &&& opt_view(p.city) == first_non_empty_spec(
        seq![opt_view(a.city), opt_view(a.town), opt_view(a.village), opt_view(a.county)],
    )
    &&& opt_view(p.district) == first_non_empty_spec(seq![opt_view(a.suburb), opt_view(a.county)])
    &&& p.provider@ == "nominatim"@
    &&& p.resolved_at@ == resolved_at
}

/// The place a reverse-geocoding answer for a bucket describes.
pub fn place_from_address(bucket: &str, address: NominatimAddress, resolved_at: &str) -> (p: Place)
    ensures
        place_from_address_ok(p, bucket@, address, resolved_at@),
{
    let ghost a = address;
    let city_values = vec![address.city, address.town, address.village, address.county.clone()];
    assert(opt_views(city_values@) =~= seq![opt_view(a.city), opt_view(a.town), opt_view(a.village), opt_view(a.county)]);
    let district_values = vec![address.suburb, address.county];
    assert(opt_views(district_values@) =~= seq![opt_view(a.suburb), opt_view(a.county)]);
    Place {
        geo_bucket: bucket.to_owned(),
        country: clean(address.country),
        region: clean(address.state),
        city: first_non_empty(city_values),
        district: first_non_empty(district_values),
        provider: "nominatim".to_owned(),
        resolved_at: resolved_at.to_owned(),
    }
}

/// How many photos lie in a GPS bucket.
pub open spec fn bucket_count(photos: Seq<TimelinePhoto>, b: Seq<char>) -> nat
    decreases photos.len(),
{
    if photos.len() == 0 {
        0
    } else {
        bucket_count(photos.drop_last(), b) + if opt_view(photos.last().gps_bucket) == Some(b) {
            1nat
        } else {
            0nat
        }
    }
}

/// Some photo lies in the bucket.
pub open spec fn has_bucket(photos: Seq<TimelinePhoto>, b: Seq<char>) -> bool {
    exists|i: int| 0 <= i < photos.len() && opt_view(photos[i].gps_bucket) == Some(b)
}

proof fn lemma_no_bucket_zero(photos: Seq<TimelinePhoto>, b: Seq<char>)
    requires
        !has_bucket(photos, b),
    ensures
        bucket_count(photos, b) == 0,
    decreases photos.len(),
{
    if photos.len() > 0 {
        assert(!has_bucket(photos.drop_last(), b)) by {
            if has_bucket(photos.drop_last(), b) {
                let i = choose|i: int| 0 <= i < photos.drop_last().len() && opt_view(photos.drop_last()[i].gps_bucket) == Some(b);
                assert(photos[i] == photos.drop_last()[i]);
            }
        }
        lemma_no_bucket_zero(photos.drop_last(), b);
        assert(photos.last() == photos[photos.len() - 1]);
    }
}

proof fn lemma_bucket_count_bound(photos: Seq<TimelinePhoto>, b: Seq<char>)
    ensures
        bucket_count(photos, b) <= photos.len(),
    decreases photos.len(),
{
    if photos.len() > 0 {
        lemma_bucket_count_bound(photos.drop_last(), b);
    }
}

/// Buckets come before others with fewer photos, then by bucket text.
pub open spec fn bucket_rank_lt(ca: nat, a: Seq<char>, cb: nat, b: Seq<char>) -> bool {
    ca > cb || (ca == cb && seq_lt(a, b))
}

/// Distinct buckets with their counts, ordered for ranking.
pub struct BucketOrder {
    pub buckets: Vec<Vec<char>>,
    pub counts: Vec<usize>,
}

impl IndexOrder for BucketOrder {
    open spec fn size(&self) -> nat {
        if self.buckets@.len() <= self.counts@.len() {
            self.buckets@.len()
        } else {
            self.counts@.len()
        }
    }

    open spec fn before(&self, i: int, j: int) -> bool {
        bucket_rank_lt(self.counts@[i] as nat, self.buckets@[i]@, self.counts@[j] as nat, self.buckets@[j]@)
            || (self.counts@[i] == self.counts@[j] && self.buckets@[i]@ == self.buckets@[j]@ && i < j)
    }

    proof fn lemma_irreflexive(&self, i: int) {
        lemma_seq_lt_irreflexive(self.buckets@[i]@);
    }

    proof fn lemma_transitive(&self, i: int, j: int, k: int) {
        let (a, b, c) = (self.buckets@[i]@, self.buckets@[j]@, self.buckets@[k]@);
        lemma_seq_lt_irreflexive(a);
        if seq_lt(a, b) && seq_lt(b, c) {
            lemma_seq_lt_transitive(a, b, c);
        }
    }

    proof fn lemma_total(&self, i: int, j: int) {
        lemma_seq_lt_total(self.buckets@[i]@, self.buckets@[j]@);
    }

    fn less(&self, i: usize, j: usize) -> (r: bool) {
        let (ci, cj) = (self.counts[i], self.counts[j]);
        ci > cj || (ci == cj && chars_less(self.buckets[i].as_slice(), self.buckets[j].as_slice()))
            || (ci == cj && chars_eq(self.buckets[i].as_slice(), self.buckets[j].as_slice()) && i < j)
    }
}

pub open spec fn views_distinct(v: Seq<String>) -> bool {
    forall|a: int, b: int| 0 <= a < b < v.len() ==> v[a]@ != v[b]@
}

/// The buckets of the photos, each once, most photos first, ties by bucket text.
pub open spec fn dominant_buckets_ok(photos: Seq<TimelinePhoto>, r: Seq<String>) -> bool {
    &&& views_distinct(r)
    &&& forall|k: int| 0 <= k < r.len() ==> has_bucket(photos, #[trigger] r[k]@)
    &&& forall|b: Seq<char>| #[trigger] has_bucket(photos, b) ==> exists|k: int| 0 <= k < r.len() && r[k]@ == b
    &&& forall|a: int, b: int|
        0 <= a < b < r.len() ==> bucket_rank_lt(
            bucket_count(photos, #[trigger] r[a]@),
            r[a]@,
            bucket_count(photos, #[trigger] r[b]@),
            r[b]@,
        )
}

/// The photos' GPS buckets, ranked by how many photos lie in each, then by bucket.
pub fn dominant_gps_buckets(photos: &[TimelinePhoto]) -> (r: Vec<String>)
    ensures
        dominant_buckets_ok(photos@, r@),
{
    let mut buckets: Vec<Vec<char>> = Vec::new();
    let mut counts: Vec<usize> = Vec::new();
    let mut i: usize = 0;
    while i < photos.len()
        invariant
            i <= photos@.len(),
            buckets@.len() == counts@.len(),
            forall|a: int, b: int| 0 <= a < b < buckets@.len() ==> buckets@[a]@ != buckets@[b]@,
            forall|k: int| 0 <= k < buckets@.len() ==> has_bucket(photos@.subrange(0, i as int), #[trigger] buckets@[k]@),
            forall|k: int| 0 <= k < buckets@.len() ==> (#[trigger] counts@[k]) == bucket_count(photos@.subrange(0, i as int), buckets@[k]@),
            forall|b: Seq<char>| #[trigger] has_bucket(photos@.subrange(0, i as int), b) ==> exists|k: int| 0 <= k < buckets@.len() && buckets@[k]@ == b,
        decreases photos@.len() - i,
    {
        let ghost pre = photos@.subrange(0, i as int);
        let ghost next = photos@.subrange(0, i + 1);
        assert(next.drop_last() =~= pre);
        assert(next.last() == photos@[i as int]);
        proof {
            assert forall|k: int| 0 <= k < buckets@.len() implies has_bucket(next, #[trigger] buckets@[k]@) by {
                let j = choose|j: int| 0 <= j < pre.len() && opt_view(pre[j].gps_bucket) == Some(buckets@[k]@);
                assert(next[j] == pre[j]);
            }
            lemma_bucket_count_bound(pre, photos@[i as int].gps_bucket->0@);
        }
        match &photos[i].gps_bucket {
            Some(b) => {
                let bc = chars_of(b.as_str());
                let mut k: usize = 0;
                while k < buckets.len() && !chars_eq(buckets[k].as_slice(), bc.as_slice())
                    invariant
                        k <= buckets@.len(),
                        forall|j: int| 0 <= j < k ==> buckets@[j]@ != bc@,
                    decreases buckets@.len() - k,
                {
                    k = k + 1;
                }
                let found = k < buckets.len();
                proof {
                    if !found {
                        assert(!has_bucket(pre, bc@)) by {
                            if has_bucket(pre, bc@) {
                                let k0 = choose|k0: int| 0 <= k0 < buckets@.len() && buckets@[k0]@ == bc@;
                                assert(buckets@[k0]@ != bc@);
                            }
                        }
                    }
                }
                let ghost old_buckets = buckets@;
                let ghost old_counts = counts@;
                if found {
                    proof {
                        lemma_bucket_count_bound(pre, bc@);
                    }
                    let c = counts[k] + 1;
                    counts.set(k, c);
                } else {
                    proof {
                        lemma_no_bucket_zero(pre, bc@);
                    }
                    buckets.push(bc);
                    counts.push(1);
                }
                proof {
                    assert forall|k2: int| 0 <= k2 < buckets@.len() implies (#[trigger] counts@[k2]) == bucket_count(next, buckets@[k2]@) by {
                        if k2 < old_buckets.len() {
                            assert(buckets@[k2] == old_buckets[k2]);
                        }
                    }
                    assert forall|b2: Seq<char>| #[trigger] has_bucket(next, b2) implies exists|k2: int| 0 <= k2 < buckets@.len() && buckets@[k2]@ == b2 by {
                        let j = choose|j: int| 0 <= j < next.len() && opt_view(next[j].gps_bucket) == Some(b2);
                        if j < i {
                            assert(pre[j] == next[j]);
                            assert(has_bucket(pre, b2));
                            let k0 = choose|k0: int| 0 <= k0 < old_buckets.len() && old_buckets[k0]@ == b2;
                            assert(buckets@[k0] == old_buckets[k0]);
                        } else {
                            if !found {
                                assert(buckets@[buckets@.len() - 1]@ == b2);
                            } else {
                                assert(buckets@[k as int]@ == b2);
                            }
                        }
                    }
                    assert forall|k2: int| 0 <= k2 < buckets@.len() implies has_bucket(next, #[trigger] buckets@[k2]@) by {
                        if !found && k2 == buckets@.len() - 1 {
                            assert(opt_view(next[i as int].gps_bucket) == Some(bc@));
                        }
                    }
                }
            },
            None => {
                proof {
                    assert forall|b2: Seq<char>| #[trigger] has_bucket(next, b2) implies exists|k2: int| 0 <= k2 < buckets@.len() && buckets@[k2]@ == b2 by {
                        let j = choose|j: int| 0 <= j < next.len() && opt_view(next[j].gps_bucket) == Some(b2);
                        assert(j < i);
                        assert(pre[j] == next[j]);
                        assert(has_bucket(pre, b2));
                    }
                }
            },
        }
        i = i + 1;
    }
    assert(photos@.subrange(0, photos@.len() as int) =~= photos@);
    let n = buckets.len();
    let o = BucketOrder { buckets, counts };
    let order = sort_indices(&o, n);
    let mut r: Vec<String> = Vec::new();
    let mut t: usize = 0;
    while t < n
        invariant
            t <= n,
            n == o.buckets@.len(),
            o.buckets@.len() == o.counts@.len(),
            sorted_permutation(&o, order@, n as nat),
            r@.len() == t,
            forall|j: int| 0 <= j < t ==> (#[trigger] r@[j])@ == o.buckets@[order@[j] as int]@,
        decreases n - t,
    {
        r.push(string_from_chars(o.buckets[order[t]].as_slice()));
        t = t + 1;
    }
    proof {
        crate::order::lemma_sorted_distinct(&o, order@, n as nat);
        assert forall|a: int, b: int| 0 <= a < b < r@.len() implies bucket_rank_lt(
            bucket_count(photos@, #[trigger] r@[a]@),
            r@[a]@,
            bucket_count(photos@, #[trigger] r@[b]@),
            r@[b]@,
        ) by {
            assert(o.before(order@[a] as int, order@[b] as int));
            assert(order@[a] != order@[b]);
        }
        assert forall|b2: Seq<char>| #[trigger] has_bucket(photos@, b2) implies exists|k: int| 0 <= k < r@.len() && r@[k]@ == b2 by {
            let k0 = choose|k: int| 0 <= k < o.buckets@.len() && o.buckets@[k]@ == b2;
            assert(crate::order::appears_in(order@, k0));
            let t0 = choose|t0: int| 0 <= t0 < order@.len() && order@[t0] == k0;
            assert(r@[t0]@ == b2);
        }
        assert forall|k: int| 0 <= k < r@.len() implies has_bucket(photos@, #[trigger] r@[k]@) by {
            assert(has_bucket(photos@, o.buckets@[order@[k] as int]@));
        }
    }
    r
}

/// The places folder names can mention, in the order that breaks ties.
pub open spec fn place_names() -> Seq<Seq<char>> {
    seq!["北京"@, "上海"@, "苏州"@, "杭州"@, "南京"@, "东京"@, "京都"@]
}

/// The folder-name tokens of a place: its romanised and its own name.
pub open spec fn place_tokens(k: int) -> (Seq<char>, Seq<char>) {
    if k == 0 {
        ("beijing"@, "北京"@)
    } else if k == 1 {
        ("shanghai"@, "上海"@)
    } else if k == 2 {
        ("suzhou"@, "苏州"@)
    } else if k == 3 {
        ("hangzhou"@, "杭州"@)
    } else if k == 4 {
        ("nanjing"@, "南京"@)
    } else if k == 5 {
        ("tokyo"@, "东京"@)
    } else {
        ("kyoto"@, "京都"@)
    }
}

fn place_token_pair(k: usize) -> (r: (&'static str, &'static str))
    requires
        k < 7,
    ensures
        r.0@ == place_tokens(k as int).0,
        r.1@ == place_tokens(k as int).1,
{
    if k == 0 {
        ("beijing", "北京")
    } else if k == 1 {
        ("shanghai", "上海")
    } else if k == 2 {
        ("suzhou", "苏州")
    } else if k == 3 {
        ("hangzhou", "杭州")
    } else if k == 4 {
        ("nanjing", "南京")
    } else if k == 5 {
        ("tokyo", "东京")
    } else {
        ("kyoto", "京都")
    }
}

fn place_name(k: usize) -> (r: &'static str)
    requires
        k < 7,
    ensures
        r@ == place_names()[k as int],
{
    if k == 0 {
        "北京"
    } else if k == 1 {
        "上海"
    } else if k == 2 {
        "苏州"
    } else if k == 3 {
        "杭州"
    } else if k == 4 {
        "南京"
    } else if k == 5 {
        "东京"
    } else {
        "京都"
    }
}

/// A path component names place `k`: trimmed and lower-cased, it is one of the place's
/// tokens. Only whole components count.
pub open spec fn component_names(c: Seq<char>, k: int) -> bool {
    let n = to_lowercase_spec(trim_spec(c));
    n == place_tokens(k).0 || n == place_tokens(k).1
}

/// Some `/`-separated component of the path names place `k`.
pub open spec fn path_mentions(path: Seq<char>, k: int) -> bool {
    exists|j: int| 0 <= j < split_spec(path, '/').len() && component_names(#[trigger] split_spec(path, '/')[j], k)
}

/// How many photos' paths name place `k`, each photo once.
pub open spec fn mention_count(photos: Seq<TimelinePhoto>, k: int) -> nat
    decreases photos.len(),
{
    if photos.len() == 0 {
        0
    } else {
        mention_count(photos.drop_last(), k) + if path_mentions(photos.last().relative_path@, k) {
            1nat
        } else {
            0nat
        }
    }
}

proof fn lemma_mention_count_bound(photos: Seq<TimelinePhoto>, k: int)
    ensures
        mention_count(photos, k) <= photos.len(),
    decreases photos.len(),
{
    if photos.len() > 0 {
        lemma_mention_count_bound(photos.drop_last(), k);
    }
}

/// `ks` lists the places some photo mentions, each once, most mentioned first, ties in
/// the order of [`place_names`].
pub open spec fn ranked_places_ok(photos: Seq<TimelinePhoto>, ks: Seq<usize>) -> bool {
    &&& forall|t: int| 0 <= t < ks.len() ==> #[trigger] ks[t] < 7 && mention_count(photos, ks[t] as int) > 0
    &&& forall|k: int| 0 <= k < 7 && mention_count(photos, k) > 0 ==> exists|t: int| 0 <= t < ks.len() && ks[t] == k
    &&& forall|a: int, b: int|
        0 <= a < b < ks.len() ==> mention_count(photos, #[trigger] ks[a] as int) > mention_count(
            photos,
            #[trigger] ks[b] as int,
        ) || (mention_count(photos, ks[a] as int) == mention_count(photos, ks[b] as int) && ks[a] < ks[b])
}

/// The place names folder names give: the places mentioned, most mentioned first.
pub open spec fn path_fallback_ok(photos: Seq<TimelinePhoto>, r: Seq<String>) -> bool {
    exists|ks: Seq<usize>|
        {
            &&& #[trigger] ranked_places_ok(photos, ks)
            &&& r.len() == ks.len()
            &&& forall|t: int| 0 <= t < r.len() ==> (#[trigger] r[t])@ == place_names()[ks[t] as int]
        }
}

/// The places a path's components name.
fn mentions_of(path: &str) -> (m: Vec<bool>)
    ensures
        m@.len() == 7,
        forall|k: int| 0 <= k < 7 ==> (#[trigger] m@[k]) == path_mentions(path@, k),
{
    let pieces = split_char(path, '/');
    let ghost pv = pieces@.map_values(|p: Vec<char>| p@);
    assert(pv == split_spec(path@, '/'));
    let mut m: Vec<bool> = vec![false, false, false, false, false, false, false];
    let mut j: usize = 0;
    while j < pieces.len()
        invariant
            j <= pieces@.len(),
            pv == pieces@.map_values(|p: Vec<char>| p@),
            pv == split_spec(path@, '/'),
            m@.len() == 7,
            forall|k: int| 0 <= k < 7 ==> (#[trigger] m@[k]) == exists|j2: int| 0 <= j2 < j && component_names(pv[j2], k),
        decreases pieces@.len() - j,
    {
        let t = trim(pieces[j].as_slice());
        let ts = string_from_chars(t.as_slice());
        let lower = to_lowercase(ts.as_str());
        let lc = chars_of(lower.as_str());
        assert(pv[j as int] == pieces@[j as int]@);
        let mut k: usize = 0;
        let ghost before = m@;
        while k < 7
            invariant
                k <= 7,
                m@.len() == 7,
                lc@ == to_lowercase_spec(trim_spec(pv[j as int])),
                forall|k2: int| 0 <= k2 < k ==> (#[trigger] m@[k2]) == (before[k2] || component_names(pv[j as int], k2)),
                forall|k2: int| k <= k2 < 7 ==> (#[trigger] m@[k2]) == before[k2],
            decreases 7 - k,
        {
            let (a, b) = place_token_pair(k);
            if eq_str(lc.as_slice(), a) || eq_str(lc.as_slice(), b) {
                m.set(k, true);
            }
            k = k + 1;
        }
        proof {
            assert forall|k2: int| 0 <= k2 < 7 implies (#[trigger] m@[k2]) == exists|j2: int| 0 <= j2 < j + 1 && component_names(pv[j2], k2) by {
                if m@[k2] && !before[k2] {
                    assert(component_names(pv[j as int], k2));
                }
                if exists|j2: int| 0 <= j2 < j + 1 && component_names(pv[j2], k2) {
                    let j2 = choose|j2: int| 0 <= j2 < j + 1 && component_names(pv[j2], k2);
                    if j2 < j {
                        assert(before[k2]);
                    }
                }
            }
        }
        j = j + 1;
    }
    proof {
        assert forall|k: int| 0 <= k < 7 implies (#[trigger] m@[k]) == path_mentions(path@, k) by {
            if m@[k] {
                let j2 = choose|j2: int| 0 <= j2 < pieces@.len() && component_names(pv[j2], k);
                assert(component_names(split_spec(path@, '/')[j2], k));
            }
            if path_mentions(path@, k) {
                let j2 = choose|j2: int| 0 <= j2 < split_spec(path@, '/').len() && component_names(split_spec(path@, '/')[j2], k);
                assert(component_names(pv[j2], k));
            }
        }
    }
    m
}

/// Places ranked by how many photos mention them, ties by their fixed order.
pub struct MentionOrder {
    pub counts: Vec<usize>,
}

impl IndexOrder for MentionOrder {
    open spec fn size(&self) -> nat {
        self.counts@.len()
    }

    open spec fn before(&self, i: int, j: int) -> bool {
        self.counts@[i] > self.counts@[j] || (self.counts@[i] == self.counts@[j] && i < j)
    }

    proof fn lemma_irreflexive(&self, i: int) {
    }

    proof fn lemma_transitive(&self, i: int, j: int, k: int) {
    }

    proof fn lemma_total(&self, i: int, j: int) {
    }

    fn less(&self, i: usize, j: usize) -> (r: bool) {
        self.counts[i] > self.counts[j] || (self.counts[i] == self.counts[j] && i < j)
    }
}

proof fn lemma_path_fallback_ok(photos: Seq<TimelinePhoto>, r: Seq<String>, ks: Seq<usize>)
    requires
        ranked_places_ok(photos, ks),
        r.len() == ks.len(),
        forall|t: int| 0 <= t < r.len() ==> (#[trigger] r[t])@ == place_names()[ks[t] as int],
    ensures
        path_fallback_ok(photos, r),
{
}

/// Place names from folder names: each known place that some photo's path names by a
/// whole component, most photos first, ties in a fixed order.
pub fn path_place_fallback(photos: &[TimelinePhoto]) -> (r: Vec<String>)
    ensures
        path_fallback_ok(photos@, r@),
{
    let mut counts: Vec<usize> = vec![0, 0, 0, 0, 0, 0, 0];
    let mut i: usize = 0;
    while i < photos.len()
        invariant
            i <= photos@.len(),
            counts@.len() == 7,
            forall|k: int| 0 <= k < 7 ==> (#[trigger] counts@[k]) == mention_count(photos@.subrange(0, i as int), k),
        decreases photos@.len() - i,
    {
        let m = mentions_of(photos[i].relative_path.as_str());
        let ghost pre = photos@.subrange(0, i as int);
        let ghost next = photos@.subrange(0, i + 1);
        assert(next.drop_last() =~= pre);
        assert(next.last() == photos@[i as int]);
        let ghost before = counts@;
        let mut k: usize = 0;
        while k < 7
            invariant
                k <= 7,
                counts@.len() == 7,
                m@.len() == 7,
                i < photos@.len(),
                forall|k2: int| 0 <= k2 < 7 ==> (#[trigger] m@[k2]) == path_mentions(photos@[i as int].relative_path@, k2),
                forall|k2: int| 0 <= k2 < k ==> (#[trigger] counts@[k2]) == mention_count(next, k2),
                forall|k2: int| k <= k2 < 7 ==> (#[trigger] counts@[k2]) == before[k2],
                forall|k2: int| 0 <= k2 < 7 ==> (#[trigger] before[k2]) == mention_count(pre, k2),
                before.len() == 7,
                i < usize::MAX,
                pre.len() == i,
                next.drop_last() == pre,
                next.last() == photos@[i as int],
                next.len() == i + 1,
            decreases 7 - k,
        {
            if m[k] {
                proof {
                    lemma_mention_count_bound(pre, k as int);
                    assert(counts@[k as int] == before[k as int]);
                    assert(counts@[k as int] <= i);
                }
                let c = counts[k] + 1;
                counts.set(k, c);
            }
            k = k + 1;
        }
        i = i + 1;
    }
    assert(photos@.subrange(0, photos@.len() as int) =~= photos@);
    let o = MentionOrder { counts };
    let order = sort_indices(&o, 7);
    let mut r: Vec<String> = Vec::new();
    let ghost mut ks: Seq<usize> = Seq::empty();
    let mut t: usize = 0;
    while t < 7 && o.counts[order[t]] > 0
        invariant
            t <= 7,
            o.counts@.len() == 7,
            sorted_permutation(&o, order@, 7),
            forall|k: int| 0 <= k < 7 ==> (#[trigger] o.counts@[k]) == mention_count(photos@, k),
            r@.len() == t,
            ks == order@.subrange(0, t as int),
            forall|j: int| 0 <= j < t ==> (#[trigger] r@[j])@ == place_names()[order@[j] as int],
            forall|j: int| 0 <= j < t ==> o.counts@[order@[j] as int] > 0,
        decreases 7 - t,
    {
        let name = place_name(order[t]);
        r.push(name.to_owned());
        proof {
            ks = order@.subrange(0, t + 1);
        }
        t = t + 1;
    }
    proof {
        crate::order::lemma_sorted_distinct(&o, order@, 7);
        assert forall|k: int| 0 <= k < 7 && mention_count(photos@, k) > 0 implies exists|t2: int| 0 <= t2 < ks.len() && ks[t2] == k by {
            assert(crate::order::appears_in(order@, k));
            let t2 = choose|t2: int| 0 <= t2 < order@.len() && order@[t2] == k;
            if t2 >= t {
                assert(t < 7);
                assert(o.counts@[order@[t as int] as int] == 0);
                if t2 > t {
                    assert(o.before(order@[t as int] as int, order@[t2] as int));
                }
            }
            assert(ks[t2] == k);
        }
        assert forall|a: int, b: int| 0 <= a < b < ks.len() implies mention_count(photos@, #[trigger] ks[a] as int) > mention_count(photos@, #[trigger] ks[b] as int) || (mention_count(photos@, ks[a] as int) == mention_count(photos@, ks[b] as int) && ks[a] < ks[b]) by {
            assert(o.before(order@[a] as int, order@[b] as int));
        }
        lemma_path_fallback_ok(photos@, r@, ks);
    }
    r
}

/// The names found for an album's buckets, each once in order; when none was found, the
/// names its photos' folders give.
pub open spec fn merged_names_ok(found: Seq<Option<String>>, photos: Seq<TimelinePhoto>, r: Seq<String>) -> bool {
    let names = Set::new(|n: Seq<char>| exists|i: int| 0 <= i < found.len() && opt_view(found[i]) == Some(n));
    if names.len() == 0 && forall|i: int| 0 <= i < found.len() ==> found[i] is None {
        path_fallback_ok(photos, r)
    } else {
        &&& views_distinct(r)
        &&& forall|k: int| 0 <= k < r.len() ==> names.contains(#[trigger] r[k]@)
        &&& forall|n: Seq<char>| #[trigger] names.contains(n) ==> exists|k: int| 0 <= k < r.len() && r[k]@ == n
    }
}

/// Combines the names found for an album's buckets (in bucket rank order), falling back
/// to folder names.
pub fn merge_place_names(found: Vec<Option<String>>, photos: &[TimelinePhoto]) -> (r: Vec<String>)
    ensures
        merged_names_ok(found@, photos@, r@),
{
    let ghost names = Set::new(|n: Seq<char>| exists|i: int| 0 <= i < found@.len() && opt_view(found@[i]) == Some(n));
    let mut r: Vec<String> = Vec::new();
    let mut seen: Vec<Vec<char>> = Vec::new();
    let mut i: usize = 0;
    while i < found.len()
        invariant
            i <= found@.len(),
            r@.len() == seen@.len(),
            forall|k: int| 0 <= k < r@.len() ==> (#[trigger] r@[k])@ == seen@[k]@,
            views_distinct(r@),
            forall|k: int| 0 <= k < r@.len() ==> exists|j: int| 0 <= j < i && opt_view(found@[j]) == Some(#[trigger] r@[k]@),
            forall|j: int| 0 <= j < i && (#[trigger] found@[j]) is Some ==> exists|k: int| 0 <= k < r@.len() && r@[k]@ == found@[j]->0@,
        decreases found@.len() - i,
    {
        if let Some(name) = &found[i] {
            let c = chars_of(name.as_str());
            let mut k: usize = 0;
            while k < seen.len() && !chars_eq(seen[k].as_slice(), c.as_slice())
                invariant
                    k <= seen@.len(),
                    forall|j: int| 0 <= j < k ==> seen@[j]@ != c@,
                decreases seen@.len() - k,
            {
                k = k + 1;
            }
            if k == seen.len() {
                let ghost old_r = r@;
                r.push(name.clone());
                seen.push(c);
                proof {
                    assert forall|a: int, b: int| 0 <= a < b < r@.len() implies r@[a]@ != r@[b]@ by {
                        if b == old_r.len() {
                            assert(seen@[a]@ == r@[a]@);
                        }
                    }
                    assert forall|k2: int| 0 <= k2 < r@.len() implies exists|j: int| 0 <= j < i + 1 && opt_view(found@[j]) == Some(#[trigger] r@[k2]@) by {
                        if k2 == old_r.len() {
                            assert(opt_view(found@[i as int]) == Some(r@[k2]@));
                        } else {
                            assert(r@[k2] == old_r[k2]);
                        }
                    }
                    assert forall|j: int| 0 <= j < i + 1 && (#[trigger] found@[j]) is Some implies exists|k2: int| 0 <= k2 < r@.len() && r@[k2]@ == found@[j]->0@ by {
                        if j == i {
                            assert(r@[old_r.len() as int]@ == found@[j]->0@);
                        } else {
                            let k0 = choose|k0: int| 0 <= k0 < old_r.len() && old_r[k0]@ == found@[j]->0@;
                            assert(r@[k0] == old_r[k0]);
                        }
                    }
                }
            } else {
                proof {
                    assert forall|j: int| 0 <= j < i + 1 && (#[trigger] found@[j]) is Some implies exists|k2: int| 0 <= k2 < r@.len() && r@[k2]@ == found@[j]->0@ by {
                        if j == i {
                            assert(r@[k as int]@ == found@[j]->0@);
                        }
                    }
                }
            }
        }
        i = i + 1;
    }
    if r.len() == 0 {
        proof {
            assert forall|j: int| 0 <= j < found@.len() implies found@[j] is None by {
                if found@[j] is Some {
                    assert(exists|k: int| 0 <= k < r@.len() && r@[k]@ == found@[j]->0@);
                }
            }
            assert(names =~= Set::empty()) by {
                assert forall|n: Seq<char>| !names.contains(n) by {
                    if names.contains(n) {
                        let j = choose|j: int| 0 <= j < found@.len() && opt_view(found@[j]) == Some(n);
                        assert(found@[j] is None);
                    }
                }
            }
        }
        return path_place_fallback(photos);
    }
    proof {
        assert(r@.len() > 0);
        assert(names.contains(r@[0]@));
        assert(exists|j: int| 0 <= j < found@.len() && found@[j] is Some) by {
            let j = choose|j: int| 0 <= j < found@.len() && opt_view(found@[j]) == Some(r@[0]@);
        }
    }
    r
}

/// The reverse-geocoding endpoint under a base URL, parsed: `Nominatim base URL is
/// required` when blank, ``invalid Nominatim base URL `BASE` `` when it does not parse,
/// and with `: expected http or https` when its scheme is another.
pub open spec fn reverse_url_spec(base_url: Seq<char>) -> Result<Seq<char>, Seq<char>> {
    if crate::endpoint::trimmed_base(base_url).len() == 0 {
        Err("Nominatim base URL is required"@)
    } else {
        match crate::endpoint::url_parse_spec(crate::endpoint::endpoint_text(base_url, "reverse"@)) {
            None => Err("invalid Nominatim base URL `"@ + base_url + "`"@),
            Some(p) => if p.0 == "http"@ || p.0 == "https"@ {
                Ok(p.1)
            } else {
                Err("invalid Nominatim base URL `"@ + base_url + "`: expected http or https"@)
            },
        }
    }
}

/// The URL reverse-geocoding requests are sent to.
pub fn reverse_url(base_url: &str) -> (r: Result<String, String>)
    ensures
        match r {
            Ok(u) => reverse_url_spec(base_url@) == Ok::<Seq<char>, Seq<char>>(u@),
            Err(e) => reverse_url_spec(base_url@) == Err::<Seq<char>, Seq<char>>(e@),
        },
{
    let endpoint = match crate::endpoint::endpoint_under(base_url, "reverse") {
        Some(e) => e,
        None => return Err("Nominatim base URL is required".to_owned()),
    };
    match crate::endpoint::parse_url(endpoint.as_str()) {
        None => {
            let mut e = "invalid Nominatim base URL `".to_owned();
            crate::text::push_str(&mut e, base_url);
            crate::text::push_str(&mut e, "`");
            Err(e)
        },
        Some((scheme, serialized)) => {
            let sc = chars_of(scheme.as_str());
            if eq_str(sc.as_slice(), "http") || eq_str(sc.as_slice(), "https") {
                Ok(serialized)
            } else {
                let mut e = "invalid Nominatim base URL `".to_owned();
                crate::text::push_str(&mut e, base_url);
                crate::text::push_str(&mut e, "`: expected http or https");
                Err(e)
            }
        },
    }
}

} // verus!
