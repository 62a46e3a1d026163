//! Filtering and searching the photo index.
//!
//! A criteria value selects photos by date range, minimum dimensions, a
//! filename fragment, and tag or album membership. A field left unset, an
//! empty fragment, and an empty id list each impose no condition; a date or
//! dimension bound excludes photos that have no value recorded for it.

use vstd::prelude::*;
use vstd::string::StrSliceExecFns;
use crate::models::{Photo, PhotoV};
use crate::store::{Store, StoreState};

verus! {

/// `needle` occurs contiguously somewhere in `hay`.
pub open spec fn contains_seq(hay: Seq<char>, needle: Seq<char>) -> bool {
    exists|k: int|
        0 <= k && k + needle.len() <= hay.len() && (#[trigger] hay.subrange(k, k + needle.len()))
            == needle
}

/// Whether `needle` occurs contiguously in `hay`.
pub fn contains_substr(hay: &str, needle: &str) -> (r: bool)
    ensures
        r == contains_seq(hay@, needle@),
{
    let hn = hay.unicode_len();
    let nn = needle.unicode_len();
    if nn > hn {
        return false;
    }
    if nn == 0 {
        proof {
            assert(hay@.subrange(0, 0 + needle@.len() as int) =~= needle@);
            assert(contains_seq(hay@, needle@));
        }
        return true;
    }
    let mut k: usize = 0;
    while k <= hn - nn
        invariant
            1 <= nn <= hn,
            hn == hay@.len(),
            nn == needle@.len(),
            k <= hn - nn + 1,
            forall|k1: int|
                0 <= k1 < k ==> (#[trigger] hay@.subrange(k1, k1 + needle@.len())) != needle@,
        decreases hn - nn + 1 - k,
    {
        if match_at(hay, needle, k) {
            return true;
        }
        k = k + 1;
    }
    false
}

/// Whether `needle` matches `hay` starting at position `k`.
fn match_at(hay: &str, needle: &str, k: usize) -> (r: bool)
    requires
        k + needle@.len() <= hay@.len(),
    ensures
        r == (hay@.subrange(k as int, k + needle@.len()) == needle@),
{
    let hn = hay.unicode_len();
    let nn = needle.unicode_len();
    let mut j: usize = 0;
    while j < nn
        invariant
            j <= nn,
            nn == needle@.len(),
            hn == hay@.len(),
            k + nn <= hn,
            forall|j1: int| 0 <= j1 < j ==> hay@[k + j1] == needle@[j1],
        decreases nn - j,
    {
        if hay.get_char(k + j) != needle.get_char(j) {
            proof {
                let sub = hay@.subrange(k as int, k + needle@.len());
                assert(sub[j as int] == hay@[k + j]);
            }
            return false;
        }
        j = j + 1;
    }
    proof {
        assert(hay@.subrange(k as int, k + needle@.len()) =~= needle@);
    }
    true
}

/// What to select photos by; every field is optional.
pub struct FilterCriteria {
    pub query: Option<String>,
    pub date_from: Option<i64>,
    pub date_to: Option<i64>,
    pub min_width: Option<i64>,
    pub min_height: Option<i64>,
    pub tags: Option<Vec<i64>>,
    pub albums: Option<Vec<i64>>,
}

/// Ghost image of a [`FilterCriteria`].
#[verifier::ext_equal]
pub ghost struct FilterCriteriaV {
    pub query: Option<Seq<char>>,
    pub date_from: Option<int>,
    pub date_to: Option<int>,
    pub min_width: Option<int>,
    pub min_height: Option<int>,
    pub tags: Option<Seq<int>>,
    pub albums: Option<Seq<int>>,
}

impl View for FilterCriteria {
    type V = FilterCriteriaV;

    open spec fn view(&self) -> FilterCriteriaV {
        FilterCriteriaV {
            query: match &self.query {
                Some(q) => Some(q@),
                None => None,
            },
            date_from: match self.date_from {
                Some(n) => Some(n as int),
                None => None,
            },
            date_to: match self.date_to {
                Some(n) => Some(n as int),
                None => None,
            },
            min_width: match self.min_width {
                Some(n) => Some(n as int),
                None => None,
            },
            min_height: match self.min_height {
                Some(n) => Some(n as int),
                None => None,
            },
            tags: match &self.tags {
                Some(v) => Some(v@.map_values(|x: i64| x as int)),
                None => None,
            },
            albums: match &self.albums {
                Some(v) => Some(v@.map_values(|x: i64| x as int)),
                None => None,
            },
        }
    }
}

impl FilterCriteria {
    /// Criteria that select everything.
    pub fn none() -> (c: FilterCriteria)
        ensures
            c@.query is None,
            c@.date_from is None,
            c@.date_to is None,
            c@.min_width is None,
            c@.min_height is None,
            c@.tags is None,
            c@.albums is None,
    {
        FilterCriteria {
            query: None,
            date_from: None,
            date_to: None,
            min_width: None,
            min_height: None,
            tags: None,
            albums: None,
        }
    }
}

/// Whether one photo meets the criteria, against the store's associations.
pub open spec fn matches_criteria(d: StoreState, c: FilterCriteriaV) -> spec_fn(PhotoV) -> bool {
    |p: PhotoV|
        {
            &&& match c.date_from {
                Some(t) => p.date_taken is Some && p.date_taken->0 >= t,
                None => true,
            }
            &&& match c.date_to {
                Some(t) => p.date_taken is Some && p.date_taken->0 <= t,
                None => true,
            }
            &&& match c.min_width {
                Some(w) => p.width is Some && p.width->0 >= w,
                None => true,
            }
            &&& match c.min_height {
                Some(h) => p.height is Some && p.height->0 >= h,
                None => true,
            }
            &&& match c.query {
                Some(q) => q.len() == 0 || contains_seq(p.filename, q),
                None => true,
            }
            &&& match c.tags {
                Some(ts) => ts.len() == 0 || exists|k: int|
                    0 <= k < ts.len() && d.tag_links.contains((p.id, #[trigger] ts[k])),
                None => true,
            }
            &&& match c.albums {
                Some(aa) => aa.len() == 0 || exists|k: int|
                    0 <= k < aa.len() && d.memberships.contains((p.id, #[trigger] aa[k])),
                None => true,
            }
        }
}

/// Whether the photo with this id carries any of the listed tags.
fn has_any_tag(store: &Store, photo_id: i64, ts: &Vec<i64>) -> (r: bool)
    ensures
        r == exists|k: int|
            0 <= k < ts@.len() && store.state().tag_links.contains(
                (photo_id as int, (#[trigger] ts@[k]) as int),
            ),
{
    let mut k: usize = 0;
    while k < ts.len()
        invariant
            k <= ts@.len(),
            forall|k1: int|
                0 <= k1 < k ==> !store.state().tag_links.contains(
                    (photo_id as int, (#[trigger] ts@[k1]) as int),
                ),
        decreases ts@.len() - k,
    {
        if store.has_tag_link(photo_id, ts[k]) {
            return true;
        }
        k = k + 1;
    }
    false
}

/// Whether the photo with this id sits in any of the listed albums.
fn in_any_album(store: &Store, photo_id: i64, aa: &Vec<i64>) -> (r: bool)
    ensures
        r == exists|k: int|
            0 <= k < aa@.len() && store.state().memberships.contains(
                (photo_id as int, (#[trigger] aa@[k]) as int),
            ),
{
    let mut k: usize = 0;
    while k < aa.len()
        invariant
            k <= aa@.len(),
            forall|k1: int|
                0 <= k1 < k ==> !store.state().memberships.contains(
                    (photo_id as int, (#[trigger] aa@[k1]) as int),
                ),
        decreases aa@.len() - k,
    {
        if store.has_membership(photo_id, aa[k]) {
            return true;
        }
        k = k + 1;
    }
    false
}

/// Whether this photo meets the criteria.
fn photo_matches(store: &Store, p: &Photo, criteria: &FilterCriteria) -> (r: bool)
    ensures
        r == matches_criteria(store.state(), criteria@)(p@),
{
    let date_ok = match criteria.date_from {
        Some(t) => match p.date_taken {
            Some(d) => d >= t,
            None => false,
        },
        None => true,
    } && match criteria.date_to {
        Some(t) => match p.date_taken {
            Some(d) => d <= t,
            None => false,
        },
        None => true,
    };
    if !date_ok {
        return false;
    }
    let dims_ok = match criteria.min_width {
        Some(w) => match p.width {
            Some(pw) => pw >= w,
            None => false,
        },
        None => true,
    } && match criteria.min_height {
        Some(h) => match p.height {
            Some(ph) => ph >= h,
            None => false,
        },
        None => true,
    };
    if !dims_ok {
        return false;
    }
    let query_ok = match &criteria.query {
        Some(q) => q.as_str().is_empty() || contains_substr(p.filename.as_str(), q.as_str()),
        None => true,
    };
    if !query_ok {
        return false;
    }
    let tags_ok = match &criteria.tags {
        Some(ts) => {
            let any = ts.len() == 0 || has_any_tag(store, p.id, ts);
            proof {
                lemma_id_list_bridge(store.state().tag_links, p@.id, ts@, ts@.map_values(|x: i64| x as int));
            }
            any
        },
        None => true,
    };
    if !tags_ok {
        return false;
    }
    match &criteria.albums {
        Some(aa) => {
            let any = aa.len() == 0 || in_any_album(store, p.id, aa);
            proof {
                lemma_id_list_bridge(store.state().memberships, p@.id, aa@, aa@.map_values(|x: i64| x as int));
            }
            any
        },
        None => true,
    }
}

/// The two readings of "the photo carries one of the listed ids" — over the
/// raw 64-bit list and over its ghost image — agree.
proof fn lemma_id_list_bridge(links: Seq<(int, int)>, pid: int, ids: Seq<i64>, mapped: Seq<int>)
    requires
        mapped.len() == ids.len(),
        forall|k: int| 0 <= k < ids.len() ==> #[trigger] mapped[k] == ids[k] as int,
    ensures
        (exists|k: int| 0 <= k < ids.len() && links.contains((pid, (#[trigger] ids[k]) as int)))
            == (exists|k: int| 0 <= k < mapped.len() && links.contains((pid, #[trigger] mapped[k]))),
{
    if exists|k: int| 0 <= k < ids.len() && links.contains((pid, (#[trigger] ids[k]) as int)) {
        let k = choose|k: int|
            0 <= k < ids.len() && links.contains((pid, (#[trigger] ids[k]) as int));
        assert(mapped[k] == ids[k] as int);
        assert(links.contains((pid, mapped[k])));
    }
    if exists|k: int| 0 <= k < mapped.len() && links.contains((pid, #[trigger] mapped[k])) {
        let k = choose|k: int| 0 <= k < mapped.len() && links.contains((pid, #[trigger] mapped[k]));
        assert(mapped[k] == ids[k] as int);
        assert(links.contains((pid, ids[k] as int)));
    }
}

/// Every photo meeting the criteria, in index order.
pub fn filter_photos(store: &Store, criteria: &FilterCriteria) -> (r: Vec<Photo>)
    ensures
        r@.map_values(|p: Photo| p@) == store.state().photos.filter(
            matches_criteria(store.state(), criteria@),
        ),
{
    let ghost ps = store.state().photos;
    let ghost keep = matches_criteria(store.state(), criteria@);
    let mut r: Vec<Photo> = Vec::new();
    let mut i: usize = 0;
    while i < store.photos.len()
        invariant
            i <= store.photos@.len(),
            ps == store.state().photos,
            keep == matches_criteria(store.state(), criteria@),
            ps.len() == store.photos@.len(),
            r@.map_values(|p: Photo| p@) =~= ps.take(i as int).filter(keep),
        decreases store.photos@.len() - i,
    {
        proof {
            reveal(Seq::filter);
            assert(ps.take(i + 1).drop_last() =~= ps.take(i as int));
            assert(ps.take(i + 1).last() == ps[i as int]);
        }
        let p = store.photos[i].duplicate();
        if photo_matches(store, &p, criteria) {
            r.push(p);
            proof {
                assert(r@.map_values(|p: Photo| p@) =~= ps.take(i + 1).filter(keep));
            }
        }
        i = i + 1;
    }
    proof {
        assert(ps.take(ps.len() as int) =~= ps);
    }
    r
}

/// The criteria a plain text search stands for: only a filename fragment.
pub open spec fn query_only(q: Seq<char>) -> FilterCriteriaV {
    FilterCriteriaV {
        query: Some(q),
        date_from: None,
        date_to: None,
        min_width: None,
        min_height: None,
        tags: None,
        albums: None,
    }
}

/// Every photo whose filename contains the fragment, in index order; an
/// empty fragment selects everything.
pub fn search_photos(store: &Store, query: String) -> (r: Vec<Photo>)
    ensures
        r@.map_values(|p: Photo| p@) == store.state().photos.filter(
            matches_criteria(store.state(), query_only(query@)),
        ),
{
    let ghost qv = query@;
    let mut criteria = FilterCriteria::none();
    criteria.query = Some(query);
    let r = filter_photos(store, &criteria);
    proof {
        assert(criteria@ =~= query_only(qv));
    }
    r
}

} // verus!
