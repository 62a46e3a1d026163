//! Tag bookkeeping on one store: attach by name, detach, and read back.
//!
//! Attaching goes through the store's own `AttachTag` apply — the find-or-
//! create is a single atomic upsert there. Detaching removes the
//! association and garbage-collects a tag that no photo carries anymore.

use vstd::prelude::*;
use crate::errors::StoreError;
use crate::models::{Tag, TagV};
use crate::mutation::{Mutation, MutationV};
use crate::seq_search::{first_where, lemma_first_where_is, lemma_first_where_none};
use crate::store::{spec_attach_tag, store_apply, Store, StoreState};

verus! {

/// Keep an association row unless it is exactly the one being removed.
pub open spec fn link_not(photo_id: int, tag_id: int) -> spec_fn((int, int)) -> bool {
    |l: (int, int)| l != (photo_id, tag_id)
}

/// An association row that carries this tag.
pub open spec fn link_with_tag(tag_id: int) -> spec_fn((int, int)) -> bool {
    |l: (int, int)| l.1 == tag_id
}

pub open spec fn tag_has_id(id: int) -> spec_fn(TagV) -> bool {
    |t: TagV| t.id == id
}

pub open spec fn tag_idx_by_id(tags: Seq<TagV>, id: int) -> int {
    first_where(tags, tag_has_id(id))
}

/// The tags one photo carries: those whose id is associated with it.
pub open spec fn tag_on_photo(links: Seq<(int, int)>, photo_id: int) -> spec_fn(TagV) -> bool {
    |t: TagV| links.contains((photo_id, t.id))
}

/// What removing one tag from one photo does: the association goes; a tag
/// that no photo carries anymore goes with it.
pub open spec fn spec_remove_tag(d: StoreState, photo_id: int, tag_id: int) -> StoreState {
    let links2 = d.tag_links.filter(link_not(photo_id, tag_id));
    let ti = tag_idx_by_id(d.tags, tag_id);
    let tags2 = if links2.filter(link_with_tag(tag_id)).len() == 0 && ti >= 0 {
        d.tags.remove(ti)
    } else {
        d.tags
    };
    StoreState { tag_links: links2, tags: tags2, ..d }
}

/// Tag operations against one store.
pub struct TagService;

impl TagService {
    /// Find or create the named tag and associate it with the photo; the
    /// photo must exist. This is the store's `AttachTag` apply.
    pub fn add_tag(store: &mut Store, photo_id: i64, tag_name: String) -> (r: Result<
        (),
        StoreError,
    >)
        ensures
            final(store).log == old(store).log,
            match spec_attach_tag(old(store).state(), photo_id as int, tag_name@) {
                Ok(d2) => r is Ok && final(store).state() == d2,
                Err(e) => r == Err::<(), StoreError>(e) && final(store).state() == old(
                    store,
                ).state(),
            },
    {
        let m = Mutation::AttachTag { photo_id, tag_name };
        store.apply(&m)
    }

    /// Remove the association between this photo and tag; if the tag is
    /// left on no photo at all, delete the tag itself.
    pub fn remove_tag(store: &mut Store, photo_id: i64, tag_id: i64) -> (r: Result<
        (),
        StoreError,
    >)
        ensures
            r is Ok,
            final(store).log == old(store).log,
            final(store).state() == spec_remove_tag(
                old(store).state(),
                photo_id as int,
                tag_id as int,
            ),
    {
        let ghost d = store.state();
        let ghost keep = link_not(photo_id as int, tag_id as int);
        let mut kept: Vec<(i64, i64)> = Vec::new();
        let mut count_with: usize = 0;
        let mut i: usize = 0;
        while i < store.tag_links.len()
            invariant
                i <= store.tag_links@.len(),
                d == store.state(),
                d.tag_links.len() == store.tag_links@.len(),
                keep == link_not(photo_id as int, tag_id as int),
                kept@.map_values(|l: (i64, i64)| (l.0 as int, l.1 as int)) =~= d.tag_links.take(
                    i as int,
                ).filter(keep),
                count_with == d.tag_links.take(i as int).filter(keep).filter(
                    link_with_tag(tag_id as int),
                ).len(),
            decreases store.tag_links@.len() - i,
        {
            proof {
                reveal(Seq::filter);
                assert(d.tag_links.take(i + 1).drop_last() =~= d.tag_links.take(i as int));
                assert(d.tag_links.take(i + 1).last() == d.tag_links[i as int]);
            }
            let l = store.tag_links[i];
            if !(l.0 == photo_id && l.1 == tag_id) {
                kept.push(l);
                proof {
                    let mapped = kept@.map_values(|x: (i64, i64)| (x.0 as int, x.1 as int));
                    let fnew = d.tag_links.take(i + 1).filter(keep);
                    assert(fnew =~= fnew.drop_last().push((l.0 as int, l.1 as int)));
                    assert(mapped =~= fnew);
                }
                if l.1 == tag_id {
                    count_with = count_with + 1;
                }
                proof {
                    reveal(Seq::filter);
                    let fprev = d.tag_links.take(i as int).filter(keep);
                    let fnew = d.tag_links.take(i + 1).filter(keep);
                    assert(fnew.drop_last() =~= fprev);
                    assert(fnew.last() == (l.0 as int, l.1 as int));
                }
            }
            i = i + 1;
        }
        proof {
            assert(d.tag_links.take(d.tag_links.len() as int) =~= d.tag_links);
        }
        store.tag_links = kept;
        if count_with == 0 {
            match Self::find_tag_by_id(store, tag_id) {
                Some(ti) => {
                    store.tags.remove(ti);
                },
                None => {},
            }
        }
        proof {
            let d2 = spec_remove_tag(d, photo_id as int, tag_id as int);
            assert(store.state().tag_links =~= d2.tag_links);
            assert(store.state().tags =~= d2.tags);
            assert(store.state() =~= d2);
        }
        Ok(())
    }

    /// First tag with this id, if any.
    fn find_tag_by_id(store: &Store, id: i64) -> (r: Option<usize>)
        ensures
            match r {
                Some(i) => i < store.state().tags.len() && tag_idx_by_id(
                    store.state().tags,
                    id as int,
                ) == i,
                None => tag_idx_by_id(store.state().tags, id as int) == -1,
            },
    {
        let ghost ts = store.state().tags;
        let mut i: usize = 0;
        while i < store.tags.len()
            invariant
                i <= store.tags@.len(),
                ts == store.state().tags,
                ts.len() == store.tags@.len(),
                forall|j: int| 0 <= j < i ==> !(tag_has_id(id as int)(ts[j])),
            decreases store.tags@.len() - i,
        {
            if store.tags[i].id == id {
                proof {
                    lemma_first_where_is(ts, tag_has_id(id as int), i as int);
                }
                return Some(i);
            }
            i = i + 1;
        }
        proof {
            lemma_first_where_none(ts, tag_has_id(id as int));
        }
        None
    }

    /// Every tag this photo carries, in tag order.
    pub fn get_photo_tags(store: &Store, photo_id: i64) -> (r: Vec<Tag>)
        ensures
            r@.map_values(|t: Tag| t@) == store.state().tags.filter(
                tag_on_photo(store.state().tag_links, photo_id as int),
            ),
    {
        let ghost ts = store.state().tags;
        let ghost keep = tag_on_photo(store.state().tag_links, photo_id as int);
        let mut r: Vec<Tag> = Vec::new();
        let mut i: usize = 0;
        while i < store.tags.len()
            invariant
                i <= store.tags@.len(),
                ts == store.state().tags,
                keep == tag_on_photo(store.state().tag_links, photo_id as int),
                ts.len() == store.tags@.len(),
                r@.map_values(|t: Tag| t@) =~= ts.take(i as int).filter(keep),
            decreases store.tags@.len() - i,
        {
            proof {
                reveal(Seq::filter);
                assert(ts.take(i + 1).drop_last() =~= ts.take(i as int));
                assert(ts.take(i + 1).last() == ts[i as int]);
            }
            let tid = store.tags[i].id;
            if Self::photo_has_link(store, photo_id, tid) {
                let t = store.tags[i].duplicate();
                r.push(t);
                proof {
                    assert(r@.map_values(|t: Tag| t@) =~= ts.take(i + 1).filter(keep));
                }
            }
            i = i + 1;
        }
        proof {
            assert(ts.take(ts.len() as int) =~= ts);
        }
        r
    }

    /// Whether the association `(photo_id, tag_id)` is present.
    fn photo_has_link(store: &Store, photo_id: i64, tag_id: i64) -> (r: bool)
        ensures
            r == store.state().tag_links.contains((photo_id as int, tag_id as int)),
    {
        let ghost ls = store.state().tag_links;
        let mut i: usize = 0;
        while i < store.tag_links.len()
            invariant
                i <= store.tag_links@.len(),
                ls == store.state().tag_links,
                ls.len() == store.tag_links@.len(),
                forall|j: int| 0 <= j < i ==> ls[j] != (photo_id as int, tag_id as int),
            decreases store.tag_links@.len() - i,
        {
            if store.tag_links[i].0 == photo_id && store.tag_links[i].1 == tag_id {
                proof {
                    assert(ls[i as int] == (photo_id as int, tag_id as int));
                }
                return true;
            }
            i = i + 1;
        }
        false
    }

    /// Every tag the store knows, in creation order.
    pub fn get_all_tags(store: &Store) -> (r: Vec<Tag>)
        ensures
            r@.map_values(|t: Tag| t@) == store.state().tags,
    {
        let ghost ts = store.state().tags;
        let mut r: Vec<Tag> = Vec::new();
        let mut i: usize = 0;
        while i < store.tags.len()
            invariant
                i <= store.tags@.len(),
                ts == store.state().tags,
                ts.len() == store.tags@.len(),
                r@.len() == i,
                r@.map_values(|t: Tag| t@) =~= ts.take(i as int),
            decreases store.tags@.len() - i,
        {
            let t = store.tags[i].duplicate();
            r.push(t);
            proof {
                assert(r@.map_values(|t: Tag| t@) =~= ts.take(i + 1));
            }
            i = i + 1;
        }
        proof {
            assert(ts.take(ts.len() as int) =~= ts);
        }
        r
    }
}

} // verus!
