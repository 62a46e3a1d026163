//! Duplicate detection: content hashes and grouping by equal hash.
//!
//! Reading file bytes is host I/O; hashing the bytes and grouping the
//! indexed photos by their cached hashes is the library's logic. The digest
//! itself comes from an outside crate and is only named, never restated:
//! the grouping takes the rendered hashes as plain strings.

use vstd::prelude::*;
use vstd::pervasive::VecAdditionalExecFns;
use crate::errors::StoreError;
use crate::models::{Photo, PhotoV};
use crate::store::{photo_idx_by_id, Store, StoreState};

use sha2::Digest;

verus! {

/// The SHA-256 digest as a pure function of the input bytes; what it is on
/// given bytes, only the outside crate knows.
pub uninterp spec fn sha256_of(data: Seq<u8>) -> Seq<u8>;

/// Relies on sha2's `Sha256`: the digest depends on the input bytes alone
/// and is 32 bytes long.
#[verifier::external_body]
fn sha256_digest(data: &[u8]) -> (r: Vec<u8>)
    ensures
        r@ == sha256_of(data@),
        r@.len() == 32,
{
    sha2::Sha256::digest(data).to_vec()
}

/// The lowercase hex digit for a value below sixteen.
pub open spec fn hex_digit(n: int) -> char {
    if n == 0 {
        '0'
    } else if n == 1 {
        '1'
    } else if n == 2 {
        '2'
    } else if n == 3 {
        '3'
    } else if n == 4 {
        '4'
    } else if n == 5 {
        '5'
    } else if n == 6 {
        '6'
    } else if n == 7 {
        '7'
    } else if n == 8 {
        '8'
    } else if n == 9 {
        '9'
    } else if n == 10 {
        'a'
    } else if n == 11 {
        'b'
    } else if n == 12 {
        'c'
    } else if n == 13 {
        'd'
    } else if n == 14 {
        'e'
    } else {
        'f'
    }
}

/// Lowercase hex rendering: two digits per byte, high digit first.
pub open spec fn hex_of(data: Seq<u8>) -> Seq<char>
    decreases data.len(),
{
    if data.len() == 0 {
        Seq::empty()
    } else {
        seq![hex_digit(data[0] as int / 16), hex_digit(data[0] as int % 16)] + hex_of(
            data.drop_first(),
        )
    }
}

/// The rendering is exactly twice as long as the input.
pub proof fn lemma_hex_of_len(data: Seq<u8>)
    ensures
        hex_of(data).len() == 2 * data.len(),
    decreases data.len(),
{
    if data.len() > 0 {
        lemma_hex_of_len(data.drop_first());
    }
}

/// Relies on hex's `encode`: lowercase characters, each byte encoded as
/// exactly two hex digits, high digit first.
#[verifier::external_body]
fn hex_encode(data: &[u8]) -> (r: String)
    ensures
        r@ == hex_of(data@),
{
    hex::encode(data)
}

/// Saturating 64-bit addition.
pub open spec fn sat_add_i64(a: int, b: int) -> int {
    if a + b > i64::MAX {
        i64::MAX as int
    } else if a + b < i64::MIN {
        i64::MIN as int
    } else {
        a + b
    }
}

/// A photo's recorded size, with zero for an unknown size.
pub open spec fn size_of(p: PhotoV) -> int {
    match p.file_size {
        Some(n) => n,
        None => 0,
    }
}

/// The photos' sizes added up left to right, saturating.
pub open spec fn sum_sizes(s: Seq<PhotoV>) -> int
    decreases s.len(),
{
    if s.len() == 0 {
        0
    } else {
        sat_add_i64(sum_sizes(s.drop_last()), size_of(s.last()))
    }
}

/// The photos carrying exactly this hash.
pub open spec fn photo_hash_is(h: Seq<char>) -> spec_fn(PhotoV) -> bool {
    |p: PhotoV| p.file_hash == Some(h)
}

/// One set of photos sharing a content hash.
#[derive(Clone, Debug)]
pub struct DuplicateGroup {
    pub hash: String,
    pub photos: Vec<Photo>,
    pub size: i64,
}

/// Content-hash based duplicate detection.
pub struct DuplicateDetector;

impl DuplicateDetector {
    /// The SHA-256 digest of the bytes, rendered as lowercase hex.
    pub fn hash_bytes(data: &[u8]) -> (r: String)
        ensures
            r@ == hex_of(sha256_of(data@)),
            r@.len() == 64,
    {
        let digest = sha256_digest(data);
        let r = hex_encode(digest.as_slice());
        proof {
            lemma_hex_of_len(sha256_of(data@));
        }
        r
    }

    /// Record a computed content hash on the photo with this id; a missing
    /// id changes nothing.
    pub fn cache_hash(store: &mut Store, photo_id: i64, hash: String) -> (r: Result<
        (),
        StoreError,
    >)
        ensures
            r is Ok,
            final(store).log == old(store).log,
            ({
                let d = old(store).state();
                let pi = photo_idx_by_id(d.photos, photo_id as int);
                if pi >= 0 {
                    final(store).state() == (StoreState {
                        photos: d.photos.update(pi, PhotoV { file_hash: Some(hash@), ..d.photos[pi] }),
                        ..d
                    })
                } else {
                    final(store).state() == d
                }
            }),
    {
        let ghost d = store.state();
        match store.find_photo_by_id(photo_id) {
            Some(pi) => {
                let updated = Photo { file_hash: Some(hash), ..store.photos[pi].duplicate() };
                store.photos.set(pi, updated);
                proof {
                    let pi_s = photo_idx_by_id(d.photos, photo_id as int);
                    let d2 = StoreState {
                        photos: d.photos.update(
                            pi_s,
                            PhotoV { file_hash: Some(hash@), ..d.photos[pi_s] },
                        ),
                        ..d
                    };
                    assert(store.state().photos =~= d2.photos);
                    assert(store.state() =~= d2);
                }
                Ok(())
            },
            None => Ok(()),
        }
    }

    /// Group the indexed photos by equal content hash. Each group carries
    /// every photo with that hash, in index order, and the group's total
    /// recorded size; only hashes shared by at least two photos form a
    /// group, each hash at most once. Photos without a cached hash take
    /// part in no group.
    pub fn find_duplicates(store: &Store) -> (r: Vec<DuplicateGroup>)
        ensures
            ({
                let ps = store.state().photos;
                // Each reported group is exact.
                &&& (forall|g: int|
                    0 <= g < r@.len() ==> {
                        let grp = #[trigger] r@[g];
                        &&& grp.photos@.map_values(|p: Photo| p@) == ps.filter(
                            photo_hash_is(grp.hash@),
                        )
                        &&& grp.photos@.len() >= 2
                        &&& grp.size as int == sum_sizes(ps.filter(photo_hash_is(grp.hash@)))
                    })
                // No hash is reported twice.
                &&& (forall|g1: int, g2: int|
                    0 <= g1 < g2 < r@.len() ==> (#[trigger] r@[g1]).hash@ != (
                    #[trigger] r@[g2]).hash@)
                // Every genuinely duplicated hash is reported.
                &&& (forall|i: int, j: int|
                    0 <= i < j < ps.len() && (#[trigger] ps[i]).file_hash is Some && ps[i].file_hash
                        == (#[trigger] ps[j]).file_hash ==> exists|g: int|
                        0 <= g < r@.len() && (#[trigger] r@[g]).hash@ == ps[i].file_hash->0)
            }),
    {
        let ghost ps = store.state().photos;
        let mut groups: Vec<DuplicateGroup> = Vec::new();
        let mut i: usize = 0;
        while i < store.photos.len()
            invariant
                i <= store.photos@.len(),
                ps == store.state().photos,
                ps.len() == store.photos@.len(),
                forall|g: int|
                    0 <= g < groups@.len() ==> {
                        let grp = #[trigger] groups@[g];
                        &&& grp.photos@.map_values(|p: Photo| p@) == ps.filter(
                            photo_hash_is(grp.hash@),
                        )
                        &&& grp.photos@.len() >= 2
                        &&& grp.size as int == sum_sizes(ps.filter(photo_hash_is(grp.hash@)))
                    },
                forall|g1: int, g2: int|
                    0 <= g1 < g2 < groups@.len() ==> (#[trigger] groups@[g1]).hash@ != (
                    #[trigger] groups@[g2]).hash@,
                forall|i1: int, j1: int|
                    0 <= i1 < i && i1 < j1 < ps.len() && (#[trigger] ps[i1]).file_hash is Some
                        && ps[i1].file_hash == (#[trigger] ps[j1]).file_hash ==> exists|g: int|
                        0 <= g < groups@.len() && (#[trigger] groups@[g]).hash@
                            == ps[i1].file_hash->0,
            decreases store.photos@.len() - i,
        {
            let ghost pre_groups = groups@;
            let hopt = &store.photos[i].file_hash;
            match hopt {
                Some(hh) => {
                    let h = hh.clone();
                    let seen = Self::hash_seen(&groups, &h);
                    if !seen {
                        let (members, size) = Self::collect_with_hash(store, &h);
                        if members.len() >= 2 {
                            let grp = DuplicateGroup { hash: h, photos: members, size };
                            groups.push(grp);
                            proof {
                                assert forall|i1: int, j1: int|
                                    0 <= i1 < i + 1 && i1 < j1 < ps.len() && (
                                    #[trigger] ps[i1]).file_hash is Some && ps[i1].file_hash == (
                                    #[trigger] ps[j1]).file_hash implies exists|g: int|
                                    0 <= g < groups@.len() && (#[trigger] groups@[g]).hash@
                                        == ps[i1].file_hash->0 by {
                                    if i1 == i {
                                        assert(groups@[groups@.len() - 1].hash@
                                            == ps[i1].file_hash->0);
                                    } else {
                                        let g = choose|g: int|
                                            0 <= g < pre_groups.len() && (
                                            #[trigger] pre_groups[g]).hash@
                                                == ps[i1].file_hash->0;
                                        assert(groups@[g].hash@ == ps[i1].file_hash->0);
                                    }
                                }
                            }
                        } else {
                            // Fewer than two photos carry this hash, so no
                            // pair starting at `i` can share it.
                            proof {
                                let keep = photo_hash_is(h@);
                                let ii = i as int;
                                assert forall|j1: int|
                                    i < j1 < ps.len() && (#[trigger] ps[j1]).file_hash
                                        == ps[ii].file_hash implies false by {
                                    assert(keep(ps[i as int]));
                                    assert(keep(ps[j1]));
                                    crate::seq_search::lemma_filter_at_least_two(
                                        ps,
                                        keep,
                                        i as int,
                                        j1,
                                    );
                                }
                            }
                        }
                    } else {
                        proof {
                            assert(exists|g: int|
                                0 <= g < groups@.len() && (#[trigger] groups@[g]).hash@ == h@);
                        }
                    }
                },
                None => {},
            }
            i = i + 1;
        }
        groups
    }

    /// Whether one of the groups already carries this hash.
    fn hash_seen(groups: &Vec<DuplicateGroup>, h: &String) -> (r: bool)
        ensures
            r == exists|g: int|
                0 <= g < groups@.len() && (#[trigger] groups@[g]).hash@ == h@,
    {
        let mut g: usize = 0;
        while g < groups.len()
            invariant
                g <= groups@.len(),
                forall|k: int| 0 <= k < g ==> (#[trigger] groups@[k]).hash@ != h@,
            decreases groups@.len() - g,
        {
            if groups[g].hash == *h {
                proof {
                    assert(groups@[g as int].hash@ == h@);
                }
                return true;
            }
            g = g + 1;
        }
        false
    }

    /// Every photo carrying this hash, in index order, with the group's
    /// total recorded size (saturating).
    fn collect_with_hash(store: &Store, h: &String) -> (r: (Vec<Photo>, i64))
        ensures
            r.0@.map_values(|p: Photo| p@) == store.state().photos.filter(photo_hash_is(h@)),
            r.1 as int == sum_sizes(store.state().photos.filter(photo_hash_is(h@))),
    {
        let ghost ps = store.state().photos;
        let ghost keep = photo_hash_is(h@);
        let mut members: Vec<Photo> = Vec::new();
        let mut size: i64 = 0;
        let mut j: usize = 0;
        while j < store.photos.len()
            invariant
                j <= store.photos@.len(),
                ps == store.state().photos,
                keep == photo_hash_is(h@),
                ps.len() == store.photos@.len(),
                members@.map_values(|p: Photo| p@) =~= ps.take(j as int).filter(keep),
                size as int == sum_sizes(ps.take(j as int).filter(keep)),
            decreases store.photos@.len() - j,
        {
            proof {
                reveal(Seq::filter);
                assert(ps.take(j + 1).drop_last() =~= ps.take(j as int));
                assert(ps.take(j + 1).last() == ps[j as int]);
            }
            let is_member = match &store.photos[j].file_hash {
                Some(hh) => *hh == *h,
                None => false,
            };
            if is_member {
                let p = store.photos[j].duplicate();
                let n = match p.file_size {
                    Some(n) => n,
                    None => 0,
                };
                size = match size.checked_add(n) {
                    Some(v) => v,
                    None => if n >= 0 {
                        i64::MAX
                    } else {
                        i64::MIN
                    },
                };
                members.push(p);
                proof {
                    let fprev = ps.take(j as int).filter(keep);
                    let fnew = ps.take(j + 1).filter(keep);
                    assert(fnew.drop_last() =~= fprev);
                    assert(fnew.last() == ps[j as int]);
                    assert(members@.map_values(|p: Photo| p@) =~= fnew);
                    assert(sum_sizes(fnew) == sat_add_i64(sum_sizes(fprev), size_of(ps[j as int])));
                }
            }
            j = j + 1;
        }
        proof {
            assert(ps.take(ps.len() as int) =~= ps);
        }
        (members, size)
    }
}

} // verus!
