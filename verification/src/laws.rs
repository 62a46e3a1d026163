//! The coordinator's cross-cutting guarantees, stated and proved once.
//!
//! The per-function contracts in [`crate::store`] and [`crate::engine`] pin
//! each call down; the lemmas here chain those contracts across calls: a
//! store never corrupts under a retried filesystem mutation, and a backup
//! that drains the retry queue lands exactly on the primary's state.

use vstd::prelude::*;
use crate::engine::{apply_all, apply_all_ok, flush_count, lemma_flush_count_from_take};
use crate::errors::StoreError;
use crate::mutation::MutationV;
use crate::pathname::rename_target_spec;
use crate::seq_search::{lemma_first_where, lemma_first_where_none};
use crate::store::{
    file_is, file_idx, files_unique, has_file, photo_idx_by_path, store_apply, StoreState,
};

verus! {

/// Law: applying any mutation keeps the filesystem listing duplicate-free.
pub proof fn lemma_apply_preserves_files_unique(d: StoreState, m: MutationV)
    requires
        files_unique(d.files),
        store_apply(d, m) is Ok,
    ensures
        files_unique(store_apply(d, m)->Ok_0.files),
{
    let d2 = store_apply(d, m)->Ok_0;
    match m {
        MutationV::Move { from, to } => {
            if has_file(d.files, from) && !has_file(d.files, to) {
                lemma_first_where(d.files, file_is(from));
                lemma_first_where(d.files, file_is(to));
                let fi = file_idx(d.files, from);
                assert(d2.files == d.files.update(fi, to));
                assert(d2.files.len() == d.files.len());
                assert forall|i: int, j: int| 0 <= i < j < d2.files.len() implies d2.files[i]
                    != d2.files[j] by {
                    assert(!(file_is(to)(d.files[i])));
                    assert(!(file_is(to)(d.files[j])));
                    if i == fi {
                        assert(d2.files[i] == to);
                        assert(d2.files[j] == d.files[j]);
                    } else if j == fi {
                        assert(d2.files[i] == d.files[i]);
                        assert(d2.files[j] == to);
                    } else {
                        assert(d2.files[i] == d.files[i]);
                        assert(d2.files[j] == d.files[j]);
                    }
                }
            }
        },
        MutationV::Rename { path, new_name } => {
            let np = rename_target_spec(path, new_name);
            if has_file(d.files, path) && (np == path || !has_file(d.files, np)) {
                let fi = file_idx(d.files, path);
                lemma_first_where(d.files, file_is(path));
                lemma_first_where(d.files, file_is(np));
                assert forall|i: int, j: int| 0 <= i < j < d2.files.len() implies d2.files[i]
                    != d2.files[j] by {
                    if np == path {
                        assert(d2.files[i] == d.files[i]);
                        assert(d2.files[j] == d.files[j]);
                    } else {
                        assert(!(file_is(np)(d.files[i])));
                        assert(!(file_is(np)(d.files[j])));
                    }
                }
            }
        },
        MutationV::Delete { path } => {
            if has_file(d.files, path) {
                lemma_first_where(d.files, file_is(path));
                let fi = file_idx(d.files, path);
                d.files.remove_ensures(fi);
                assert forall|i: int, j: int| 0 <= i < j < d2.files.len() implies d2.files[i]
                    != d2.files[j] by {
                    let i0: int = if i < fi {
                        i
                    } else {
                        i + 1
                    };
                    let j0: int = if j < fi {
                        j
                    } else {
                        j + 1
                    };
                    assert(d2.files[i] == d.files[i0]);
                    assert(d2.files[j] == d.files[j0]);
                }
            }
        },
        MutationV::AddPhoto { photo } => {
            if photo_idx_by_path(d.photos, photo.path) < 0 && !has_file(d.files, photo.path) {
                lemma_first_where(d.files, file_is(photo.path));
                assert forall|i: int, j: int| 0 <= i < j < d2.files.len() implies d2.files[i]
                    != d2.files[j] by {
                    if j == d.files.len() {
                        assert(!(file_is(photo.path)(d.files[i])));
                    }
                }
            }
        },
        _ => {},
    }
}

/// Law: re-applying a completed `Move`, `Rename` or `Delete` mutation to a
/// store where it was already applied does not error and does not change
/// state further.
pub proof fn lemma_idempotent_retry(d: StoreState, m: MutationV)
    requires
        files_unique(d.files),
        m is Move || m is Rename || m is Delete,
        store_apply(d, m) is Ok,
    ensures
        store_apply(store_apply(d, m)->Ok_0, m) == Ok::<StoreState, StoreError>(
            store_apply(d, m)->Ok_0,
        ),
{
    let d2 = store_apply(d, m)->Ok_0;
    match m {
        MutationV::Move { from, to } => {
            lemma_first_where(d.files, file_is(from));
            lemma_first_where(d.files, file_is(to));
            if has_file(d.files, from) && !has_file(d.files, to) {
                let fi = file_idx(d.files, from);
                assert(d.files[fi] == from);
                assert(!(file_is(to)(d.files[fi])));
                assert(to != from);
                assert forall|j: int| 0 <= j < d2.files.len() implies !(file_is(from)(
                    d2.files[j],
                )) by {
                    if j != fi {
                        assert(d2.files[j] == d.files[j]);
                    }
                }
                lemma_first_where_none(d2.files, file_is(from));
                lemma_first_where(d2.files, file_is(to));
                if file_idx(d2.files, to) < 0 {
                    assert(!(file_is(to)(d2.files[fi])));
                    assert(false);
                }
            }
        },
        MutationV::Rename { path, new_name } => {
            let np = rename_target_spec(path, new_name);
            lemma_first_where(d.files, file_is(path));
            lemma_first_where(d.files, file_is(np));
            if has_file(d.files, path) && (np == path || !has_file(d.files, np)) {
                let fi = file_idx(d.files, path);
                assert(d.files[fi] == path);
                if np == path {
                    // Renaming to the name already in place: the apply
                    // rewrote the same values, so replaying rewrites them
                    // again, landing where it stands.
                    assert(d2.files =~= d.files);
                    let pi = photo_idx_by_path(d.photos, path);
                    lemma_first_where(d.photos, crate::store::photo_has_path(path));
                    if pi >= 0 {
                        lemma_first_where(d2.photos, crate::store::photo_has_path(path));
                        assert(d2.photos[pi].path == path);
                        assert forall|j: int| 0 <= j < pi implies !(crate::store::photo_has_path(
                            path,
                        )(d2.photos[j])) by {
                            assert(d2.photos[j] == d.photos[j]);
                        }
                        crate::seq_search::lemma_first_where_is(
                            d2.photos,
                            crate::store::photo_has_path(path),
                            pi,
                        );
                        let again = store_apply(d2, m)->Ok_0;
                        assert(again.photos =~= d2.photos);
                        assert(again.files =~= d2.files);
                        assert(again =~= d2);
                    } else {
                        crate::seq_search::lemma_first_where_none(
                            d2.photos,
                            crate::store::photo_has_path(path),
                        );
                        let again = store_apply(d2, m)->Ok_0;
                        assert(again.files =~= d2.files);
                        assert(again =~= d2);
                    }
                } else {
                    assert(!(file_is(np)(d.files[fi])));
                    assert forall|j: int| 0 <= j < d2.files.len() implies !(file_is(path)(
                        d2.files[j],
                    )) by {
                        if j != fi {
                            assert(d2.files[j] == d.files[j]);
                        }
                    }
                    lemma_first_where_none(d2.files, file_is(path));
                    lemma_first_where(d2.files, file_is(np));
                    if file_idx(d2.files, np) < 0 {
                        assert(!(file_is(np)(d2.files[fi])));
                        assert(false);
                    }
                }
            }
        },
        MutationV::Delete { path } => {
            lemma_first_where(d.files, file_is(path));
            if has_file(d.files, path) {
                let fi = file_idx(d.files, path);
                d.files.remove_ensures(fi);
                assert forall|j: int| 0 <= j < d2.files.len() implies !(file_is(path)(
                    d2.files[j],
                )) by {
                    if j < fi {
                        assert(d2.files[j] == d.files[j]);
                    } else {
                        assert(d2.files[j] == d.files[j + 1]);
                    }
                }
                lemma_first_where_none(d2.files, file_is(path));
            }
        },
        _ => {},
    }
}

/// The primary's state after a burst of submissions: a mutation the primary
/// refuses changes nothing; one it commits moves the state along.
pub open spec fn primary_after(d: StoreState, ms: Seq<MutationV>) -> StoreState
    decreases ms.len(),
{
    if ms.len() == 0 {
        d
    } else {
        match store_apply(d, ms[0]) {
            Ok(d2) => primary_after(d2, ms.drop_first()),
            Err(_) => primary_after(d, ms.drop_first()),
        }
    }
}

/// The retry queue after the same burst, submitted while the backup was
/// down: exactly the mutations the primary committed, in submission order.
pub open spec fn queued_after(d: StoreState, ms: Seq<MutationV>) -> Seq<MutationV>
    decreases ms.len(),
{
    if ms.len() == 0 {
        Seq::empty()
    } else {
        match store_apply(d, ms[0]) {
            Ok(d2) => seq![ms[0]] + queued_after(d2, ms.drop_first()),
            Err(_) => queued_after(d, ms.drop_first()),
        }
    }
}

/// Law: FIFO convergence. Take a backup that was in step with the primary
/// (both at state `d`) when it went down, and any burst of submissions
/// `ms` processed while it stayed down. Replaying the queue those
/// submissions left behind, in order, succeeds at every step, consumes the
/// whole queue, and lands the backup exactly on the primary's state.
pub proof fn lemma_fifo_convergence(d: StoreState, ms: Seq<MutationV>)
    ensures
        apply_all_ok(d, queued_after(d, ms)),
        apply_all(d, queued_after(d, ms)) == primary_after(d, ms),
        flush_count(d, queued_after(d, ms)) == queued_after(d, ms).len(),
    decreases ms.len(),
{
    let q = queued_after(d, ms);
    if ms.len() == 0 {
    } else {
        match store_apply(d, ms[0]) {
            Ok(d2) => {
                lemma_fifo_convergence(d2, ms.drop_first());
                let qrest = queued_after(d2, ms.drop_first());
                assert(q == seq![ms[0]] + qrest);
                assert(q.len() == 1 + qrest.len());
                assert(q[0] == ms[0]);
                assert(q.drop_first() =~= qrest);
            },
            Err(_) => {
                lemma_fifo_convergence(d, ms.drop_first());
            },
        }
    }
    assert(q.take(q.len() as int) =~= q);
    lemma_flush_count_from_take(d, q, q.len() as int);
}

} // verus!
