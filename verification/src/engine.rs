//! The sync coordinator: applies every mutation once, durably, to the
//! primary store, attempts the same mutation against the backup, and keeps
//! a FIFO retry queue of whatever could not be mirrored yet.
//!
//! The coordinator owns both stores and the queue exclusively; one mutation
//! is in flight at a time. Whether the backup is reachable is an outside
//! fact the caller observes and hands in per call: a timeout and a
//! disconnection are the same signal here.

use vstd::prelude::*;
use crate::clock::now_rfc3339;
use crate::errors::{FlushReport, QueueStatus, StoreError, SyncError};
use crate::models::Photo;
use crate::mutation::{Mutation, MutationV};
use crate::oplog::{LogEntryV, LogStatus};
use crate::store::{
    page_end, page_start, photo_idx_by_id, photo_in_album, store_apply, Store, StoreState,
};

verus! {

/// The ghost image of an executable mutation list.
pub open spec fn mutations_view(q: Seq<Mutation>) -> Seq<MutationV> {
    q.map_values(|m: Mutation| m@)
}

/// Whether replaying `q` from state `d`, in order, succeeds at every step.
pub open spec fn apply_all_ok(d: StoreState, q: Seq<MutationV>) -> bool
    decreases q.len(),
{
    q.len() == 0 || (store_apply(d, q[0]) is Ok && apply_all_ok(
        store_apply(d, q[0])->Ok_0,
        q.drop_first(),
    ))
}

/// The state after replaying `q` from `d` in order, standing still at the
/// first refusal.
pub open spec fn apply_all(d: StoreState, q: Seq<MutationV>) -> StoreState
    decreases q.len(),
{
    if q.len() == 0 {
        d
    } else {
        match store_apply(d, q[0]) {
            Ok(d2) => apply_all(d2, q.drop_first()),
            Err(_) => d,
        }
    }
}

/// How many mutations of `q`, replayed in order from `d`, succeed before
/// the first refusal.
pub open spec fn flush_count(d: StoreState, q: Seq<MutationV>) -> int
    decreases q.len(),
{
    if q.len() == 0 {
        0
    } else {
        match store_apply(d, q[0]) {
            Ok(d2) => 1 + flush_count(d2, q.drop_first()),
            Err(_) => 0,
        }
    }
}

/// Replaying one more mutation after an all-successful replay: it succeeds
/// exactly when it applies to the accumulated state, and lands there.
pub proof fn lemma_apply_all_snoc(d: StoreState, q: Seq<MutationV>, m: MutationV)
    requires
        apply_all_ok(d, q),
    ensures
        apply_all_ok(d, q.push(m)) == (store_apply(apply_all(d, q), m) is Ok),
        store_apply(apply_all(d, q), m) is Ok ==> apply_all(d, q.push(m)) == store_apply(
            apply_all(d, q),
            m,
        )->Ok_0,
        !(store_apply(apply_all(d, q), m) is Ok) ==> apply_all(d, q.push(m)) == apply_all(d, q),
    decreases q.len(),
{
    let qq = q.push(m);
    if q.len() == 0 {
        assert(qq[0] == m);
        assert(qq.drop_first() =~= Seq::<MutationV>::empty());
        assert(apply_all(d, q) == d);
        match store_apply(d, m) {
            Ok(d2) => {
                assert(apply_all(d, qq) == apply_all(d2, qq.drop_first()));
                assert(apply_all(d2, qq.drop_first()) == d2);
                assert(apply_all_ok(d2, qq.drop_first()));
            },
            Err(_) => {
                assert(apply_all(d, qq) == d);
            },
        }
    } else {
        let d1 = store_apply(d, q[0])->Ok_0;
        assert(qq[0] == q[0]);
        assert(qq.drop_first() =~= q.drop_first().push(m));
        assert(apply_all(d, q) == apply_all(d1, q.drop_first()));
        assert(apply_all(d, qq) == apply_all(d1, qq.drop_first()));
        lemma_apply_all_snoc(d1, q.drop_first(), m);
        assert(apply_all_ok(d, qq) == apply_all_ok(d1, qq.drop_first()));
    }
}

/// A replay that succeeded through `k` steps and then hit a refusal (or the
/// end of the queue) pins `flush_count` to `k`.
pub proof fn lemma_flush_count_from_take(d: StoreState, q: Seq<MutationV>, k: int)
    requires
        0 <= k <= q.len(),
        apply_all_ok(d, q.take(k)),
        k < q.len() ==> !(store_apply(apply_all(d, q.take(k)), q[k]) is Ok),
    ensures
        flush_count(d, q) == k,
    decreases q.len(),
{
    if q.len() == 0 {
    } else if k == 0 {
        assert(q.take(0) =~= Seq::<MutationV>::empty());
        assert(apply_all(d, q.take(0)) == d);
        assert(q[0] == q.take(q.len() as int)[0]);
    } else {
        assert(q.take(k)[0] == q[0]);
        assert(q.take(k).len() == k);
        let d1 = store_apply(d, q[0])->Ok_0;
        assert(q.take(k).drop_first() =~= q.drop_first().take(k - 1));
        if k < q.len() {
            assert(q.drop_first()[k - 1] == q[k]);
        }
        lemma_flush_count_from_take(d1, q.drop_first(), k - 1);
    }
}

/// One submission's mark in a journal: exactly one entry was appended, for
/// this mutation, with this outcome, under the next id in line.
pub open spec fn logged_once(
    pre: Seq<LogEntryV>,
    post: Seq<LogEntryV>,
    m: MutationV,
    st: LogStatus,
) -> bool {
    &&& post.len() == pre.len() + 1
    &&& post.take(pre.len() as int) == pre
    &&& post.last().mutation == m
    &&& post.last().status == st
    &&& post.last().id == pre.len()
}

/// One flush's marks in the backup journal: a `Completed` line for each of
/// the `k` mirrored mutations, in order, then a `Failed` line for the one
/// that refused, if any.
pub open spec fn flush_logged(
    pre: Seq<LogEntryV>,
    post: Seq<LogEntryV>,
    q: Seq<MutationV>,
    k: int,
    failed: bool,
) -> bool {
    &&& post.len() == pre.len() + k + (if failed {
        1int
    } else {
        0int
    })
    &&& post.take(pre.len() as int) == pre
    &&& (forall|i: int|
        0 <= i < k ==> (#[trigger] post[pre.len() + i]).mutation == q[i] && post[pre.len()
            + i].status == LogStatus::Completed)
    &&& (failed ==> post.last().mutation == q[k] && post.last().status == LogStatus::Failed)
}

/// The coordinator. It owns the primary store, the optional backup store,
/// and the retry queue; nothing else reads or writes any of them while a
/// submission or flush is in flight.
pub struct SyncEngine {
    pub primary: Store,
    pub backup: Option<Store>,
    pub queue: Vec<Mutation>,
    pub busy: bool,
}

impl SyncEngine {
    /// The retry queue as a mutation sequence, head first.
    pub open spec fn queue_view(&self) -> Seq<MutationV> {
        mutations_view(self.queue@)
    }

    /// Both journals well-formed: ids are positions.
    pub open spec fn wf(&self) -> bool {
        &&& self.primary.log.wf()
        &&& (self.backup is Some ==> self.backup->0.log.wf())
    }

    /// The backup is in step with the primary, modulo the retry queue:
    /// replaying the queue against the backup succeeds throughout and
    /// lands exactly on the primary's state. A coordinator built around
    /// equal stores has this, every submission keeps it, and under it a
    /// flush against a reachable backup converges.
    pub open spec fn in_step(&self) -> bool {
        self.backup is Some ==> apply_all_ok(self.backup->0.state(), self.queue_view())
            && apply_all(self.backup->0.state(), self.queue_view()) == self.primary.state()
    }

    /// Take ownership of the stores. The queue starts empty; a backup may
    /// be attached later by constructing a new coordinator around it.
    pub fn new(primary: Store, backup: Option<Store>) -> (e: SyncEngine)
        requires
            primary.log.wf(),
            backup is Some ==> backup->0.log.wf(),
        ensures
            e.primary == primary,
            e.backup == backup,
            e.queue_view() =~= Seq::<MutationV>::empty(),
            e.busy == false,
            e.wf(),
            (backup is Some ==> backup->0.state() == primary.state()) ==> e.in_step(),
    {
        let e = SyncEngine { primary, backup, queue: Vec::new(), busy: false };
        proof {
            assert(e.queue_view() =~= Seq::<MutationV>::empty());
        }
        e
    }

    /// How many mutations await mirroring.
    pub fn queue_depth(&self) -> (n: usize)
        ensures
            n == self.queue_view().len(),
    {
        self.queue.len()
    }

    /// Whether a submit or flush is currently in flight. The coordinator
    /// serializes callers, so from outside a call this reports the flag it
    /// was left with.
    pub fn is_busy(&self) -> (b: bool)
        ensures
            b == self.busy,
    {
        self.busy
    }

    /// The queue depth and busy flag together, for status indicators; a
    /// depth beyond `u32` saturates.
    pub fn queue_status(&self) -> (s: QueueStatus)
        ensures
            s.pending_operations == if self.queue_view().len() <= u32::MAX {
                self.queue_view().len() as u32
            } else {
                u32::MAX
            },
            s.is_sync_in_progress == self.busy,
    {
        let depth = self.queue.len();
        let pending = if depth as u64 <= u32::MAX as u64 {
            depth as u32
        } else {
            u32::MAX
        };
        QueueStatus { pending_operations: pending, is_sync_in_progress: self.busy }
    }

    /// Submit one mutation.
    ///
    /// The primary decides the caller's outcome: a primary refusal returns
    /// the error and changes no store content; a primary success returns
    /// `Ok` whatever the backup does. A mutation the primary committed but
    /// the backup did not take — backup absent, unreachable, refusing, or
    /// standing behind a non-empty retry queue — is appended to the retry
    /// queue tail before this returns: the backup is never handed a
    /// mutation ahead of one committed earlier, so its state is always a
    /// prefix of the primary's history.
    pub fn submit(&mut self, m: &Mutation, backup_up: bool) -> (r: Result<(), SyncError>)
        requires
            old(self).wf(),
        ensures
            final(self).wf(),
            final(self).busy == false,
            // The primary is authoritative for the caller's outcome.
            (r is Ok) == (store_apply(old(self).primary.state(), m@) is Ok),
            // What the primary ends up with, and what its journal records.
            ({
                let pre = *old(self);
                let post = *final(self);
                match store_apply(pre.primary.state(), m@) {
                    Ok(d2) => post.primary.state() == d2 && logged_once(
                        pre.primary.log@,
                        post.primary.log@,
                        m@,
                        LogStatus::Completed,
                    ),
                    Err(e) => {
                        &&& r == Err::<(), SyncError>(SyncError::PrimaryFailed(e))
                        &&& post.primary.state() == pre.primary.state()
                        &&& logged_once(pre.primary.log@, post.primary.log@, m@, LogStatus::Failed)
                        &&& post.backup == pre.backup
                        &&& post.queue_view() == pre.queue_view()
                    },
                }
            }),
            // Backup disposition, when the primary committed.
            ({
                let pre = *old(self);
                let post = *final(self);
                store_apply(pre.primary.state(), m@) is Ok ==> match pre.backup {
                    None => post.backup is None && post.queue_view() =~= pre.queue_view().push(m@),
                    Some(b0) => {
                        if !backup_up || pre.queue_view().len() > 0 {
                            post.backup == pre.backup && post.queue_view() =~= pre.queue_view()
                                .push(m@)
                        } else {
                            match store_apply(b0.state(), m@) {
                                Ok(b2) => {
                                    &&& post.backup is Some
                                    &&& post.backup->0.state() == b2
                                    &&& logged_once(
                                        b0.log@,
                                        post.backup->0.log@,
                                        m@,
                                        LogStatus::Completed,
                                    )
                                    &&& post.queue_view() == pre.queue_view()
                                },
                                Err(_) => {
                                    &&& post.backup is Some
                                    &&& post.backup->0.state() == b0.state()
                                    &&& logged_once(
                                        b0.log@,
                                        post.backup->0.log@,
                                        m@,
                                        LogStatus::Failed,
                                    )
                                    &&& post.queue_view() =~= pre.queue_view().push(m@)
                                },
                            }
                        }
                    },
                }
            }),
            // An in-step coordinator stays in step.
            old(self).in_step() ==> final(self).in_step(),
    {
        let ghost pre = *old(self);
        self.busy = true;
        let ts = now_rfc3339();
        self.primary.log.append_pending(m, ts);
        match self.primary.apply(m) {
            Err(e) => {
                self.primary.log.mark_last(LogStatus::Failed);
                self.busy = false;
                proof {
                    assert(self.primary.log@.take(pre.primary.log@.len() as int)
                        =~= pre.primary.log@);
                }
                Err(SyncError::PrimaryFailed(e))
            },
            Ok(()) => {
                self.primary.log.mark_last(LogStatus::Completed);
                proof {
                    assert(self.primary.log@.take(pre.primary.log@.len() as int)
                        =~= pre.primary.log@);
                }
                let mut mirrored = false;
                let queue_empty = self.queue.len() == 0;
                if backup_up && queue_empty {
                    match self.backup.take() {
                        Some(mut b) => {
                            let ghost blog0 = b.log@;
                            let ts2 = now_rfc3339();
                            b.log.append_pending(m, ts2);
                            match b.apply(m) {
                                Ok(()) => {
                                    b.log.mark_last(LogStatus::Completed);
                                    mirrored = true;
                                },
                                Err(_) => {
                                    b.log.mark_last(LogStatus::Failed);
                                },
                            }
                            proof {
                                assert(b.log@.take(blog0.len() as int) =~= blog0);
                            }
                            self.backup = Some(b);
                        },
                        None => {},
                    }
                }
                if !mirrored {
                    self.queue.push(m.duplicate());
                    proof {
                        assert(self.queue_view() =~= pre.queue_view().push(m@));
                    }
                }
                proof {
                    if pre.in_step() {
                        match pre.backup {
                            Some(b0) => {
                                if mirrored {
                                    assert(pre.queue_view().len() == 0);
                                    assert(apply_all(b0.state(), pre.queue_view()) == b0.state());
                                } else {
                                    lemma_apply_all_snoc(b0.state(), pre.queue_view(), m@);
                                }
                            },
                            None => {},
                        }
                    }
                }
                self.busy = false;
                Ok(())
            },
        }
    }

    /// One page of the primary's photo index; reads never touch the backup.
    pub fn get_photos(&self, limit: i64, offset: i64) -> (r: Vec<Photo>)
        ensures
            ({
                let ps = self.primary.state().photos;
                let start = page_start(ps.len() as int, offset as int);
                let end = page_end(ps.len() as int, limit as int, start);
                r@.map_values(|p: Photo| p@) == ps.subrange(start, end)
            }),
    {
        self.primary.get_photos(limit, offset)
    }

    /// The primary's photo with this id, or a conflict when no row has it.
    pub fn get_photo_by_id(&self, photo_id: i64) -> (r: Result<Photo, StoreError>)
        ensures
            ({
                let ps = self.primary.state().photos;
                let pi = photo_idx_by_id(ps, photo_id as int);
                match r {
                    Ok(p) => pi >= 0 && p@ == ps[pi],
                    Err(e) => pi < 0 && e == StoreError::LogicalConflict,
                }
            }),
    {
        self.primary.get_photo_by_id(photo_id)
    }

    /// Every photo the album holds on the primary, in index order.
    pub fn get_photos_by_album_id(&self, album_id: i64) -> (r: Vec<Photo>)
        ensures
            r@.map_values(|p: Photo| p@) == self.primary.state().photos.filter(
                photo_in_album(self.primary.state().memberships, album_id as int),
            ),
    {
        self.primary.get_photos_by_album_id(album_id)
    }

    /// Drain the retry queue against the backup, head first, stopping at
    /// the first refusal.
    ///
    /// Mutations that mirror are removed from the queue and logged
    /// `Completed` on the backup; from the first refusal on, the queue is
    /// preserved in its original order, so the backup only ever holds a
    /// prefix of the primary's history. With no backup configured, or the
    /// backup unreachable, this is a no-op success.
    pub fn flush(&mut self, backup_up: bool) -> (r: Result<FlushReport, SyncError>)
        requires
            old(self).wf(),
        ensures
            final(self).wf(),
            final(self).busy == false,
            final(self).primary == old(self).primary,
            r is Ok,
            ({
                let pre = *old(self);
                let post = *final(self);
                let q0 = pre.queue_view();
                if pre.backup is None || !backup_up {
                    post.backup == pre.backup && post.queue_view() == q0 && r->Ok_0 == (FlushReport {
                        mirrored: 0,
                        remaining: q0.len() as usize,
                    })
                } else {
                    let b0 = pre.backup->0;
                    let k = flush_count(b0.state(), q0);
                    &&& post.backup is Some
                    &&& post.backup->0.state() == apply_all(b0.state(), q0.take(k))
                    &&& post.queue_view() == q0.skip(k)
                    &&& flush_logged(b0.log@, post.backup->0.log@, q0, k, k < q0.len())
                    &&& r->Ok_0 == (FlushReport {
                        mirrored: k as usize,
                        remaining: (q0.len() - k) as usize,
                    })
                }
            }),
            // An in-step coordinator stays in step, and — with the backup
            // reachable — converges: the queue drains completely and the
            // backup's state comes out identical to the primary's.
            old(self).in_step() ==> final(self).in_step(),
            ({
                let post = *final(self);
                (old(self).in_step() && backup_up && old(self).backup is Some)
                    ==> post.queue_view().len() == 0 && post.backup->0.state()
                    == post.primary.state()
            }),
    {
        let ghost pre = *old(self);
        let ghost q0 = pre.queue_view();
        self.busy = true;
        if !backup_up || self.backup.is_none() {
            self.busy = false;
            let depth = self.queue.len();
            return Ok(FlushReport { mirrored: 0, remaining: depth });
        }
        let mut b = self.backup.take().unwrap();
        let ghost b0s = b.state();
        let ghost blog0 = b.log@;
        let mut k: usize = 0;
        let mut failed = false;
        proof {
            assert(q0.take(0) =~= Seq::<MutationV>::empty());
            assert(blog0.take(blog0.len() as int) =~= blog0);
        }
        while k < self.queue.len() && !failed
            invariant
                q0 == mutations_view(self.queue@),
                q0.len() == self.queue@.len(),
                k <= q0.len(),
                b.log.wf(),
                apply_all_ok(b0s, q0.take(k as int)),
                b.state() == apply_all(b0s, q0.take(k as int)),
                !failed ==> flush_logged(blog0, b.log@, q0, k as int, false),
                failed ==> k < q0.len() && !(store_apply(
                    apply_all(b0s, q0.take(k as int)),
                    q0[k as int],
                ) is Ok) && flush_logged(blog0, b.log@, q0, k as int, true),
            decreases (q0.len() - k) * 2 + (if failed {
                0int
            } else {
                1int
            }),
        {
            let m = &self.queue[k];
            let ts = now_rfc3339();
            let ghost blog_before = b.log@;
            b.log.append_pending(m, ts);
            match b.apply(m) {
                Ok(()) => {
                    b.log.mark_last(LogStatus::Completed);
                    proof {
                        lemma_apply_all_snoc(b0s, q0.take(k as int), q0[k as int]);
                        assert(q0.take(k as int).push(q0[k as int]) =~= q0.take(k + 1));
                        assert(b.log@.take(blog0.len() as int) =~= blog0);
                        assert(flush_logged(blog0, b.log@, q0, k + 1, false));
                    }
                    k = k + 1;
                },
                Err(_) => {
                    b.log.mark_last(LogStatus::Failed);
                    failed = true;
                    proof {
                        assert(b.log@.take(blog0.len() as int) =~= blog0);
                        assert(flush_logged(blog0, b.log@, q0, k as int, true));
                    }
                },
            }
        }
        proof {
            if !failed {
                assert(q0.take(k as int) =~= q0);
            }
            lemma_flush_count_from_take(b0s, q0, k as int);
        }
        let mirrored = k;
        let remaining = self.queue.len() - k;
        let mut rest: Vec<Mutation> = Vec::new();
        let mut j = k;
        while j < self.queue.len()
            invariant
                k <= j <= self.queue@.len(),
                q0 == mutations_view(self.queue@),
                q0.len() == self.queue@.len(),
                rest@.len() == j - k,
                mutations_view(rest@) =~= q0.subrange(k as int, j as int),
            decreases self.queue@.len() - j,
        {
            let taken = self.queue[j].duplicate();
            proof {
                assert(taken@ == q0[j as int]);
            }
            rest.push(taken);
            proof {
                assert(rest@.len() == j + 1 - k);
                assert(mutations_view(rest@) =~= q0.subrange(k as int, j + 1));
            }
            j = j + 1;
        }
        self.queue = rest;
        self.backup = Some(b);
        self.busy = false;
        proof {
            assert(q0.subrange(k as int, q0.len() as int) =~= q0.skip(k as int));
            assert(self.queue_view() =~= q0.skip(k as int));
            if pre.in_step() {
                assert(q0.take(q0.len() as int) =~= q0);
                lemma_flush_count_from_take(b0s, q0, q0.len() as int);
            }
        }
        Ok(FlushReport { mirrored, remaining })
    }
}

} // verus!
