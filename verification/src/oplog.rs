//! The per-store operation log: an append-only journal of every attempted
//! mutation and its outcome.
//!
//! An entry is written as `Pending` before any side effect and moved exactly
//! once to `Completed` or `Failed` afterwards; nothing else ever changes, so
//! after a crash any entry still `Pending` marks an interrupted apply. Ids
//! are store-local and monotonically increasing: the id of an entry is its
//! position in the journal.

use vstd::prelude::*;
use vstd::pervasive::VecAdditionalExecFns;
use crate::mutation::{Mutation, MutationV};

verus! {

/// The lifecycle of one log entry.
#[derive(Clone, Copy, Debug, PartialEq, Eq, Structural)]
pub enum LogStatus {
    Pending,
    Completed,
    Failed,
}

/// One journal line: which mutation was attempted and how it ended.
#[derive(Clone, Debug)]
pub struct LogEntry {
    pub id: usize,
    pub mutation: Mutation,
    pub status: LogStatus,
    pub created_at: String,
}

/// Ghost image of a [`LogEntry`].
#[verifier::ext_equal]
pub ghost struct LogEntryV {
    pub id: int,
    pub mutation: MutationV,
    pub status: LogStatus,
    pub created_at: Seq<char>,
}

impl View for LogEntry {
    type V = LogEntryV;

    open spec fn view(&self) -> LogEntryV {
        LogEntryV {
            id: self.id as int,
            mutation: self.mutation@,
            status: self.status,
            created_at: self.created_at@,
        }
    }
}

/// The predicate "this entry ended with `status`", named so that contracts
/// and loop invariants speak of one and the same function.
pub open spec fn entry_has_status(status: LogStatus) -> spec_fn(LogEntryV) -> bool {
    |e: LogEntryV| e.status == status
}

/// The journal itself. Entry `i` always has id `i`.
pub struct OpLog {
    entries: Vec<LogEntry>,
}

impl View for OpLog {
    type V = Seq<LogEntryV>;

    closed spec fn view(&self) -> Seq<LogEntryV> {
        self.entries@.map_values(|e: LogEntry| e@)
    }
}

impl OpLog {
    /// Ids equal positions; exactly what makes them monotonic.
    pub open spec fn wf(&self) -> bool {
        forall|i: int| 0 <= i < self@.len() ==> (#[trigger] self@[i].id) == i
    }

    /// An empty journal.
    pub fn new() -> (l: OpLog)
        ensures
            l@ =~= Seq::<LogEntryV>::empty(),
            l.wf(),
    {
        OpLog { entries: Vec::new() }
    }

    /// How many entries have been written.
    pub fn len(&self) -> (n: usize)
        ensures
            n == self@.len(),
    {
        self.entries.len()
    }

    /// Read one entry back.
    pub fn entry(&self, i: usize) -> (e: &LogEntry)
        requires
            i < self@.len(),
        ensures
            e@ == self@[i as int],
    {
        &self.entries[i]
    }

    /// Append a `Pending` line for `m`, before any side effect happens.
    /// Returns the fresh id.
    pub fn append_pending(&mut self, m: &Mutation, created_at: String) -> (id: usize)
        requires
            old(self).wf(),
        ensures
            final(self).wf(),
            id == old(self)@.len(),
            final(self)@ =~= old(self)@.push(
                LogEntryV {
                    id: old(self)@.len() as int,
                    mutation: m@,
                    status: LogStatus::Pending,
                    created_at: created_at@,
                },
            ),
    {
        let ghost pre = self@;
        let id = self.entries.len();
        let entry = LogEntry {
            id,
            mutation: m.duplicate(),
            status: LogStatus::Pending,
            created_at,
        };
        self.entries.push(entry);
        proof {
            assert(self@ =~= pre.push(
                LogEntryV {
                    id: pre.len() as int,
                    mutation: m@,
                    status: LogStatus::Pending,
                    created_at: created_at@,
                },
            ));
        }
        id
    }

    /// Move the newest entry from `Pending` to its outcome. This is the one
    /// status transition the journal permits; every older line is untouched.
    pub fn mark_last(&mut self, status: LogStatus)
        requires
            old(self).wf(),
            old(self)@.len() > 0,
            old(self)@.last().status is Pending,
            !(status is Pending),
        ensures
            final(self).wf(),
            final(self)@ =~= old(self)@.update(
                old(self)@.len() - 1,
                LogEntryV { status, ..old(self)@.last() },
            ),
    {
        let i = self.entries.len() - 1;
        let ghost pre = self@;
        let last = &self.entries[i];
        let updated = LogEntry {
            id: last.id,
            mutation: last.mutation.duplicate(),
            status,
            created_at: last.created_at.clone(),
        };
        self.entries.set(i, updated);
        proof {
            assert(self@ =~= pre.update(pre.len() - 1, LogEntryV { status, ..pre.last() }));
        }
    }

    /// How many entries carry the given status; handy for audit and tests.
    pub fn count_with_status(&self, status: LogStatus) -> (n: usize)
        ensures
            n == self@.filter(entry_has_status(status)).len(),
    {
        let mut n: usize = 0;
        let mut i: usize = 0;
        while i < self.entries.len()
            invariant
                i <= self@.len(),
                n == self@.take(i as int).filter(entry_has_status(status)).len(),
                n <= i,
            decreases self@.len() - i,
        {
            proof {
                reveal(Seq::filter);
                assert(self@.take(i + 1).drop_last() =~= self@.take(i as int));
                assert(self@.take(i + 1).last() == self@[i as int]);
            }
            if self.entries[i].status == status {
                n = n + 1;
            }
            i = i + 1;
        }
        proof {
            assert(self@.take(self@.len() as int) =~= self@);
        }
        n
    }
}

} // verus!
