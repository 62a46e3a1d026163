//! The failure taxonomy and the coordinator's report types.

use vstd::prelude::*;

verus! {

/// Why one store refused one mutation.
///
/// A conflict is non-retryable: retrying against the same store state would
/// refuse again. Unreachability is retryable and is what sends a mutation to
/// the retry queue.
#[derive(Clone, Copy, Debug, PartialEq, Eq, Structural)]
pub enum StoreError {
    /// A referenced entity is missing or a constraint would be violated.
    LogicalConflict,
    /// The filesystem half disagrees: source missing or target taken, and
    /// the mutation is not recognizable as already applied.
    FilesystemConflict,
    /// The store could not be reached at all.
    StoreUnreachable,
}

impl StoreError {
    /// Whether a later retry against the same store may succeed.
    pub fn is_retryable(&self) -> (r: bool)
        ensures
            r == (*self is StoreUnreachable),
    {
        match self {
            StoreError::StoreUnreachable => true,
            _ => false,
        }
    }

    /// A short description, since the type carries no formatting machinery.
    pub fn message(&self) -> (r: String)
        ensures
            *self is LogicalConflict ==> r@ == "logical conflict"@,
            *self is FilesystemConflict ==> r@ == "filesystem conflict"@,
            *self is StoreUnreachable ==> r@ == "store unreachable"@,
    {
        match self {
            StoreError::LogicalConflict => "logical conflict".to_owned(),
            StoreError::FilesystemConflict => "filesystem conflict".to_owned(),
            StoreError::StoreUnreachable => "store unreachable".to_owned(),
        }
    }
}

/// What a caller of `submit` can see go wrong. Only the primary can fail a
/// submission; backup trouble is absorbed by the retry queue.
#[derive(Clone, Copy, Debug, PartialEq, Eq, Structural)]
pub enum SyncError {
    /// The primary store refused the mutation; nothing was committed.
    PrimaryFailed(StoreError),
}

impl SyncError {
    /// A short description: the primary-side error's own.
    pub fn message(&self) -> (r: String)
        ensures
            match self {
                SyncError::PrimaryFailed(e) => {
                    &&& e is LogicalConflict ==> r@ == "logical conflict"@
                    &&& e is FilesystemConflict ==> r@ == "filesystem conflict"@
                    &&& e is StoreUnreachable ==> r@ == "store unreachable"@
                },
            },
    {
        match self {
            SyncError::PrimaryFailed(e) => e.message(),
        }
    }
}

/// What one flush accomplished: how many queued mutations were mirrored to
/// the backup, and how many are still pending.
#[derive(Clone, Copy, Debug, PartialEq, Eq, Structural)]
pub struct FlushReport {
    pub mirrored: usize,
    pub remaining: usize,
}

/// Read-only queue introspection for status indicators.
#[derive(Clone, Copy, Debug, PartialEq, Eq, Structural)]
pub struct QueueStatus {
    pub pending_operations: u32,
    pub is_sync_in_progress: bool,
}

} // verus!
