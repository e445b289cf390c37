use vstd::prelude::*;

verus! {

/// Every failure the engine can report.  Each fallible operation states in
/// its contract exactly which of these it returns, and when.
#[derive(Clone, Copy, Debug, PartialEq, Eq, Structural)]
pub enum LigatureError {
    /// The store is closed; no new transactions can be created and no commit
    /// can be published.
    StoreClosed,
    /// `close` was called on a store that is already closed.
    AlreadyClosed,
    /// The transaction has already been committed or cancelled.
    TransactionClosed,
    /// The named collection does not exist in the relevant state.
    CollectionNotFound,
    /// A statement refers to an entity that was never allocated (or is no
    /// longer valid) in its collection.
    UnknownEntity,
    /// The lower bound of a range lies above its upper bound.
    InvalidRange,
    /// Another write transaction committed first against the same base
    /// version.
    CommitConflict,
}

impl LigatureError {
    /// A short human-readable name for the error kind.
    pub fn describe(&self) -> (r: &'static str)
        ensures
            r@ == match self {
                LigatureError::StoreClosed => "store closed"@,
                LigatureError::AlreadyClosed => "store already closed"@,
                LigatureError::TransactionClosed => "transaction closed"@,
                LigatureError::CollectionNotFound => "collection not found"@,
                LigatureError::UnknownEntity => "unknown entity"@,
                LigatureError::InvalidRange => "invalid range"@,
                LigatureError::CommitConflict => "commit conflict"@,
            },
    {
        match self {
            LigatureError::StoreClosed => "store closed",
            LigatureError::AlreadyClosed => "store already closed",
            LigatureError::TransactionClosed => "transaction closed",
            LigatureError::CollectionNotFound => "collection not found",
            LigatureError::UnknownEntity => "unknown entity",
            LigatureError::InvalidRange => "invalid range",
            LigatureError::CommitConflict => "commit conflict",
        }
    }
}

} // verus!
