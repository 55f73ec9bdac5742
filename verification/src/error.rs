//! What a call to the cache can fail with.
use std::sync::Arc;
use vstd::prelude::*;

verus! {

/// The failures that the cache reports. None of them is fatal: each is handed
/// to the caller, who decides whether to retry.
#[derive(Debug)]
pub enum CacheError<E> {
    /// The computation itself failed, with this cause. The caller that ran it
    /// and every caller that waited for it receive the same cause.
    ComputationFailed(Arc<E>),
    /// The caller's bounded wait ended before the entry was resolved. Only
    /// this caller is affected.
    WaitTimeout,
    /// The value stored under the key has another type than the caller expects.
    TypeMismatch,
    /// The entry cannot be used: its guard was reported corrupted, or the
    /// ticket presented does not belong to a computation that the cache knows.
    LockCorrupted,
}

impl<E> CacheError<E> {
    /// The same error once more, with the cause shared by reference.
    pub fn share(&self) -> (r: Self)
        ensures
            r == *self,
    {
        match self {
            CacheError::ComputationFailed(cause) => CacheError::ComputationFailed(Arc::clone(cause)),
            CacheError::WaitTimeout => CacheError::WaitTimeout,
            CacheError::TypeMismatch => CacheError::TypeMismatch,
            CacheError::LockCorrupted => CacheError::LockCorrupted,
        }
    }

    /// Whether the same call may succeed when it is made again: a wait that
    /// timed out and a dropped entry say nothing about the computation.
    pub fn is_retryable(&self) -> (r: bool)
        ensures
            r == (*self is WaitTimeout || *self is LockCorrupted),
    {
        match self {
            CacheError::WaitTimeout => true,
            CacheError::LockCorrupted => true,
            _ => false,
        }
    }
}

} // verus!
