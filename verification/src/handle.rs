//! The record through which one computation hands its result to its waiters.
use crate::error::CacheError;
use crate::value::Value;
use std::sync::Arc;
use vstd::prelude::*;

verus! {

/// What a handle stands for: a computation still running, its value, or the
/// cause of its failure.
#[derive(Debug)]
pub enum Resolution<V, E> {
    Unresolved,
    Ready(Value<V>),
    Failed(Arc<E>),
}

/// How a bounded wait on a handle ended.
#[derive(Debug)]
pub enum WaitOutcome<V, E> {
    Ready(Value<V>),
    Failed(Arc<E>),
    TimedOut,
}

impl<V, E> Resolution<V, E> {
    /// What a waiter learns that has waited `elapsed_ms` of at most
    /// `deadline_ms`: the resolution if there is one, a timeout once the
    /// deadline is reached, and nothing yet otherwise.
    pub open spec fn outcome(self, elapsed_ms: u64, deadline_ms: u64) -> Option<WaitOutcome<V, E>> {
        match self {
            Resolution::Ready(value) => Some(WaitOutcome::Ready(value)),
            Resolution::Failed(cause) => Some(WaitOutcome::Failed(cause)),
            Resolution::Unresolved => if elapsed_ms >= deadline_ms {
                Some(WaitOutcome::TimedOut)
            } else {
                None
            },
        }
    }
}

impl<V, E> WaitOutcome<V, E> {
    /// The result that a caller expecting `type_id` gets from this outcome.
    pub open spec fn settled(self, type_id: u64) -> Result<Value<V>, CacheError<E>> {
        match self {
            WaitOutcome::Ready(value) => if value.type_id == type_id {
                Ok(value)
            } else {
                Err(CacheError::TypeMismatch)
            },
            WaitOutcome::Failed(cause) => Err(CacheError::ComputationFailed(cause)),
            WaitOutcome::TimedOut => Err(CacheError::WaitTimeout),
        }
    }

    /// Turns the outcome of a wait into the caller's result: a value of the
    /// expected type is returned, one of another type is a mismatch, a failure
    /// is passed on with its cause, and a timeout becomes `WaitTimeout`.
    pub fn settle(self, type_id: u64) -> (r: Result<Value<V>, CacheError<E>>)
        ensures
            r == self.settled(type_id),
    {
        match self {
            WaitOutcome::Ready(value) => if value.has_type(type_id) {
                Ok(value)
            } else {
                Err(CacheError::TypeMismatch)
            },
            WaitOutcome::Failed(cause) => Err(CacheError::ComputationFailed(cause)),
            WaitOutcome::TimedOut => Err(CacheError::WaitTimeout),
        }
    }
}

/// The payload slot of one computation: written once by the caller that runs
/// the computation, read by every caller that waits for it.
#[derive(Debug)]
pub struct EntryHandle<V, E> {
    value: Option<Value<V>>,
    failure: Option<Arc<E>>,
    ready: bool,
}

impl<V, E> EntryHandle<V, E> {
    /// The record is consistent: it holds a value or a failure exactly when it
    /// is ready, and never both.
    pub closed spec fn wf(&self) -> bool {
        &&& self.ready <==> (self.value is Some || self.failure is Some)
        &&& !(self.value is Some && self.failure is Some)
    }

    /// What the handle stands for.
    pub closed spec fn view(&self) -> Resolution<V, E> {
        if self.value is Some {
            Resolution::Ready(self.value->0)
        } else if self.failure is Some {
            Resolution::Failed(self.failure->0)
        } else {
            Resolution::Unresolved
        }
    }

    /// The handle of a computation that has just started.
    pub fn pending() -> (r: Self)
        ensures
            r.wf(),
            r@ is Unresolved,
    {
        Self { value: None, failure: None, ready: false }
    }

    /// Whether the computation has been resolved, with a value or with a
    /// failure.
    pub fn is_ready(&self) -> (r: bool)
        requires
            self.wf(),
        ensures
            r == !(self@ is Unresolved),
    {
        self.ready
    }

    /// Publishes the value of the computation. A handle is resolved once, by
    /// the one caller that ran the computation.
    pub fn mark_ready(&mut self, new_value: Value<V>)
        requires
            old(self).wf(),
            old(self)@ is Unresolved,
        ensures
            final(self).wf(),
            final(self)@ == Resolution::<V, E>::Ready(new_value),
    {
        self.value = Some(new_value);
        self.ready = true;
    }

    /// Publishes the failure of the computation, once.
    pub fn mark_failed(&mut self, cause: Arc<E>)
        requires
            old(self).wf(),
            old(self)@ is Unresolved,
        ensures
            final(self).wf(),
            final(self)@ == Resolution::<V, E>::Failed(cause),
    {
        self.failure = Some(cause);
        self.ready = true;
    }

    /// One look at the handle by a waiter that has waited `elapsed_ms` of at
    /// most `deadline_ms`. `None` tells the waiter to go on waiting. The
    /// handle is not changed, whatever the outcome.
    pub fn wait(&self, elapsed_ms: u64, deadline_ms: u64) -> (r: Option<WaitOutcome<V, E>>)
        requires
            self.wf(),
        ensures
            r == self@.outcome(elapsed_ms, deadline_ms),
    {
        if self.ready {
            match &self.value {
                Some(value) => Some(WaitOutcome::Ready(value.share())),
                None => match &self.failure {
                    Some(cause) => Some(WaitOutcome::Failed(Arc::clone(cause))),
                    None => None,
                },
            }
        } else if elapsed_ms >= deadline_ms {
            Some(WaitOutcome::TimedOut)
        } else {
            None
        }
    }
}

} // verus!
