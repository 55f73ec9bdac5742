//! The cache as its users see it.
use crate::coalescer::{
    begin, begun, complete, completed, evicted, get_or_compute, lemma_evicted_wf, read_as, resume,
    resumed, ComputeTicket, Step, WaitTicket,
};
use crate::error::CacheError;
use crate::handle::WaitOutcome;
use crate::model::{EntryState, StoreState};
use crate::store::Store;
use crate::value::Value;
use vstd::prelude::*;

verus! {

/// A cache of computed values by key, in which at most one computation per
/// key is in flight. It is made with the time, in milliseconds, that a caller
/// is willing to wait for a computation that another caller runs.
///
/// The cache does not block and does not run computations on its own: see
/// [`begin`](PyCache::begin), [`resume`](PyCache::resume) and
/// [`complete`](PyCache::complete) for the steps of a call that is shared
/// between threads, and [`get_or_compute`](PyCache::get_or_compute) for a call by a caller
/// that has the cache to itself.
#[verifier::reject_recursive_types(V)]
#[verifier::reject_recursive_types(E)]
pub struct PyCache<V, E> {
    store: Store<V, E>,
    timeout: u64,
}

impl<V, E> PyCache<V, E> {
    /// What the cache holds: the slots of its keys and the handles of the
    /// computations that somebody still holds.
    pub closed spec fn view(&self) -> StoreState<V, E> {
        self.store@
    }

    /// The bound on every wait, in milliseconds.
    pub closed spec fn timeout_ms(&self) -> u64 {
        self.timeout
    }

    /// The store is consistent, and no key is pending on a handle that has
    /// been resolved.
    pub closed spec fn wf(&self) -> bool {
        self.store.wf() && self.store@.coherent()
    }

    /// What a consistent cache shows in its view.
    pub proof fn lemma_wf_view(&self)
        requires
            self.wf(),
        ensures
            self@.wf(),
            self@.coherent(),
    {
        self.store.lemma_wf_view();
    }

    /// An empty cache whose callers wait at most `timeout` milliseconds.
    pub fn new(timeout: u64) -> (r: Self)
        ensures
            r.wf(),
            r@ == StoreState::<V, E>::empty(),
            r.timeout_ms() == timeout,
    {
        Self { store: Store::new(), timeout }
    }

    /// The bound on every wait, in milliseconds.
    pub fn timeout(&self) -> (r: u64)
        ensures
            r == self.timeout_ms(),
    {
        self.timeout
    }

    /// The answer for a key that is `Ready`, without any change to the
    /// cache; `None` for a key that is pending or has no slot.
    pub fn lookup(&self, key: &str, type_id: u64) -> (r: Option<Result<Value<V>, CacheError<E>>>)
        ensures
            r == (match self@.lookup(key@) {
                Some(EntryState::Ready(value)) => Some(read_as::<V, E>(value, type_id)),
                _ => None,
            }),
    {
        match self.store.lookup(key) {
            Some(EntryState::Ready(value)) => Some(WaitOutcome::Ready(value).settle(type_id)),
            _ => None,
        }
    }

    /// The first step of a call for `key` by a caller that expects a value of
    /// type `type_id`.
    pub fn begin(&mut self, key: String, type_id: u64) -> (step: Step<V, E>)
        requires
            old(self).wf(),
        ensures
            final(self).wf(),
            final(self).timeout_ms() == old(self).timeout_ms(),
            (final(self)@, step) == begun(
                old(self)@,
                key@,
                type_id,
                step.issued(),
                old(self).timeout_ms(),
            ),
            step is Compute ==> !old(self)@.live(step.issued()),
    {
        begin(&mut self.store, key, type_id, self.timeout)
    }

    /// The next step of a waiter that has waited `elapsed_ms` since its call
    /// began.
    pub fn resume(&mut self, ticket: WaitTicket, elapsed_ms: u64) -> (step: Step<V, E>)
        requires
            old(self).wf(),
        ensures
            final(self).wf(),
            final(self).timeout_ms() == old(self).timeout_ms(),
            (final(self)@, step) == resumed(
                old(self)@,
                ticket,
                elapsed_ms,
                old(self).timeout_ms(),
            ),
    {
        resume(&mut self.store, ticket, elapsed_ms, self.timeout)
    }

    /// The last step of the caller that ran the computation, with what the
    /// computation returned.
    pub fn complete(&mut self, ticket: ComputeTicket, result: Result<V, E>) -> (r: Result<
        Value<V>,
        CacheError<E>,
    >)
        requires
            old(self).wf(),
        ensures
            final(self).wf(),
            final(self).timeout_ms() == old(self).timeout_ms(),
            (final(self)@, r) == completed(old(self)@, ticket, result),
    {
        complete(&mut self.store, ticket, result)
    }

    /// One whole call by a caller that has the cache to itself. A `Ready`
    /// key is answered from the cache, and `computation` is not run. A key
    /// without a slot is computed: `computation` runs once; its value is
    /// stored and returned; its failure is returned, and the key is left
    /// without a slot. A key that is pending stays so for as long as this
    /// caller has the cache: the call ends as a wait that timed out.
    pub fn get_or_compute<F: FnOnce() -> Result<V, E>>(
        &mut self,
        key: String,
        type_id: u64,
        computation: F,
    ) -> (r: Result<Value<V>, CacheError<E>>)
        requires
            old(self).wf(),
            computation.requires(()),
        ensures
            final(self).wf(),
            final(self).timeout_ms() == old(self).timeout_ms(),
            match old(self)@.lookup(key@) {
                Some(EntryState::Ready(value)) => final(self)@ == old(self)@ && r == read_as::<
                    V,
                    E,
                >(value, type_id),
                Some(EntryState::Pending(handle)) => final(self)@ == old(self)@ && r == Err::<
                    Value<V>,
                    CacheError<E>,
                >(CacheError::WaitTimeout),
                None => final(self)@.handles == old(self)@.handles && (match r {
                    Ok(value) => value.type_id == type_id && computation.ensures(
                        (),
                        Ok(*value.payload),
                    ) && final(self)@.slots == old(self)@.slots.insert(
                        key@,
                        EntryState::Ready(value),
                    ),
                    Err(CacheError::ComputationFailed(cause)) => computation.ensures(
                        (),
                        Err(*cause),
                    ) && final(self)@.slots == old(self)@.slots,
                    Err(_) => false,
                }),
            },
    {
        proof {
            old(self).lemma_wf_view();
        }
        get_or_compute(&mut self.store, key, type_id, self.timeout, computation)
    }

    /// Evicts `key`: its slot is deleted, whatever it held. A key without a
    /// slot is left as it is. Handles are not touched: a computation in
    /// flight for the key goes on, and its waiters still receive its result.
    pub fn drop(&mut self, key: String)
        requires
            old(self).wf(),
        ensures
            final(self).wf(),
            final(self).timeout_ms() == old(self).timeout_ms(),
            final(self)@ == evicted(old(self)@, key@),
    {
        proof {
            old(self).lemma_wf_view();
            lemma_evicted_wf(old(self)@, key@);
        }
        self.store.remove(key.as_str());
    }

    /// The guard of `key` was found corrupted: the entry is not to be
    /// trusted. Its slot is deleted, so that the next caller computes afresh,
    /// and the error to hand to the present caller is returned.
    pub fn lock_corrupted(&mut self, key: &str) -> (r: CacheError<E>)
        requires
            old(self).wf(),
        ensures
            final(self).wf(),
            final(self).timeout_ms() == old(self).timeout_ms(),
            final(self)@ == evicted(old(self)@, key@),
            r is LockCorrupted,
    {
        proof {
            old(self).lemma_wf_view();
            lemma_evicted_wf(old(self)@, key@);
        }
        self.store.remove(key);
        CacheError::LockCorrupted
    }
}

} // verus!
