//! The decisions of one call: return at once, wait, or compute.
//!
//! A call is made of short steps on the store, between which the embedding
//! does what cannot be done here: it runs the computation, or it blocks the
//! caller until the handle is resolved or the remaining time is over. No step
//! waits, so callers of other keys are never held up.
use crate::error::CacheError;
use crate::handle::{Resolution, WaitOutcome};
use crate::model::{EntryState, HandleId, StoreState};
use crate::store::Store;
use crate::value::Value;
use std::sync::Arc;
use vstd::prelude::*;

verus! {

/// The right of one waiter to look at a handle again. It is given up with the
/// call that ends the wait.
#[derive(Debug)]
pub struct WaitTicket {
    pub handle: HandleId,
    pub type_id: u64,
}

/// The duty of the one caller that runs the computation to hand in its
/// result.
#[derive(Debug)]
pub struct ComputeTicket {
    pub handle: HandleId,
    pub type_id: u64,
}

/// What the caller has to do next.
#[derive(Debug)]
pub enum Step<V, E> {
    /// The call is over, with this result.
    Done(Result<Value<V>, CacheError<E>>),
    /// Another caller runs the computation. Block until notified or until
    /// `remaining_ms` have passed, then call `resume` with the ticket.
    Wait { ticket: WaitTicket, remaining_ms: u64 },
    /// This caller owns the computation. Run it outside any lock, then call
    /// `complete` with the ticket and notify the waiters. The computation
    /// must not ask for its own key: it would wait for itself until its
    /// deadline.
    Compute(ComputeTicket),
}

impl<V, E> Step<V, E> {
    /// The handle that the step has created, where it is `Compute`.
    pub open spec fn issued(self) -> HandleId {
        match self {
            Step::Compute(ticket) => ticket.handle,
            _ => arbitrary(),
        }
    }
}

/// What a value read from a `Ready` slot is to a caller that expects
/// `type_id`.
pub open spec fn read_as<V, E>(value: Value<V>, type_id: u64) -> Result<Value<V>, CacheError<E>> {
    WaitOutcome::<V, E>::Ready(value).settled(type_id)
}

/// A caller asks for `key`. A `Ready` slot answers at once. A `Pending` slot
/// makes the caller a waiter on the handle, unless the handle cannot count
/// one more, which is reported as a wait that ended at once. A key without a
/// slot makes the caller the owner of a computation named `fresh`.
pub open spec fn begun<V, E>(
    store: StoreState<V, E>,
    key: Seq<char>,
    type_id: u64,
    fresh: HandleId,
    deadline_ms: u64,
) -> (StoreState<V, E>, Step<V, E>) {
    match store.lookup(key) {
        Some(EntryState::Ready(value)) => (store, Step::Done(read_as(value, type_id))),
        Some(EntryState::Pending(handle)) => if store.can_retain(handle) {
            (
                store.retain(handle),
                Step::Wait { ticket: WaitTicket { handle, type_id }, remaining_ms: deadline_ms },
            )
        } else {
            (store, Step::Done(Err(CacheError::WaitTimeout)))
        },
        None => (
            store.insert_pending(key, fresh),
            Step::Compute(ComputeTicket { handle: fresh, type_id }),
        ),
    }
}

/// A waiter looks at its handle after `elapsed_ms` of at most `deadline_ms`.
/// A resolved handle or a reached deadline ends the wait and the waiter lets
/// go of the handle; otherwise it waits on, for the time that is left. A
/// ticket for a handle on which no waiter is counted is refused.
pub open spec fn resumed<V, E>(
    store: StoreState<V, E>,
    ticket: WaitTicket,
    elapsed_ms: u64,
    deadline_ms: u64,
) -> (StoreState<V, E>, Step<V, E>) {
    if !store.can_release(ticket.handle) {
        (store, Step::Done(Err(CacheError::LockCorrupted)))
    } else {
        match store.handles[ticket.handle].entry.outcome(elapsed_ms, deadline_ms) {
            Some(outcome) => (
                store.release(ticket.handle),
                Step::Done(outcome.settled(ticket.type_id)),
            ),
            None => (
                store,
                Step::Wait { ticket, remaining_ms: (deadline_ms - elapsed_ms) as u64 },
            ),
        }
    }
}

/// The owner hands in the result of its computation. A value is published on
/// the handle and stored as `Ready` under the handle's key; a failure is
/// published on the handle and the slot of the key is deleted, so that a
/// later caller computes again. A ticket for a handle that is not waiting for
/// its result is refused.
pub open spec fn completed<V, E>(
    store: StoreState<V, E>,
    ticket: ComputeTicket,
    result: Result<V, E>,
) -> (StoreState<V, E>, Result<Value<V>, CacheError<E>>) {
    if !store.can_resolve(ticket.handle) {
        (store, Err(CacheError::LockCorrupted))
    } else {
        let key = store.handles[ticket.handle].key;
        match result {
            Ok(payload) => {
                let value = Value::tagged(ticket.type_id, payload);
                (
                    store.resolve(ticket.handle, Resolution::Ready(value)).promote_to_ready(
                        key,
                        value,
                    ),
                    Ok(value),
                )
            },
            Err(failure) => {
                let cause = Arc::new(failure);
                (
                    store.resolve(ticket.handle, Resolution::Failed(cause)).remove(key),
                    Err(CacheError::ComputationFailed(cause)),
                )
            },
        }
    }
}

/// The slot of `key` is deleted. No handle is touched: a computation in
/// flight for the key goes on, and its waiters still receive its result.
pub open spec fn evicted<V, E>(store: StoreState<V, E>, key: Seq<char>) -> StoreState<V, E> {
    StoreState { slots: store.slots.remove(key), handles: store.handles }
}

/// In a store where no key is pending on a resolved handle, to evict a key
/// is to remove its slot, and the store stays consistent.
pub proof fn lemma_evicted_wf<V, E>(store: StoreState<V, E>, key: Seq<char>)
    requires
        store.wf(),
        store.coherent(),
    ensures
        evicted(store, key) == store.remove(key),
        evicted(store, key).wf(),
        evicted(store, key).coherent(),
{
    store.lemma_remove_wf(key);
}

/// `begun` keeps a consistent store consistent.
pub proof fn lemma_begun_wf<V, E>(
    store: StoreState<V, E>,
    key: Seq<char>,
    type_id: u64,
    fresh: HandleId,
    deadline_ms: u64,
)
    requires
        store.wf(),
        store.lookup(key) is None ==> !store.live(fresh),
    ensures
        begun(store, key, type_id, fresh, deadline_ms).0.wf(),
        store.coherent() ==> begun(store, key, type_id, fresh, deadline_ms).0.coherent(),
{
    match store.lookup(key) {
        Some(EntryState::Pending(handle)) => if store.can_retain(handle) {
            store.lemma_retain_wf(handle);
        },
        _ => {},
    }
}

/// `resumed` keeps a consistent store consistent.
pub proof fn lemma_resumed_wf<V, E>(
    store: StoreState<V, E>,
    ticket: WaitTicket,
    elapsed_ms: u64,
    deadline_ms: u64,
)
    requires
        store.wf(),
    ensures
        resumed(store, ticket, elapsed_ms, deadline_ms).0.wf(),
        store.coherent() ==> resumed(store, ticket, elapsed_ms, deadline_ms).0.coherent(),
{
    if store.can_release(ticket.handle) {
        store.lemma_release_wf(ticket.handle);
    }
}

/// `completed` keeps a consistent store consistent.
pub proof fn lemma_completed_wf<V, E>(
    store: StoreState<V, E>,
    ticket: ComputeTicket,
    result: Result<V, E>,
)
    requires
        store.wf(),
    ensures
        completed(store, ticket, result).0.wf(),
        store.coherent() ==> completed(store, ticket, result).0.coherent(),
{
    if store.can_resolve(ticket.handle) {
        let key = store.handles[ticket.handle].key;
        let entry: Resolution<V, E> = match result {
            Ok(payload) => Resolution::Ready(Value::tagged(ticket.type_id, payload)),
            Err(failure) => Resolution::Failed(Arc::new(failure)),
        };
        store.lemma_resolve_wf(ticket.handle, entry);
        match result {
            Ok(payload) => store.resolve(ticket.handle, entry).lemma_promote_to_ready_wf(
                key,
                Value::tagged(ticket.type_id, payload),
            ),
            Err(failure) => store.resolve(ticket.handle, entry).lemma_remove_wf(key),
        }
    }
}

/// The first step of a call for `key` by a caller that expects `type_id` and
/// waits at most `deadline_ms`.
pub fn begin<V, E>(store: &mut Store<V, E>, key: String, type_id: u64, deadline_ms: u64) -> (step:
    Step<V, E>)
    requires
        old(store).wf(),
    ensures
        final(store).wf(),
        (final(store)@, step) == begun(old(store)@, key@, type_id, step.issued(), deadline_ms),
        step is Compute ==> !old(store)@.live(step.issued()),
        old(store)@.coherent() ==> final(store)@.coherent(),
{
    proof {
        old(store).lemma_wf_view();
    }
    let (state, inserted) = store.insert_pending_if_absent(key);
    let step = match state {
        EntryState::Ready(value) => Step::Done(WaitOutcome::Ready(value).settle(type_id)),
        EntryState::Pending(handle) => if inserted {
            Step::Compute(ComputeTicket { handle, type_id })
        } else if store.retain(handle) {
            Step::Wait { ticket: WaitTicket { handle, type_id }, remaining_ms: deadline_ms }
        } else {
            Step::Done(Err(CacheError::WaitTimeout))
        },
    };
    proof {
        lemma_begun_wf(old(store)@, key@, type_id, step.issued(), deadline_ms);
    }
    step
}

/// The next step of a waiter that has waited `elapsed_ms` in all.
pub fn resume<V, E>(
    store: &mut Store<V, E>,
    ticket: WaitTicket,
    elapsed_ms: u64,
    deadline_ms: u64,
) -> (step: Step<V, E>)
    requires
        old(store).wf(),
    ensures
        final(store).wf(),
        (final(store)@, step) == resumed(old(store)@, ticket, elapsed_ms, deadline_ms),
        old(store)@.coherent() ==> final(store)@.coherent(),
{
    proof {
        old(store).lemma_wf_view();
        lemma_resumed_wf(old(store)@, ticket, elapsed_ms, deadline_ms);
    }
    if store.waiters(ticket.handle) == 0 {
        return Step::Done(Err(CacheError::LockCorrupted));
    }
    let outcome = match store.entry(ticket.handle) {
        Some(entry) => entry.wait(elapsed_ms, deadline_ms),
        None => {
            return Step::Done(Err(CacheError::LockCorrupted));
        },
    };
    match outcome {
        Some(outcome) => {
            store.release(ticket.handle);
            Step::Done(outcome.settle(ticket.type_id))
        },
        None => Step::Wait { ticket, remaining_ms: deadline_ms - elapsed_ms },
    }
}

/// The last step of the caller that ran the computation, with what the
/// computation returned.
pub fn complete<V, E>(store: &mut Store<V, E>, ticket: ComputeTicket, result: Result<V, E>) -> (r:
    Result<Value<V>, CacheError<E>>)
    requires
        old(store).wf(),
    ensures
        final(store).wf(),
        (final(store)@, r) == completed(old(store)@, ticket, result),
        old(store)@.coherent() ==> final(store)@.coherent(),
{
    proof {
        old(store).lemma_wf_view();
        lemma_completed_wf(old(store)@, ticket, result);
    }
    let waiting = match store.entry(ticket.handle) {
        Some(entry) => !entry.is_ready(),
        None => false,
    };
    if !waiting {
        return Err(CacheError::LockCorrupted);
    }
    let key = match store.key_of(ticket.handle) {
        Some(key) => key,
        None => {
            return Err(CacheError::LockCorrupted);
        },
    };
    match result {
        Ok(payload) => {
            let value = Value::new(ticket.type_id, payload);
            store.mark_ready(ticket.handle, value.share());
            store.promote_to_ready(key, value.share());
            Ok(value)
        },
        Err(failure) => {
            let cause = Arc::new(failure);
            store.mark_failed(ticket.handle, Arc::clone(&cause));
            store.remove(key.as_str());
            Err(CacheError::ComputationFailed(cause))
        },
    }
}

/// What a caller learns that finds `key` pending on `handle` while nobody
/// else can act: the resolution, if the handle happens to be resolved, and a
/// timeout otherwise.
pub open spec fn waited_out<V, E>(
    store: StoreState<V, E>,
    handle: HandleId,
    type_id: u64,
) -> Result<Value<V>, CacheError<E>> {
    if store.can_retain(handle) {
        match store.handles[handle].entry {
            Resolution::Ready(value) => read_as(value, type_id),
            Resolution::Failed(cause) => Err(CacheError::ComputationFailed(cause)),
            Resolution::Unresolved => Err(CacheError::WaitTimeout),
        }
    } else {
        Err(CacheError::WaitTimeout)
    }
}

/// A whole call by a caller that has the store to itself. A `Ready` key
/// is answered from the store and `computation` is not run. A key without a
/// slot is computed: `computation` runs once, its value is stored and
/// returned, its failure is returned and leaves the key without a slot. A
/// key that is pending cannot be resolved while this caller has the store, so
/// the wait is over at once.
pub fn get_or_compute<V, E, F: FnOnce() -> Result<V, E>>(
    store: &mut Store<V, E>,
    key: String,
    type_id: u64,
    deadline_ms: u64,
    computation: F,
) -> (r: Result<Value<V>, CacheError<E>>)
    requires
        old(store).wf(),
        computation.requires(()),
    ensures
        final(store).wf(),
        old(store)@.coherent() ==> final(store)@.coherent(),
        match old(store)@.lookup(key@) {
            Some(EntryState::Ready(value)) => final(store)@ == old(store)@ && r == read_as::<V, E>(
                value,
                type_id,
            ),
            Some(EntryState::Pending(handle)) => final(store)@ == old(store)@ && r == waited_out(
                old(store)@,
                handle,
                type_id,
            ),
            None => final(store)@.handles == old(store)@.handles && (match r {
                Ok(value) => value.type_id == type_id && computation.ensures(
                    (),
                    Ok(*value.payload),
                ) && final(store)@.slots == old(store)@.slots.insert(key@, EntryState::Ready(value)),
                Err(CacheError::ComputationFailed(cause)) => computation.ensures((), Err(*cause))
                    && final(store)@.slots == old(store)@.slots,
                Err(_) => false,
            }),
        },
{
    proof {
        old(store).lemma_wf_view();
    }
    match begin(store, key, type_id, deadline_ms) {
        Step::Done(result) => result,
        Step::Compute(ticket) => {
            let result = computation();
            complete(store, ticket, result)
        },
        Step::Wait { ticket, remaining_ms } => match resume(
            store,
            ticket,
            deadline_ms,
            deadline_ms,
        ) {
            Step::Done(result) => result,
            _ => Err(CacheError::WaitTimeout),
        },
    }
}

} // verus!
