//! What holds of the cache whatever its callers do, stated over the steps
//! that the contracts of the cache speak of.
use crate::coalescer::{
    begun, completed, evicted, lemma_begun_wf, lemma_completed_wf, lemma_evicted_wf,
    lemma_resumed_wf, read_as, resumed, ComputeTicket, Step, WaitTicket,
};
use crate::error::CacheError;
use crate::handle::Resolution;
use crate::model::{EntryState, HandleId, StoreState};
use crate::value::Value;
use vstd::prelude::*;

verus! {

/// One step taken by some caller of the cache.
pub enum Call<V, E> {
    /// A caller asks for `key`; `fresh` is the name that its computation
    /// gets if the call starts one.
    Begin { key: Seq<char>, type_id: u64, fresh: HandleId },
    /// A waiter looks at its handle again.
    Resume { waiter: WaitTicket, elapsed_ms: u64 },
    /// The caller that ran a computation hands in its result.
    Complete { owner: ComputeTicket, result: Result<V, E> },
    /// A key is evicted, at a caller's wish or because its guard was found
    /// corrupted.
    Evict { key: Seq<char> },
}

/// The store after the step.
pub open spec fn after<V, E>(store: StoreState<V, E>, call: Call<V, E>, deadline_ms: u64) -> StoreState<
    V,
    E,
> {
    match call {
        Call::Begin { key, type_id, fresh } => begun(store, key, type_id, fresh, deadline_ms).0,
        Call::Resume { waiter, elapsed_ms } => resumed(store, waiter, elapsed_ms, deadline_ms).0,
        Call::Complete { owner, result } => completed(store, owner, result).0,
        Call::Evict { key } => evicted(store, key),
    }
}

/// The result that the step hands to its caller, if the step ends a call.
pub open spec fn answer<V, E>(store: StoreState<V, E>, call: Call<V, E>, deadline_ms: u64) -> Option<
    Result<Value<V>, CacheError<E>>,
> {
    match call {
        Call::Begin { key, type_id, fresh } => match begun(
            store,
            key,
            type_id,
            fresh,
            deadline_ms,
        ).1 {
            Step::Done(result) => Some(result),
            _ => None,
        },
        Call::Resume { waiter, elapsed_ms } => match resumed(
            store,
            waiter,
            elapsed_ms,
            deadline_ms,
        ).1 {
            Step::Done(result) => Some(result),
            _ => None,
        },
        Call::Complete { owner, result } => Some(completed(store, owner, result).1),
        Call::Evict { key } => None,
    }
}

/// The step makes its caller run the computation.
pub open spec fn starts<V, E>(store: StoreState<V, E>, call: Call<V, E>, deadline_ms: u64) -> bool {
    call matches Call::Begin { key, type_id, fresh } && begun(
        store,
        key,
        type_id,
        fresh,
        deadline_ms,
    ).1 is Compute
}

/// The step is taken for `key`: it asks for the key or evicts it, or it
/// presents a ticket for a handle that was created for the key.
pub open spec fn concerns<V, E>(store: StoreState<V, E>, call: Call<V, E>, key: Seq<char>) -> bool {
    match call {
        Call::Begin { key: asked, type_id, fresh } => asked == key,
        Call::Resume { waiter, elapsed_ms } => store.live(waiter.handle)
            && store.handles[waiter.handle].key == key,
        Call::Complete { owner, result } => store.live(owner.handle)
            && store.handles[owner.handle].key == key,
        Call::Evict { key: evicted } => evicted == key,
    }
}

/// The name that a step brings for a new computation is not in use.
pub open spec fn allowed<V, E>(store: StoreState<V, E>, call: Call<V, E>) -> bool {
    call matches Call::Begin { key, type_id, fresh } ==> (store.lookup(key) is None ==> !store.live(
        fresh,
    ))
}

/// Every step keeps a consistent cache consistent.
pub proof fn lemma_after_wf<V, E>(store: StoreState<V, E>, call: Call<V, E>, deadline_ms: u64)
    requires
        store.wf(),
        store.coherent(),
        allowed(store, call),
    ensures
        after(store, call, deadline_ms).wf(),
        after(store, call, deadline_ms).coherent(),
{
    match call {
        Call::Begin { key, type_id, fresh } => lemma_begun_wf(
            store,
            key,
            type_id,
            fresh,
            deadline_ms,
        ),
        Call::Resume { waiter, elapsed_ms } => lemma_resumed_wf(
            store,
            waiter,
            elapsed_ms,
            deadline_ms,
        ),
        Call::Complete { owner, result } => lemma_completed_wf(store, owner, result),
        Call::Evict { key } => lemma_evicted_wf(store, key),
    }
}

/// Post-ready is free. A caller that asks for a key that is `Ready` is
/// answered at once from the store: it is neither told to compute nor told to
/// wait, and the cache is left as it was.
pub proof fn law_ready_is_free<V, E>(
    store: StoreState<V, E>,
    key: Seq<char>,
    value: Value<V>,
    type_id: u64,
    fresh: HandleId,
    deadline_ms: u64,
)
    requires
        store.lookup(key) == Some(EntryState::Ready(value)),
    ensures
        begun(store, key, type_id, fresh, deadline_ms) == (
            store,
            Step::<V, E>::Done(read_as(value, type_id)),
        ),
        value.type_id == type_id ==> begun(store, key, type_id, fresh, deadline_ms).1 == Step::<
            V,
            E,
        >::Done(Ok(value)),
{
}

/// A value stays. What is stored as `Ready` under a key changes by two
/// steps only: the eviction of the key, and the completion of a computation
/// that was started for the key. Calls for the key, waiters on its handles
/// and whatever happens to other keys leave the value where it is.
pub proof fn law_ready_stays<V, E>(
    store: StoreState<V, E>,
    call: Call<V, E>,
    key: Seq<char>,
    value: Value<V>,
    deadline_ms: u64,
)
    requires
        store.wf(),
        store.coherent(),
        allowed(store, call),
        store.lookup(key) == Some(EntryState::Ready(value)),
        !(call is Evict && concerns(store, call, key)),
        !(call is Complete && concerns(store, call, key)),
    ensures
        after(store, call, deadline_ms).lookup(key) == Some(EntryState::Ready(value)),
{
}

/// Eviction enables retry. After a key that was `Ready` is evicted, the next
/// caller is told to compute; the value that it hands in is what it gets back
/// and what later callers are answered with, not the value from before.
pub proof fn law_eviction_enables_retry<V, E>(
    store: StoreState<V, E>,
    key: Seq<char>,
    type_id: u64,
    fresh: HandleId,
    payload: V,
    deadline_ms: u64,
)
    requires
        store.wf(),
        store.coherent(),
        store.lookup(key) is Some,
        store.lookup(key)->0 is Ready,
        !store.live(fresh),
    ensures
        ({
            let ticket = ComputeTicket { handle: fresh, type_id };
            let value = Value::tagged(type_id, payload);
            let (started, step) = begun(evicted(store, key), key, type_id, fresh, deadline_ms);
            let (finished, result) = completed(started, ticket, Ok::<V, E>(payload));
            &&& step == Step::<V, E>::Compute(ticket)
            &&& result == Ok::<Value<V>, CacheError<E>>(value)
            &&& finished.lookup(key) == Some(EntryState::Ready(value))
            &&& finished.handles == store.handles
            &&& begun(finished, key, type_id, fresh, deadline_ms).1 == Step::<V, E>::Done(Ok(value))
        }),
{
}

/// Timeout isolation. While a key is pending, a waiter whose deadline has
/// passed is answered with `WaitTimeout`, and that changes neither the slot
/// nor the handle. When the computation then hands in its value, another
/// waiter on the same handle receives that value, however long it has
/// waited.
pub proof fn law_timeout_isolation<V, E>(
    store: StoreState<V, E>,
    key: Seq<char>,
    handle: HandleId,
    impatient: WaitTicket,
    patient: WaitTicket,
    elapsed_ms: u64,
    later_ms: u64,
    payload: V,
    deadline_ms: u64,
)
    requires
        store.wf(),
        store.coherent(),
        store.lookup(key) == Some(EntryState::<V>::Pending(handle)),
        store.handles[handle].waiters >= 2,
        impatient.handle == handle,
        patient.handle == handle,
        elapsed_ms >= deadline_ms,
    ensures
        ({
            let owner = ComputeTicket { handle, type_id: patient.type_id };
            let value = Value::tagged(patient.type_id, payload);
            let (timed_out, first) = resumed(store, impatient, elapsed_ms, deadline_ms);
            let (finished, result) = completed(timed_out, owner, Ok::<V, E>(payload));
            let (last, second) = resumed(finished, patient, later_ms, deadline_ms);
            &&& first == Step::<V, E>::Done(Err(CacheError::WaitTimeout))
            &&& timed_out.slots == store.slots
            &&& timed_out.live(handle)
            &&& timed_out.handles[handle].entry == store.handles[handle].entry
            &&& result == Ok::<Value<V>, CacheError<E>>(value)
            &&& second == Step::<V, E>::Done(Ok(value))
        }),
{
}

/// A handle outlives its slot. A waiter that holds a handle still receives
/// the result of the computation after the key has been evicted: eviction
/// touches the slot only.
pub proof fn law_handle_outlives_slot<V, E>(
    store: StoreState<V, E>,
    key: Seq<char>,
    handle: HandleId,
    waiter: WaitTicket,
    elapsed_ms: u64,
    payload: V,
    deadline_ms: u64,
)
    requires
        store.wf(),
        store.coherent(),
        store.lookup(key) == Some(EntryState::<V>::Pending(handle)),
        store.handles[handle].waiters >= 1,
        waiter.handle == handle,
    ensures
        ({
            let owner = ComputeTicket { handle, type_id: waiter.type_id };
            let value = Value::tagged(waiter.type_id, payload);
            let gone = evicted(store, key);
            let (finished, result) = completed(gone, owner, Ok::<V, E>(payload));
            &&& gone.lookup(key) is None
            &&& gone.handles == store.handles
            &&& result == Ok::<Value<V>, CacheError<E>>(value)
            &&& finished.lookup(key) == Some(EntryState::Ready(value))
            &&& resumed(finished, waiter, elapsed_ms, deadline_ms).1 == Step::<V, E>::Done(
                Ok(value),
            )
        }),
{
}

/// Key independence, as a frame. A step that is not taken for `key` changes
/// neither what is stored under `key` nor any handle that was created for
/// `key`, and it creates no handle for `key`.
pub proof fn law_key_independence<V, E>(
    store: StoreState<V, E>,
    call: Call<V, E>,
    key: Seq<char>,
    deadline_ms: u64,
)
    requires
        store.wf(),
        store.coherent(),
        allowed(store, call),
        !concerns(store, call, key),
    ensures
        after(store, call, deadline_ms).lookup(key) == store.lookup(key),
        forall|handle: HandleId|
            store.live(handle) && store.handles[handle].key == key ==> after(
                store,
                call,
                deadline_ms,
            ).live(handle) && #[trigger] after(store, call, deadline_ms).handles[handle]
                == store.handles[handle],
        forall|handle: HandleId|
            #[trigger] after(store, call, deadline_ms).live(handle) && after(
                store,
                call,
                deadline_ms,
            ).handles[handle].key == key ==> store.live(handle),
{
}

/// Key independence, as the caller sees it. Whatever is pending under other
/// keys, a caller that asks for a key without a slot is told to compute at
/// once, and the value that it hands in is stored and returned; no other key
/// is touched by either step.
pub proof fn law_other_keys_do_not_delay<V, E>(
    store: StoreState<V, E>,
    key: Seq<char>,
    type_id: u64,
    fresh: HandleId,
    payload: V,
    deadline_ms: u64,
)
    requires
        store.wf(),
        store.lookup(key) is None,
        !store.live(fresh),
    ensures
        ({
            let ticket = ComputeTicket { handle: fresh, type_id };
            let value = Value::tagged(type_id, payload);
            let (started, step) = begun(store, key, type_id, fresh, deadline_ms);
            let (finished, result) = completed(started, ticket, Ok::<V, E>(payload));
            &&& step == Step::<V, E>::Compute(ticket)
            &&& result == Ok::<Value<V>, CacheError<E>>(value)
            &&& finished.slots == store.slots.insert(key, EntryState::Ready(value))
            &&& finished.handles == store.handles
            &&& forall|other: Seq<char>|
                other != key ==> #[trigger] started.lookup(other) == store.lookup(other)
                    && finished.lookup(other) == store.lookup(other)
        }),
{
}

/// The store before the step of number `i` of `calls`, when the steps are
/// taken in order from `store`.
pub open spec fn state_before<V, E>(
    store: StoreState<V, E>,
    calls: Seq<Call<V, E>>,
    deadline_ms: u64,
    i: nat,
) -> StoreState<V, E>
    decreases i,
{
    if i == 0 {
        store
    } else {
        after(state_before(store, calls, deadline_ms, (i - 1) as nat), calls[i - 1], deadline_ms)
    }
}

/// The step takes the key's computation back: it evicts the key, or it
/// reports that a computation for the key has failed.
pub open spec fn disturbs<V, E>(store: StoreState<V, E>, call: Call<V, E>, key: Seq<char>) -> bool {
    concerns(store, call, key) && (call is Evict || (call matches Call::Complete { owner, result }
        && result is Err))
}

/// The step of number `i` brings an unused name and leaves the key's
/// computation alone.
pub open spec fn step_ok<V, E>(
    store: StoreState<V, E>,
    calls: Seq<Call<V, E>>,
    deadline_ms: u64,
    key: Seq<char>,
    i: int,
) -> bool {
    let now = state_before(store, calls, deadline_ms, i as nat);
    allowed(now, calls[i]) && !disturbs(now, calls[i], key)
}

/// No step of `calls` evicts `key` or reports a failure for it.
pub open spec fn undisturbed<V, E>(
    store: StoreState<V, E>,
    calls: Seq<Call<V, E>>,
    deadline_ms: u64,
    key: Seq<char>,
) -> bool {
    forall|i: int| 0 <= i < calls.len() ==> #[trigger] step_ok(store, calls, deadline_ms, key, i)
}

/// Nothing is known of the key: it has no slot and no handle.
pub open spec fn unborn<V, E>(store: StoreState<V, E>, key: Seq<char>) -> bool {
    &&& store.lookup(key) is None
    &&& forall|handle: HandleId| #[trigger] store.live(handle) ==> store.handles[handle].key != key
}

/// The key is pending, on the only handle that there is for it.
pub open spec fn flying<V, E>(store: StoreState<V, E>, key: Seq<char>) -> bool {
    &&& store.lookup(key) matches Some(EntryState::Pending(owner))
    &&& forall|handle: HandleId|
        #[trigger] store.live(handle) && store.handles[handle].key == key ==> handle == owner
}

/// The key is `Ready`, and every handle that is left for it holds the value
/// of the slot.
pub open spec fn landed<V, E>(store: StoreState<V, E>, key: Seq<char>) -> bool {
    &&& store.lookup(key) matches Some(EntryState::Ready(value))
    &&& forall|handle: HandleId|
        #[trigger] store.live(handle) && store.handles[handle].key == key
            ==> store.handles[handle].entry == Resolution::<V, E>::Ready(value)
}

/// The key is in one of the three states that an undisturbed key goes
/// through.
pub open spec fn orderly<V, E>(store: StoreState<V, E>, key: Seq<char>) -> bool {
    unborn(store, key) || flying(store, key) || landed(store, key)
}

/// One undisturbed step takes the key from one of its three states to the
/// same or the next; once the key has landed its value stays; and a value
/// answered for the key is the value on which it has landed.
proof fn lemma_step_orderly<V, E>(
    store: StoreState<V, E>,
    call: Call<V, E>,
    key: Seq<char>,
    deadline_ms: u64,
)
    requires
        store.wf(),
        store.coherent(),
        allowed(store, call),
        !disturbs(store, call, key),
        orderly(store, key),
    ensures
        orderly(after(store, call, deadline_ms), key),
        unborn(store, key) && !concerns(store, call, key) ==> unborn(
            after(store, call, deadline_ms),
            key,
        ),
        landed(store, key) ==> landed(after(store, call, deadline_ms), key) && after(
            store,
            call,
            deadline_ms,
        ).lookup(key) == store.lookup(key),
        concerns(store, call, key) ==> (answer(store, call, deadline_ms) matches Some(Ok(value))
            ==> landed(after(store, call, deadline_ms), key) && after(
            store,
            call,
            deadline_ms,
        ).lookup(key) == Some(EntryState::Ready(value))),
{
    if !concerns(store, call, key) {
        lemma_step_orderly_other(store, call, key, deadline_ms);
    } else {
        match call {
            Call::Begin { key: asked, type_id, fresh } => {
                lemma_begin_orderly(store, key, type_id, fresh, deadline_ms);
            },
            Call::Resume { waiter, elapsed_ms } => {
                lemma_resume_orderly(store, waiter, elapsed_ms, key, deadline_ms);
            },
            Call::Complete { owner, result } => {
                lemma_complete_orderly(store, owner, result->Ok_0, key);
            },
            Call::Evict { key: evicted } => {},
        }
    }
}

/// A step for another key leaves the key in the state it is in.
proof fn lemma_step_orderly_other<V, E>(
    store: StoreState<V, E>,
    call: Call<V, E>,
    key: Seq<char>,
    deadline_ms: u64,
)
    requires
        store.wf(),
        store.coherent(),
        allowed(store, call),
        !concerns(store, call, key),
    ensures
        after(store, call, deadline_ms).lookup(key) == store.lookup(key),
        unborn(store, key) ==> unborn(after(store, call, deadline_ms), key),
        flying(store, key) ==> flying(after(store, call, deadline_ms), key),
        landed(store, key) ==> landed(after(store, call, deadline_ms), key),
{
    law_key_independence(store, call, key, deadline_ms);
}

/// A call for the key takes it from unborn to flying and leaves it as it is
/// otherwise; it is answered with a value only where the key has landed.
proof fn lemma_begin_orderly<V, E>(
    store: StoreState<V, E>,
    key: Seq<char>,
    type_id: u64,
    fresh: HandleId,
    deadline_ms: u64,
)
    requires
        store.wf(),
        store.coherent(),
        store.lookup(key) is None ==> !store.live(fresh),
        orderly(store, key),
    ensures
        ({
            let (next, step) = begun(store, key, type_id, fresh, deadline_ms);
            &&& unborn(store, key) ==> flying(next, key) && !(step is Done)
            &&& flying(store, key) ==> flying(next, key) && !(step matches Step::Done(Ok(_)))
            &&& landed(store, key) ==> next == store
            &&& step matches Step::Done(Ok(value)) ==> store.lookup(key) == Some(
                EntryState::Ready(value),
            )
        }),
{
    let next = begun(store, key, type_id, fresh, deadline_ms).0;
    assert forall|handle: HandleId| #[trigger]
        next.live(handle) && next.handles[handle].key == key implies store.live(handle) || handle
        == fresh by {}
}

/// A waiter on a handle of the key learns a value only where the key has
/// landed, and leaves the key in the state that it is in.
proof fn lemma_resume_orderly<V, E>(
    store: StoreState<V, E>,
    waiter: WaitTicket,
    elapsed_ms: u64,
    key: Seq<char>,
    deadline_ms: u64,
)
    requires
        store.wf(),
        store.coherent(),
        orderly(store, key),
        store.live(waiter.handle),
        store.handles[waiter.handle].key == key,
    ensures
        ({
            let (next, step) = resumed(store, waiter, elapsed_ms, deadline_ms);
            &&& next.lookup(key) == store.lookup(key)
            &&& !unborn(store, key)
            &&& flying(store, key) ==> flying(next, key) && !(step matches Step::Done(Ok(_)))
            &&& landed(store, key) ==> landed(next, key) && (step matches Step::Done(Ok(value))
                ==> store.lookup(key) == Some(EntryState::Ready(value)))
        }),
{
    let next = resumed(store, waiter, elapsed_ms, deadline_ms).0;
    assert forall|handle: HandleId| #[trigger]
        next.live(handle) && next.handles[handle].key == key implies store.live(handle) by {}
}

/// The value handed in for a handle of the key lands the key on it, if the
/// key is flying; where the key has landed already, nothing changes.
proof fn lemma_complete_orderly<V, E>(
    store: StoreState<V, E>,
    owner: ComputeTicket,
    payload: V,
    key: Seq<char>,
)
    requires
        store.wf(),
        store.coherent(),
        orderly(store, key),
        store.live(owner.handle),
        store.handles[owner.handle].key == key,
    ensures
        ({
            let (next, result) = completed(store, owner, Ok::<V, E>(payload));
            &&& !unborn(store, key)
            &&& landed(next, key)
            &&& landed(store, key) ==> next == store && result is Err
            &&& result matches Ok(value) ==> next.lookup(key) == Some(EntryState::Ready(value))
        }),
{
    let next = completed(store, owner, Ok::<V, E>(payload)).0;
    assert forall|handle: HandleId| #[trigger]
        next.live(handle) && next.handles[handle].key == key implies store.live(handle) by {}
}

/// A handle keeps the key that it was created for.
proof fn lemma_step_keeps_key<V, E>(
    store: StoreState<V, E>,
    call: Call<V, E>,
    handle: HandleId,
    deadline_ms: u64,
)
    requires
        store.live(handle),
        after(store, call, deadline_ms).live(handle),
        allowed(store, call),
    ensures
        after(store, call, deadline_ms).handles[handle].key == store.handles[handle].key,
{
}

/// Along undisturbed steps the cache stays consistent and the key stays in
/// one of its three states.
proof fn lemma_trace_orderly<V, E>(
    store: StoreState<V, E>,
    calls: Seq<Call<V, E>>,
    key: Seq<char>,
    deadline_ms: u64,
    i: nat,
)
    requires
        store.wf(),
        store.coherent(),
        orderly(store, key),
        undisturbed(store, calls, deadline_ms, key),
        i <= calls.len(),
    ensures
        state_before(store, calls, deadline_ms, i).wf(),
        state_before(store, calls, deadline_ms, i).coherent(),
        orderly(state_before(store, calls, deadline_ms, i), key),
    decreases i,
{
    if i > 0 {
        let earlier = (i - 1) as nat;
        lemma_trace_orderly(store, calls, key, deadline_ms, earlier);
        let now = state_before(store, calls, deadline_ms, earlier);
        assert(step_ok(store, calls, deadline_ms, key, earlier as int));
        lemma_after_wf(now, calls[earlier as int], deadline_ms);
        lemma_step_orderly(now, calls[earlier as int], key, deadline_ms);
    }
}

/// Once the key has landed, it stays landed on the same value.
proof fn lemma_landed_stays<V, E>(
    store: StoreState<V, E>,
    calls: Seq<Call<V, E>>,
    key: Seq<char>,
    deadline_ms: u64,
    i: nat,
    j: nat,
)
    requires
        store.wf(),
        store.coherent(),
        orderly(store, key),
        undisturbed(store, calls, deadline_ms, key),
        i <= j <= calls.len(),
        landed(state_before(store, calls, deadline_ms, i), key),
    ensures
        landed(state_before(store, calls, deadline_ms, j), key),
        state_before(store, calls, deadline_ms, j).lookup(key) == state_before(
            store,
            calls,
            deadline_ms,
            i,
        ).lookup(key),
    decreases j,
{
    if i < j {
        let earlier = (j - 1) as nat;
        lemma_landed_stays(store, calls, key, deadline_ms, i, earlier);
        lemma_trace_orderly(store, calls, key, deadline_ms, earlier);
        let now = state_before(store, calls, deadline_ms, earlier);
        assert(step_ok(store, calls, deadline_ms, key, earlier as int));
        lemma_step_orderly(now, calls[earlier as int], key, deadline_ms);
    }
}

/// Single value. Take a key of which nothing is known, and let callers take
/// any steps in any order, none of which evicts the key or reports a failure
/// for it. Then any two values that are answered for the key, at whatever
/// steps and to whichever callers, are the same value.
pub proof fn law_single_value<V, E>(
    store: StoreState<V, E>,
    calls: Seq<Call<V, E>>,
    key: Seq<char>,
    deadline_ms: u64,
    i: int,
    j: int,
    first: Value<V>,
    second: Value<V>,
)
    requires
        store.wf(),
        store.coherent(),
        unborn(store, key),
        undisturbed(store, calls, deadline_ms, key),
        0 <= i < j < calls.len(),
        concerns(state_before(store, calls, deadline_ms, i as nat), calls[i], key),
        concerns(state_before(store, calls, deadline_ms, j as nat), calls[j], key),
        answer(state_before(store, calls, deadline_ms, i as nat), calls[i], deadline_ms) == Some(
            Ok::<Value<V>, CacheError<E>>(first),
        ),
        answer(state_before(store, calls, deadline_ms, j as nat), calls[j], deadline_ms) == Some(
            Ok::<Value<V>, CacheError<E>>(second),
        ),
    ensures
        first == second,
{
    let at_i = state_before(store, calls, deadline_ms, i as nat);
    let at_j = state_before(store, calls, deadline_ms, j as nat);
    lemma_trace_orderly(store, calls, key, deadline_ms, i as nat);
    lemma_step_orderly(at_i, calls[i], key, deadline_ms);
    let next = (i + 1) as nat;
    lemma_landed_stays(store, calls, key, deadline_ms, next, j as nat);
    lemma_trace_orderly(store, calls, key, deadline_ms, j as nat);
    lemma_step_orderly(at_j, calls[j], key, deadline_ms);
}

/// While no step disturbs the key, a slot that the key has is kept.
proof fn lemma_slot_stays<V, E>(
    store: StoreState<V, E>,
    calls: Seq<Call<V, E>>,
    key: Seq<char>,
    deadline_ms: u64,
    i: nat,
    j: nat,
)
    requires
        store.wf(),
        store.coherent(),
        undisturbed(store, calls, deadline_ms, key),
        i <= j <= calls.len(),
        state_before(store, calls, deadline_ms, i).lookup(key) is Some,
    ensures
        state_before(store, calls, deadline_ms, j).lookup(key) is Some,
    decreases j,
{
    if i < j {
        let earlier = (j - 1) as nat;
        lemma_slot_stays(store, calls, key, deadline_ms, i, earlier);
        lemma_trace_wf(store, calls, key, deadline_ms, earlier);
        let now = state_before(store, calls, deadline_ms, earlier);
        let call = calls[earlier as int];
        assert(step_ok(store, calls, deadline_ms, key, earlier as int));
        if !concerns(now, call, key) {
            law_key_independence(now, call, key, deadline_ms);
        }
    }
}

/// Along steps that bring unused names the cache stays consistent.
proof fn lemma_trace_wf<V, E>(
    store: StoreState<V, E>,
    calls: Seq<Call<V, E>>,
    key: Seq<char>,
    deadline_ms: u64,
    i: nat,
)
    requires
        store.wf(),
        store.coherent(),
        undisturbed(store, calls, deadline_ms, key),
        i <= calls.len(),
    ensures
        state_before(store, calls, deadline_ms, i).wf(),
        state_before(store, calls, deadline_ms, i).coherent(),
    decreases i,
{
    if i > 0 {
        let earlier = (i - 1) as nat;
        lemma_trace_wf(store, calls, key, deadline_ms, earlier);
        assert(step_ok(store, calls, deadline_ms, key, earlier as int));
        lemma_after_wf(
            state_before(store, calls, deadline_ms, earlier),
            calls[earlier as int],
            deadline_ms,
        );
    }
}

/// Single execution. Let callers take any steps in any order, none of which
/// evicts the key or reports a failure for it. Then at most one of the calls
/// for the key is told to run the computation: of any two steps, not both
/// start it.
pub proof fn law_single_execution<V, E>(
    store: StoreState<V, E>,
    calls: Seq<Call<V, E>>,
    key: Seq<char>,
    deadline_ms: u64,
    i: int,
    j: int,
)
    requires
        store.wf(),
        store.coherent(),
        undisturbed(store, calls, deadline_ms, key),
        0 <= i < j < calls.len(),
        concerns(state_before(store, calls, deadline_ms, i as nat), calls[i], key),
        concerns(state_before(store, calls, deadline_ms, j as nat), calls[j], key),
    ensures
        !(starts(state_before(store, calls, deadline_ms, i as nat), calls[i], deadline_ms)
            && starts(state_before(store, calls, deadline_ms, j as nat), calls[j], deadline_ms)),
{
    let at_i = state_before(store, calls, deadline_ms, i as nat);
    if starts(at_i, calls[i], deadline_ms) {
        let next = (i + 1) as nat;
        lemma_slot_stays(store, calls, key, deadline_ms, next, j as nat);
    }
}

/// The first caller computes. Take a key of which nothing is known, and let
/// callers take any steps in any order, none of which evicts the key or
/// reports a failure for it. Then the first call for the key is told to run
/// the computation.
pub proof fn law_first_caller_computes<V, E>(
    store: StoreState<V, E>,
    calls: Seq<Call<V, E>>,
    key: Seq<char>,
    deadline_ms: u64,
    i: int,
)
    requires
        store.wf(),
        store.coherent(),
        unborn(store, key),
        undisturbed(store, calls, deadline_ms, key),
        0 <= i < calls.len(),
        calls[i] is Begin,
        calls[i]->Begin_key == key,
        forall|k: int| 0 <= k < i ==> !(#[trigger] calls[k] is Begin && calls[k]->Begin_key == key),
    ensures
        starts(state_before(store, calls, deadline_ms, i as nat), calls[i], deadline_ms),
{
    lemma_unborn_until_asked(store, calls, key, deadline_ms, i as nat);
}

/// Until somebody asks for it, nothing is known of the key.
proof fn lemma_unborn_until_asked<V, E>(
    store: StoreState<V, E>,
    calls: Seq<Call<V, E>>,
    key: Seq<char>,
    deadline_ms: u64,
    i: nat,
)
    requires
        store.wf(),
        store.coherent(),
        unborn(store, key),
        undisturbed(store, calls, deadline_ms, key),
        i <= calls.len(),
        forall|k: int| 0 <= k < i ==> !(#[trigger] calls[k] is Begin && calls[k]->Begin_key == key),
    ensures
        unborn(state_before(store, calls, deadline_ms, i), key),
    decreases i,
{
    if i > 0 {
        let earlier = (i - 1) as nat;
        lemma_unborn_until_asked(store, calls, key, deadline_ms, earlier);
        lemma_trace_wf(store, calls, key, deadline_ms, earlier);
        let now = state_before(store, calls, deadline_ms, earlier);
        let call = calls[earlier as int];
        assert(step_ok(store, calls, deadline_ms, key, earlier as int));
        lemma_step_orderly(now, call, key, deadline_ms);
    }
}

} // verus!
