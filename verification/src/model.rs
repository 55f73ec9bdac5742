//! The cache as a mathematical object: which key stands for what, which
//! computations are known and who still holds them, and what each primitive
//! of the store does to both.
use crate::handle::Resolution;
use crate::value::Value;
use vstd::prelude::*;

verus! {

/// The name of one computation's handle. A name is issued when the
/// computation starts and means nothing once the last holder has let go.
#[derive(Clone, Copy, Debug, PartialEq, Eq)]
pub struct HandleId {
    pub(crate) index: usize,
}

/// What the store holds under a key.
#[derive(Debug)]
pub enum EntryState<V> {
    /// A computation has started and is not known to be resolved.
    Pending(HandleId),
    /// The computation has been resolved with this value.
    Ready(Value<V>),
}

impl<V> EntryState<V> {
    /// The same state once more; a value is shared by reference.
    pub fn share(&self) -> (r: Self)
        ensures
            r == *self,
    {
        match self {
            EntryState::Pending(handle) => EntryState::Pending(*handle),
            EntryState::Ready(value) => EntryState::Ready(value.share()),
        }
    }
}

/// One handle as the contracts see it: the key it was created for, what it
/// stands for, and how many waiters hold it.
#[verifier::ext_equal]
pub struct HandleState<V, E> {
    pub key: Seq<char>,
    pub entry: Resolution<V, E>,
    pub waiters: nat,
}

/// The store as the contracts see it. `handles` holds exactly the handles
/// that somebody still holds.
#[verifier::ext_equal]
pub struct StoreState<V, E> {
    pub slots: Map<Seq<char>, EntryState<V>>,
    pub handles: Map<HandleId, HandleState<V, E>>,
}

impl<V, E> StoreState<V, E> {
    /// The store that holds nothing.
    pub open spec fn empty() -> Self {
        StoreState { slots: Map::empty(), handles: Map::empty() }
    }

    /// What is stored under `key`, if anything.
    pub open spec fn lookup(self, key: Seq<char>) -> Option<EntryState<V>> {
        if self.slots.contains_key(key) {
            Some(self.slots[key])
        } else {
            None
        }
    }

    /// The handle is known to the store.
    pub open spec fn live(self, handle: HandleId) -> bool {
        self.handles.contains_key(handle)
    }

    /// The slot of the handle's key still points to the handle.
    pub open spec fn slot_holds(self, handle: HandleId) -> bool {
        self.lookup(self.handles[handle].key) == Some(EntryState::<V>::Pending(handle))
    }

    /// Somebody holds the handle: the caller that runs the computation (until
    /// it resolves the handle), a waiter, or the slot of its key.
    pub open spec fn held(self, handle: HandleId) -> bool {
        ||| self.handles[handle].entry is Unresolved
        ||| self.handles[handle].waiters > 0
        ||| self.slot_holds(handle)
    }

    /// Forgets the handle if nobody holds it any more.
    pub open spec fn reclaim(self, handle: HandleId) -> Self {
        if self.live(handle) && !self.held(handle) {
            StoreState { slots: self.slots, handles: self.handles.remove(handle) }
        } else {
            self
        }
    }

    /// Every pending slot points to a live handle that was created for its
    /// key, and every live handle is held by somebody.
    pub open spec fn wf(self) -> bool {
        &&& forall|key: Seq<char>| #[trigger]
            self.slots.contains_key(key) ==> (self.slots[key] matches EntryState::Pending(handle)
                ==> self.live(handle) && self.handles[handle].key == key)
        &&& forall|handle: HandleId| #[trigger] self.handles.contains_key(handle) ==> self.held(handle)
    }

    /// No slot is pending on a handle that has been resolved.
    pub open spec fn coherent(self) -> bool {
        forall|key: Seq<char>| #[trigger]
            self.slots.contains_key(key) ==> (self.slots[key] matches EntryState::Pending(handle)
                ==> self.handles[handle].entry is Unresolved)
    }

    /// A computation for `key` starts under the name `fresh`.
    pub open spec fn insert_pending(self, key: Seq<char>, fresh: HandleId) -> Self {
        StoreState {
            slots: self.slots.insert(key, EntryState::Pending(fresh)),
            handles: self.handles.insert(
                fresh,
                HandleState { key, entry: Resolution::Unresolved, waiters: 0 },
            ),
        }
    }

    /// The store `next`, in which the slot of `key` has been overwritten or
    /// deleted, once the handle that the slot was pending on has lost the
    /// slot as a holder.
    pub open spec fn released_slot(self, key: Seq<char>, next: Self) -> Self {
        match self.lookup(key) {
            Some(EntryState::Pending(handle)) => next.reclaim(handle),
            _ => next,
        }
    }

    /// The slot of `key` becomes `Ready` with `value`, whatever it was.
    pub open spec fn promote_to_ready(self, key: Seq<char>, value: Value<V>) -> Self {
        self.released_slot(
            key,
            StoreState {
                slots: self.slots.insert(key, EntryState::Ready(value)),
                handles: self.handles,
            },
        )
    }

    /// The slot of `key` is deleted, whatever it was.
    pub open spec fn remove(self, key: Seq<char>) -> Self {
        self.released_slot(
            key,
            StoreState { slots: self.slots.remove(key), handles: self.handles },
        )
    }

    /// Whether one more waiter can be counted on the handle.
    pub open spec fn can_retain(self, handle: HandleId) -> bool {
        self.live(handle) && self.handles[handle].waiters < usize::MAX
    }

    /// One more waiter holds the handle.
    pub open spec fn retain(self, handle: HandleId) -> Self {
        let held = self.handles[handle];
        StoreState {
            slots: self.slots,
            handles: self.handles.insert(
                handle,
                HandleState { key: held.key, entry: held.entry, waiters: held.waiters + 1 },
            ),
        }
    }

    /// Whether a waiter is counted on the handle.
    pub open spec fn can_release(self, handle: HandleId) -> bool {
        self.live(handle) && self.handles[handle].waiters > 0
    }

    /// One waiter lets go of the handle.
    pub open spec fn release(self, handle: HandleId) -> Self {
        let held = self.handles[handle];
        StoreState {
            slots: self.slots,
            handles: self.handles.insert(
                handle,
                HandleState {
                    key: held.key,
                    entry: held.entry,
                    waiters: (held.waiters - 1) as nat,
                },
            ),
        }.reclaim(handle)
    }

    /// Whether the handle can still be resolved.
    pub open spec fn can_resolve(self, handle: HandleId) -> bool {
        self.live(handle) && self.handles[handle].entry is Unresolved
    }

    /// The computation ends with `entry`; the caller that ran it lets go of
    /// the handle.
    pub open spec fn resolve(self, handle: HandleId, entry: Resolution<V, E>) -> Self {
        let held = self.handles[handle];
        StoreState {
            slots: self.slots,
            handles: self.handles.insert(
                handle,
                HandleState { key: held.key, entry, waiters: held.waiters },
            ),
        }.reclaim(handle)
    }

    /// Starting a computation for a key without a slot, under a name that is
    /// not in use, keeps the store consistent.
    pub proof fn lemma_insert_pending_wf(self, key: Seq<char>, fresh: HandleId)
        requires
            self.wf(),
            !self.slots.contains_key(key),
            !self.live(fresh),
        ensures
            self.insert_pending(key, fresh).wf(),
            self.coherent() ==> self.insert_pending(key, fresh).coherent(),
    {
    }

    /// Storing a value under a key keeps the store consistent.
    pub proof fn lemma_promote_to_ready_wf(self, key: Seq<char>, value: Value<V>)
        requires
            self.wf(),
        ensures
            self.promote_to_ready(key, value).wf(),
            self.coherent() ==> self.promote_to_ready(key, value).coherent(),
    {
    }

    /// Deleting the slot of a key keeps the store consistent.
    pub proof fn lemma_remove_wf(self, key: Seq<char>)
        requires
            self.wf(),
        ensures
            self.remove(key).wf(),
            self.coherent() ==> self.remove(key).coherent(),
    {
    }

    /// Counting one more waiter keeps the store consistent.
    pub proof fn lemma_retain_wf(self, handle: HandleId)
        requires
            self.wf(),
            self.live(handle),
        ensures
            self.retain(handle).wf(),
            self.coherent() ==> self.retain(handle).coherent(),
    {
    }

    /// A waiter that lets go keeps the store consistent.
    pub proof fn lemma_release_wf(self, handle: HandleId)
        requires
            self.wf(),
            self.can_release(handle),
        ensures
            self.release(handle).wf(),
            self.coherent() ==> self.release(handle).coherent(),
    {
    }

    /// Resolving a handle keeps the store consistent. A slot may then be
    /// pending on a resolved handle, until it is overwritten or deleted.
    pub proof fn lemma_resolve_wf(self, handle: HandleId, entry: Resolution<V, E>)
        requires
            self.wf(),
            self.can_resolve(handle),
            !(entry is Unresolved),
        ensures
            self.resolve(handle, entry).wf(),
    {
    }
}

} // verus!
