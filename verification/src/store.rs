//! The keyed map and the handles of the computations that it has started.
//!
//! Handles live in an arena and are named by their place in it. A handle is
//! held by the caller that runs its computation, by each waiter, and by the
//! slot of its key while that slot is pending on it; the place is given back
//! when the last of them lets go.
use crate::handle::{EntryHandle, Resolution};
use crate::model::{EntryState, HandleId, HandleState, StoreState};
use crate::value::Value;
use std::sync::Arc;
use vstd::hash_map::StringHashMap;
use vstd::prelude::*;

verus! {

/// One place of the arena: the handle, the key it was created for, and the
/// number of waiters that hold it.
struct Shared<V, E> {
    key: String,
    entry: EntryHandle<V, E>,
    waiters: usize,
}

/// The map from keys to entry states, with the handles it has issued. Every
/// operation is one short step; none waits and none runs a computation.
#[verifier::reject_recursive_types(V)]
#[verifier::reject_recursive_types(E)]
pub struct Store<V, E> {
    slots: StringHashMap<EntryState<V>>,
    arena: Vec<Option<Shared<V, E>>>,
    free: Vec<usize>,
}

impl<V, E> Store<V, E> {
    /// What the store holds: the slots of its keys and the handles that
    /// somebody still holds.
    pub closed spec fn view(&self) -> StoreState<V, E> {
        StoreState {
            slots: self.slots@,
            handles: Map::new(
                |handle: HandleId|
                    handle.index < self.arena.len() && self.arena[handle.index as int] is Some,
                |handle: HandleId|
                    HandleState {
                        key: self.arena[handle.index as int]->0.key@,
                        entry: self.arena[handle.index as int]->0.entry@,
                        waiters: self.arena[handle.index as int]->0.waiters as nat,
                    },
            ),
        }
    }

    /// The arena is consistent: the free places are empty, each is listed
    /// once, and every handle in use is a consistent record.
    closed spec fn arena_ok(&self) -> bool {
        &&& forall|i: int|
            0 <= i < self.free.len() ==> (#[trigger] self.free[i]) < self.arena.len()
                && self.arena[self.free[i] as int] is None
        &&& forall|i: int, j: int|
            0 <= i < j < self.free.len() ==> self.free[i] != self.free[j]
        &&& forall|i: int|
            0 <= i < self.arena.len() && (#[trigger] self.arena[i]) is Some
                ==> self.arena[i]->0.entry.wf()
    }

    /// The store is consistent, inside and as its view shows it.
    pub closed spec fn wf(&self) -> bool {
        self.arena_ok() && self@.wf()
    }

    /// A consistent store has a consistent view.
    pub proof fn lemma_wf_view(&self)
        requires
            self.wf(),
        ensures
            self@.wf(),
    {
    }

    /// An empty store.
    pub fn new() -> (r: Self)
        ensures
            r.wf(),
            r@ == StoreState::<V, E>::empty(),
    {
        Store { slots: StringHashMap::new(), arena: Vec::new(), free: Vec::new() }
    }

    /// The state stored under `key`, if there is one.
    pub fn lookup(&self, key: &str) -> (r: Option<EntryState<V>>)
        ensures
            r == self@.lookup(key@),
    {
        match self.slots.get(key) {
            Some(state) => Some(state.share()),
            None => None,
        }
    }

    /// Puts a record into a free place of the arena and names it.
    fn allocate(&mut self, shared: Shared<V, E>) -> (handle: HandleId)
        requires
            old(self).arena_ok(),
            shared.entry.wf(),
        ensures
            final(self).arena_ok(),
            !old(self)@.live(handle),
            final(self)@.slots == old(self)@.slots,
            final(self)@.handles == old(self)@.handles.insert(
                handle,
                HandleState {
                    key: shared.key@,
                    entry: shared.entry@,
                    waiters: shared.waiters as nat,
                },
            ),
    {
        let index: usize = match self.free.pop() {
            Some(index) => {
                self.arena[index] = Some(shared);
                index
            },
            None => {
                self.arena.push(Some(shared));
                self.arena.len() - 1
            },
        };
        HandleId { index }
    }

    /// Whether the slot of the handle's key points to the handle.
    fn slot_holds(&self, handle: HandleId) -> (r: bool)
        requires
            self@.live(handle),
        ensures
            r == self@.slot_holds(handle),
    {
        match &self.arena[handle.index] {
            Some(shared) => match self.slots.get(shared.key.as_str()) {
                Some(EntryState::Pending(other)) => other.index == handle.index,
                _ => false,
            },
            None => false,
        }
    }

    /// Gives the handle's place back if nobody holds the handle any more.
    fn reclaim(&mut self, handle: HandleId)
        requires
            old(self).arena_ok(),
        ensures
            final(self).arena_ok(),
            final(self)@ == old(self)@.reclaim(handle),
    {
        if handle.index >= self.arena.len() {
            return ;
        }
        let unheld = match &self.arena[handle.index] {
            Some(shared) => shared.entry.is_ready() && shared.waiters == 0,
            None => false,
        };
        if unheld && !self.slot_holds(handle) {
            self.arena[handle.index] = None;
            self.free.push(handle.index);
        }
    }

    /// If `key` has no slot, starts a computation for it: creates a handle,
    /// stores `Pending` under the key and returns that state with `true`.
    /// If `key` has a slot, returns the state found there with `false` and
    /// changes nothing. The test and the insertion are one step.
    pub fn insert_pending_if_absent(&mut self, key: String) -> (r: (EntryState<V>, bool))
        requires
            old(self).wf(),
        ensures
            final(self).wf(),
            match old(self)@.lookup(key@) {
                Some(state) => r == (state, false) && final(self)@ == old(self)@,
                None => r.1 && (r.0 matches EntryState::Pending(handle) && !old(self)@.live(handle)
                    && final(self)@ == old(self)@.insert_pending(key@, handle)),
            },
    {
        match self.slots.get(key.as_str()) {
            Some(state) => {
                return (state.share(), false);
            },
            None => {},
        }
        let shared = Shared { key: key.clone(), entry: EntryHandle::pending(), waiters: 0 };
        let handle = self.allocate(shared);
        self.slots.insert(key, EntryState::Pending(handle));
        proof {
            old(self)@.lemma_insert_pending_wf(key@, handle);
        }
        (EntryState::Pending(handle), true)
    }

    /// Replaces whatever `key` stands for by `Ready` with `value`.
    pub fn promote_to_ready(&mut self, key: String, value: Value<V>)
        requires
            old(self).wf(),
        ensures
            final(self).wf(),
            final(self)@ == old(self)@.promote_to_ready(key@, value),
    {
        let was = self.pending_on(key.as_str());
        self.slots.insert(key, EntryState::Ready(value));
        match was {
            Some(handle) => self.reclaim(handle),
            None => {},
        }
        proof {
            old(self)@.lemma_promote_to_ready_wf(key@, value);
        }
    }

    /// Deletes the slot of `key`. A key without a slot is left as it is.
    pub fn remove(&mut self, key: &str)
        requires
            old(self).wf(),
        ensures
            final(self).wf(),
            final(self)@ == old(self)@.remove(key@),
    {
        let was = self.pending_on(key);
        self.slots.remove(key);
        match was {
            Some(handle) => self.reclaim(handle),
            None => {},
        }
        proof {
            old(self)@.lemma_remove_wf(key@);
        }
    }

    /// The handle that the slot of `key` is pending on, if it is pending.
    fn pending_on(&self, key: &str) -> (r: Option<HandleId>)
        ensures
            r == (match self@.lookup(key@) {
                Some(EntryState::Pending(handle)) => Some(handle),
                _ => None,
            }),
    {
        match self.slots.get(key) {
            Some(EntryState::Pending(handle)) => Some(*handle),
            _ => None,
        }
    }

    /// Counts one more waiter on the handle. Returns `false`, and changes
    /// nothing, for a handle that nobody holds or whose count is at its limit.
    pub fn retain(&mut self, handle: HandleId) -> (r: bool)
        requires
            old(self).wf(),
        ensures
            final(self).wf(),
            r == old(self)@.can_retain(handle),
            final(self)@ == (if r {
                old(self)@.retain(handle)
            } else {
                old(self)@
            }),
    {
        if handle.index >= self.arena.len() {
            return false;
        }
        let counted = match &mut self.arena[handle.index] {
            Some(shared) => if shared.waiters < usize::MAX {
                shared.waiters = shared.waiters + 1;
                true
            } else {
                false
            },
            None => false,
        };
        proof {
            if counted {
                assert(self@ =~= old(self)@.retain(handle));
                old(self)@.lemma_retain_wf(handle);
            } else {
                assert(self.arena@ =~= old(self).arena@);
            }
        }
        counted
    }

    /// One waiter lets go of the handle. Returns `false`, and changes
    /// nothing, for a handle on which no waiter is counted.
    pub fn release(&mut self, handle: HandleId) -> (r: bool)
        requires
            old(self).wf(),
        ensures
            final(self).wf(),
            r == old(self)@.can_release(handle),
            final(self)@ == (if r {
                old(self)@.release(handle)
            } else {
                old(self)@
            }),
    {
        if handle.index >= self.arena.len() {
            return false;
        }
        let counted = match &mut self.arena[handle.index] {
            Some(shared) => if shared.waiters > 0 {
                shared.waiters = shared.waiters - 1;
                true
            } else {
                false
            },
            None => false,
        };
        if counted {
            let ghost counted_down = self@;
            self.reclaim(handle);
            proof {
                assert(counted_down.reclaim(handle) =~= old(self)@.release(handle));
                old(self)@.lemma_release_wf(handle);
            }
        } else {
            proof {
                assert(self.arena@ =~= old(self).arena@);
            }
        }
        counted
    }

    /// Publishes `value` on the handle; the embedding wakes the waiters.
    /// Returns `false`, and changes nothing, for a handle that nobody holds
    /// or that is resolved already.
    pub fn mark_ready(&mut self, handle: HandleId, value: Value<V>) -> (r: bool)
        requires
            old(self).wf(),
        ensures
            final(self).wf(),
            r == old(self)@.can_resolve(handle),
            final(self)@ == (if r {
                old(self)@.resolve(handle, Resolution::Ready(value))
            } else {
                old(self)@
            }),
    {
        if handle.index >= self.arena.len() {
            return false;
        }
        let marked = match &mut self.arena[handle.index] {
            Some(shared) => if shared.entry.is_ready() {
                false
            } else {
                shared.entry.mark_ready(value);
                true
            },
            None => false,
        };
        if marked {
            let ghost resolved = self@;
            self.reclaim(handle);
            proof {
                assert(resolved.reclaim(handle) =~= old(self)@.resolve(handle, Resolution::Ready(value)));
                old(self)@.lemma_resolve_wf(handle, Resolution::Ready(value));
            }
        } else {
            proof {
                assert(self.arena@ =~= old(self).arena@);
            }
        }
        marked
    }

    /// Publishes the failure `cause` on the handle; the embedding wakes the
    /// waiters. Returns `false`, and changes nothing, for a handle that
    /// nobody holds or that is resolved already.
    pub fn mark_failed(&mut self, handle: HandleId, cause: Arc<E>) -> (r: bool)
        requires
            old(self).wf(),
        ensures
            final(self).wf(),
            r == old(self)@.can_resolve(handle),
            final(self)@ == (if r {
                old(self)@.resolve(handle, Resolution::Failed(cause))
            } else {
                old(self)@
            }),
    {
        if handle.index >= self.arena.len() {
            return false;
        }
        let marked = match &mut self.arena[handle.index] {
            Some(shared) => if shared.entry.is_ready() {
                false
            } else {
                shared.entry.mark_failed(cause);
                true
            },
            None => false,
        };
        if marked {
            let ghost resolved = self@;
            self.reclaim(handle);
            proof {
                assert(resolved.reclaim(handle) =~= old(self)@.resolve(handle, Resolution::Failed(cause)));
                old(self)@.lemma_resolve_wf(handle, Resolution::Failed(cause));
            }
        } else {
            proof {
                assert(self.arena@ =~= old(self).arena@);
            }
        }
        marked
    }

    /// The record of the handle, for a handle that somebody holds.
    pub fn entry(&self, handle: HandleId) -> (r: Option<&EntryHandle<V, E>>)
        requires
            self.wf(),
        ensures
            r is Some == self@.live(handle),
            r matches Some(entry) ==> entry.wf() && entry@ == self@.handles[handle].entry,
    {
        if handle.index >= self.arena.len() {
            return None;
        }
        match &self.arena[handle.index] {
            Some(shared) => Some(&shared.entry),
            None => None,
        }
    }

    /// The key that the handle was created for, for a handle that somebody
    /// holds.
    pub fn key_of(&self, handle: HandleId) -> (r: Option<String>)
        ensures
            r is Some == self@.live(handle),
            r matches Some(key) ==> key@ == self@.handles[handle].key,
    {
        if handle.index >= self.arena.len() {
            return None;
        }
        match &self.arena[handle.index] {
            Some(shared) => Some(shared.key.clone()),
            None => None,
        }
    }

    /// The number of waiters counted on the handle; none for a handle that
    /// nobody holds.
    pub fn waiters(&self, handle: HandleId) -> (r: usize)
        ensures
            r == (if self@.live(handle) {
                self@.handles[handle].waiters
            } else {
                0
            }),
    {
        if handle.index >= self.arena.len() {
            return 0;
        }
        match &self.arena[handle.index] {
            Some(shared) => shared.waiters,
            None => 0,
        }
    }
}

} // verus!
