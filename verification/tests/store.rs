use rustflight::coalescer::{begin, complete, get_or_compute, resume};
use rustflight::{CacheError, EntryState, HandleId, Step, Store, Value};
use std::sync::Arc;

fn pending(state: EntryState<u64>) -> HandleId {
    match state {
        EntryState::Pending(handle) => handle,
        other => panic!("expected a pending state, got {:?}", other),
    }
}

fn ready(state: Option<EntryState<u64>>) -> u64 {
    match state {
        Some(EntryState::Ready(value)) => *value.payload(),
        other => panic!("expected a ready state, got {:?}", other),
    }
}

#[test]
fn lookup_of_an_unknown_key_finds_nothing() {
    let store: Store<u64, String> = Store::new();
    assert!(store.lookup("k").is_none());
}

#[test]
fn insert_pending_if_absent_inserts_once() {
    let mut store: Store<u64, String> = Store::new();
    let (first, inserted) = store.insert_pending_if_absent("k".to_string());
    assert!(inserted);
    let handle = pending(first);
    let (second, inserted_again) = store.insert_pending_if_absent("k".to_string());
    assert!(!inserted_again);
    assert_eq!(pending(second), handle);
    assert_eq!(pending(store.lookup("k").unwrap()), handle);
    assert_eq!(store.key_of(handle).unwrap(), "k");
    assert_eq!(store.waiters(handle), 0);
    assert!(!store.entry(handle).unwrap().is_ready());
}

#[test]
fn insert_pending_if_absent_returns_a_ready_state_as_it_is() {
    let mut store: Store<u64, String> = Store::new();
    store.promote_to_ready("k".to_string(), Value::new(0, 4));
    let (state, inserted) = store.insert_pending_if_absent("k".to_string());
    assert!(!inserted);
    assert_eq!(ready(Some(state)), 4);
}

#[test]
fn different_keys_get_different_handles() {
    let mut store: Store<u64, String> = Store::new();
    let a = pending(store.insert_pending_if_absent("a".to_string()).0);
    let b = pending(store.insert_pending_if_absent("b".to_string()).0);
    assert_ne!(a, b);
    assert_eq!(store.key_of(a).unwrap(), "a");
    assert_eq!(store.key_of(b).unwrap(), "b");
}

#[test]
fn promote_to_ready_replaces_whatever_is_there() {
    let mut store: Store<u64, String> = Store::new();
    store.promote_to_ready("k".to_string(), Value::new(0, 1));
    assert_eq!(ready(store.lookup("k")), 1);
    store.promote_to_ready("k".to_string(), Value::new(0, 2));
    assert_eq!(ready(store.lookup("k")), 2);

    let handle = pending(store.insert_pending_if_absent("p".to_string()).0);
    store.promote_to_ready("p".to_string(), Value::new(0, 3));
    assert_eq!(ready(store.lookup("p")), 3);
    // The computation is still running: its caller holds the handle.
    assert_eq!(store.key_of(handle).unwrap(), "p");
}

#[test]
fn remove_deletes_the_slot_and_tolerates_unknown_keys() {
    let mut store: Store<u64, String> = Store::new();
    store.remove("k");
    store.promote_to_ready("k".to_string(), Value::new(0, 1));
    store.remove("other");
    assert_eq!(ready(store.lookup("k")), 1);
    store.remove("k");
    assert!(store.lookup("k").is_none());
}

#[test]
fn a_handle_lives_as_long_as_somebody_holds_it() {
    let mut store: Store<u64, String> = Store::new();
    let handle = pending(store.insert_pending_if_absent("k".to_string()).0);
    assert!(store.retain(handle));
    assert!(store.retain(handle));
    assert_eq!(store.waiters(handle), 2);

    // Evicted while in flight: the owner and the waiters still hold it.
    store.remove("k");
    assert!(store.entry(handle).is_some());

    assert!(store.mark_ready(handle, Value::new(0, 8)));
    assert!(store.entry(handle).unwrap().is_ready());
    assert!(store.release(handle));
    assert_eq!(store.waiters(handle), 1);
    assert!(store.release(handle));
    // The last holder has let go.
    assert!(store.entry(handle).is_none());
    assert!(store.key_of(handle).is_none());
    assert_eq!(store.waiters(handle), 0);
    assert!(!store.release(handle));
    assert!(!store.retain(handle));
}

#[test]
fn a_resolved_handle_is_kept_while_its_slot_points_to_it() {
    let mut store: Store<u64, String> = Store::new();
    let handle = pending(store.insert_pending_if_absent("k".to_string()).0);
    assert!(store.mark_ready(handle, Value::new(0, 8)));
    assert!(store.entry(handle).is_some());
    store.promote_to_ready("k".to_string(), Value::new(0, 8));
    assert!(store.entry(handle).is_none());
}

#[test]
fn a_handle_without_holders_goes_when_it_is_resolved() {
    let mut store: Store<u64, String> = Store::new();
    let handle = pending(store.insert_pending_if_absent("k".to_string()).0);
    store.remove("k");
    assert!(store.entry(handle).is_some());
    assert!(store.mark_failed(handle, Arc::new("gone".to_string())));
    assert!(store.entry(handle).is_none());
}

#[test]
fn a_handle_is_resolved_once() {
    let mut store: Store<u64, String> = Store::new();
    let handle = pending(store.insert_pending_if_absent("k".to_string()).0);
    assert!(store.retain(handle));
    assert!(store.mark_ready(handle, Value::new(0, 1)));
    assert!(!store.mark_ready(handle, Value::new(0, 2)));
    assert!(!store.mark_failed(handle, Arc::new("late".to_string())));
    match store.entry(handle).unwrap().wait(0, 10) {
        Some(rustflight::WaitOutcome::Ready(value)) => assert_eq!(*value.payload(), 1),
        other => panic!("expected the first value, got {:?}", other),
    }
}

#[test]
fn places_are_used_again() {
    let mut store: Store<u64, String> = Store::new();
    for round in 0..100u64 {
        let key = format!("k{}", round);
        let handle = pending(store.insert_pending_if_absent(key.clone()).0);
        assert!(store.retain(handle));
        assert!(store.mark_ready(handle, Value::new(0, round)));
        store.promote_to_ready(key.clone(), Value::new(0, round));
        assert!(store.release(handle));
        assert!(store.entry(handle).is_none());
        assert_eq!(ready(store.lookup(&key)), round);
    }
    let a = pending(store.insert_pending_if_absent("a".to_string()).0);
    let b = pending(store.insert_pending_if_absent("b".to_string()).0);
    assert_ne!(a, b);
    assert_eq!(store.key_of(a).unwrap(), "a");
    assert_eq!(store.key_of(b).unwrap(), "b");
}

#[test]
fn the_steps_of_a_call_on_a_bare_store() {
    let mut store: Store<u64, String> = Store::new();
    let owner = match begin(&mut store, "k".to_string(), 0, 50) {
        Step::Compute(ticket) => ticket,
        other => panic!("expected to compute, got {:?}", other),
    };
    let waiter = match begin(&mut store, "k".to_string(), 0, 50) {
        Step::Wait { ticket, remaining_ms } => {
            assert_eq!(remaining_ms, 50);
            ticket
        }
        other => panic!("expected to wait, got {:?}", other),
    };
    assert_eq!(store.waiters(owner.handle), 1);
    let waiter = match resume(&mut store, waiter, 20, 50) {
        Step::Wait { ticket, remaining_ms } => {
            assert_eq!(remaining_ms, 30);
            ticket
        }
        other => panic!("expected to wait on, got {:?}", other),
    };
    let handle = owner.handle;
    assert_eq!(*complete(&mut store, owner, Ok(6)).unwrap().payload(), 6);
    assert_eq!(ready(store.lookup("k")), 6);
    assert!(store.entry(handle).is_some());
    match resume(&mut store, waiter, 60, 50) {
        Step::Done(Ok(value)) => assert_eq!(*value.payload(), 6),
        other => panic!("expected the value, got {:?}", other),
    }
    assert!(store.entry(handle).is_none());
}

#[test]
fn a_slot_pending_on_a_resolved_handle_answers_a_caller_that_holds_the_store() {
    let mut store: Store<u64, String> = Store::new();
    let handle = pending(store.insert_pending_if_absent("k".to_string()).0);
    assert!(store.mark_ready(handle, Value::new(0, 5)));
    let got = get_or_compute(&mut store, "k".to_string(), 0, 10, || Ok(0)).unwrap();
    assert_eq!(*got.payload(), 5);
    assert_eq!(store.waiters(handle), 0);

    let failed = pending(store.insert_pending_if_absent("f".to_string()).0);
    assert!(store.mark_failed(failed, Arc::new("bad".to_string())));
    match get_or_compute(&mut store, "f".to_string(), 0, 10, || Ok(0)) {
        Err(CacheError::ComputationFailed(cause)) => assert_eq!(*cause, "bad"),
        other => panic!("expected the failure, got {:?}", other),
    }
}

#[test]
fn get_or_compute_on_a_bare_store() {
    let mut store: Store<u64, String> = Store::new();
    assert_eq!(*get_or_compute(&mut store, "k".to_string(), 0, 10, || Ok(1)).unwrap().payload(), 1);
    assert_eq!(*get_or_compute(&mut store, "k".to_string(), 0, 10, || Ok(2)).unwrap().payload(), 1);
    assert!(matches!(
        get_or_compute(&mut store, "k".to_string(), 9, 10, || Ok(2)),
        Err(CacheError::TypeMismatch)
    ));
    let _ = begin(&mut store, "p".to_string(), 0, 10);
    assert!(matches!(
        get_or_compute(&mut store, "p".to_string(), 0, 10, || Ok(2)),
        Err(CacheError::WaitTimeout)
    ));
}
