use rustflight::{CacheError, EntryHandle, Value, WaitOutcome};
use std::sync::Arc;

#[test]
fn a_pending_handle_is_not_ready() {
    let handle: EntryHandle<u64, String> = EntryHandle::pending();
    assert!(!handle.is_ready());
    assert!(handle.wait(0, 10).is_none());
    assert!(handle.wait(9, 10).is_none());
}

#[test]
fn a_pending_handle_times_out_at_its_deadline() {
    let handle: EntryHandle<u64, String> = EntryHandle::pending();
    assert!(matches!(handle.wait(10, 10), Some(WaitOutcome::TimedOut)));
    assert!(matches!(handle.wait(11, 10), Some(WaitOutcome::TimedOut)));
    assert!(matches!(handle.wait(0, 0), Some(WaitOutcome::TimedOut)));
    assert!(matches!(handle.wait(u64::MAX, u64::MAX), Some(WaitOutcome::TimedOut)));
    // A timeout leaves the handle as it was.
    assert!(!handle.is_ready());
}

#[test]
fn a_ready_handle_gives_its_value_to_every_waiter() {
    let mut handle: EntryHandle<u64, String> = EntryHandle::pending();
    let value = Value::new(2, 77);
    handle.mark_ready(value.share());
    assert!(handle.is_ready());
    for elapsed in [0, 5, 10, 1_000] {
        match handle.wait(elapsed, 10) {
            Some(WaitOutcome::Ready(seen)) => {
                assert_eq!(*seen.payload(), 77);
                assert_eq!(seen.type_id(), 2);
                assert!(Arc::ptr_eq(&seen.payload, &value.payload));
            }
            other => panic!("expected the value, got {:?}", other),
        }
    }
}

#[test]
fn a_failed_handle_gives_its_cause_to_every_waiter() {
    let mut handle: EntryHandle<u64, String> = EntryHandle::pending();
    let cause = Arc::new("broken".to_string());
    handle.mark_failed(Arc::clone(&cause));
    assert!(handle.is_ready());
    for elapsed in [0, 10, 11] {
        match handle.wait(elapsed, 10) {
            Some(WaitOutcome::Failed(seen)) => assert!(Arc::ptr_eq(&seen, &cause)),
            other => panic!("expected the failure, got {:?}", other),
        }
    }
}

#[test]
fn an_outcome_settles_into_the_result_of_the_call() {
    let value: Value<u64> = Value::new(4, 1);
    let same: Result<Value<u64>, CacheError<String>> = WaitOutcome::Ready(value.share()).settle(4);
    assert_eq!(*same.unwrap().payload(), 1);
    let other: Result<Value<u64>, CacheError<String>> = WaitOutcome::Ready(value).settle(5);
    assert!(matches!(other, Err(CacheError::TypeMismatch)));
    let failed: Result<Value<u64>, CacheError<String>> =
        WaitOutcome::Failed(Arc::new("x".to_string())).settle(4);
    match failed {
        Err(CacheError::ComputationFailed(cause)) => assert_eq!(*cause, "x"),
        other => panic!("expected the failure, got {:?}", other),
    }
    let timed_out: Result<Value<u64>, CacheError<String>> = WaitOutcome::TimedOut.settle(4);
    assert!(matches!(timed_out, Err(CacheError::WaitTimeout)));
}

#[test]
fn a_value_is_shared_and_not_copied() {
    let value: Value<Vec<u8>> = Value::new(9, vec![1, 2, 3]);
    assert_eq!(Arc::strong_count(&value.payload), 1);
    let second = value.share();
    assert_eq!(Arc::strong_count(&value.payload), 2);
    assert!(Arc::ptr_eq(&value.payload, &second.payload));
    assert_eq!(second.payload(), &vec![1, 2, 3]);
    assert_eq!(second.type_id(), 9);
    assert!(second.has_type(9));
    assert!(!second.has_type(0));
}

#[test]
fn errors_are_shared_with_their_cause() {
    let error: CacheError<String> = CacheError::ComputationFailed(Arc::new("why".to_string()));
    match (&error, error.share()) {
        (CacheError::ComputationFailed(first), CacheError::ComputationFailed(second)) => {
            assert!(Arc::ptr_eq(first, &second));
            assert_eq!(Arc::strong_count(first), 2);
        }
        other => panic!("expected two failures, got {:?}", other),
    }
    assert!(matches!(CacheError::<String>::WaitTimeout.share(), CacheError::WaitTimeout));
    assert!(matches!(CacheError::<String>::TypeMismatch.share(), CacheError::TypeMismatch));
    assert!(matches!(CacheError::<String>::LockCorrupted.share(), CacheError::LockCorrupted));
}

#[test]
fn only_timeouts_and_dropped_entries_are_worth_a_retry() {
    assert!(CacheError::<String>::WaitTimeout.is_retryable());
    assert!(CacheError::<String>::LockCorrupted.is_retryable());
    assert!(!CacheError::<String>::TypeMismatch.is_retryable());
    assert!(!CacheError::ComputationFailed(Arc::new("x".to_string())).is_retryable());
}
