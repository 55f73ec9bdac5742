use rustflight::{PyCache, Step};

#[test]
fn two_callers_interleaved_share_one_computation() {
    let mut cache: PyCache<i64, String> = PyCache::new(1000);
    let mut invocations = 0;

    let first = cache.begin("sum".to_string(), 0);
    let second = cache.begin("sum".to_string(), 0);
    let owner = match first {
        Step::Compute(ticket) => ticket,
        other => panic!("the first caller must compute, got {:?}", other),
    };
    let waiter = match second {
        Step::Wait { ticket, remaining_ms } => {
            assert_eq!(remaining_ms, 1000);
            ticket
        }
        other => panic!("the second caller must wait, got {:?}", other),
    };
    assert_eq!(waiter.handle, owner.handle);

    invocations += 1;
    let computed = cache.complete(owner, Ok(1 + 2)).unwrap();
    assert_eq!(*computed.payload(), 3);
    match cache.resume(waiter, 20) {
        Step::Done(Ok(value)) => assert_eq!(*value.payload(), 3),
        other => panic!("the waiter must receive the value, got {:?}", other),
    }
    assert_eq!(invocations, 1);

    cache.drop("sum".to_string());
    let again = cache.get_or_compute("sum".to_string(), 0, || Ok(10)).unwrap();
    assert_eq!(*again.payload(), 10);
}

fn randint(state: &mut u64, lower: i8, upper: i8) -> i32 {
    *state ^= *state << 13;
    *state ^= *state >> 7;
    *state ^= *state << 17;
    let span = (upper as i64 - lower as i64 + 1) as u64;
    lower as i32 + (*state % span) as i32
}

fn f(state: &mut u64, args: [i8; 2], kwargs: &[(&'static str, i16)]) -> Result<i32, String> {
    let multiplier = kwargs
        .iter()
        .find(|(name, _)| *name == "multiplier")
        .map(|(_, value)| *value as i32)
        .ok_or_else(|| "f() missing 1 required positional argument: 'multiplier'".to_string())?;
    Ok(randint(state, args[0], args[1]) * multiplier)
}

#[test]
fn a_second_call_returns_what_the_first_computed() {
    let mut pycache: PyCache<i32, String> = PyCache::new(10000);
    let args: [i8; 2] = [1, 10];
    let kwargs: [(&'static str, i16); 1] = [("multiplier", 100)];
    let test_key: String = "test".to_string();
    let mut state: u64 = 0x2545_f491_4f6c_dd1d;

    let _ = pycache.get_or_compute(test_key.clone(), 0, || f(&mut state, args, &kwargs));

    // Assert state of cache
    let cached_entry = pycache.lookup(&test_key, 0);
    assert_eq!(cached_entry.is_some(), true);
    let expected: i32 = *cached_entry.unwrap().unwrap().payload();
    assert!(expected >= 100 && expected <= 1000 && expected % 100 == 0);

    let actual = *pycache
        .get_or_compute(test_key, 0, || f(&mut state, args, &[]))
        .unwrap()
        .payload();

    assert_eq!(actual, expected);
}
