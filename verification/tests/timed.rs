use std::time::{Duration, Instant};

use things_todo::timed::TimedValue;

struct Tester {
    number: i32,
}

#[test]
fn is_value_mut_actually_needed() {
    let mut tester = Tester { number: 0 };
    {
        let tester_ref: &mut Tester = &mut tester;
        tester_ref.number = 1;
    }
    assert_eq!(tester.number, 1);
    let mut timed_ref: TimedValue<&mut Tester> =
        TimedValue::new(&mut tester, Instant::now() + Duration::from_secs(10000));
    timed_ref.value_mut().unwrap().number = 2;
    assert_eq!(tester.number, 2);
}

#[test]
fn value_readable_before_expiration() {
    let timed = TimedValue::new(7_u32, Instant::now() + Duration::from_secs(10000));
    assert_eq!(*timed.value().unwrap(), 7);
    assert!(timed.valid());
    assert!(!timed.expired());
}

#[test]
fn value_unreadable_after_expiration() {
    let mut timed = TimedValue::new(7_u32, Instant::now());
    assert!(timed.expired());
    assert!(!timed.valid());
    assert!(timed.value().is_none());
    assert!(timed.value_mut().is_none());
}

#[test]
fn set_value_replaces() {
    let mut timed = TimedValue::new(1_u32, Instant::now() + Duration::from_secs(10000));
    timed.set_value(9);
    assert_eq!(*timed.value().unwrap(), 9);
}

#[test]
fn expiration_can_move() {
    let past = Instant::now();
    let future = past + Duration::from_secs(10000);
    let mut timed = TimedValue::new(3_u32, past);
    assert!(timed.expired());
    timed.set_expiration(future);
    assert_eq!(timed.expiration(), future);
    assert!(timed.valid());
}

#[test]
fn extend_expiration_pushes_out() {
    let start = Instant::now();
    let mut timed = TimedValue::new(3_u32, start);
    timed.extend_expiration(Duration::from_secs(10000));
    assert_eq!(timed.expiration(), start + Duration::from_secs(10000));
    assert!(timed.valid());
}
