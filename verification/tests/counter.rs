//! The admission counter: a session bounded to N requests admits
//! exactly N of them and signals exhaustion exactly once.

use roof::counter::Counter;

#[test]
fn admits_exactly_n_of_more() {
    let mut counter = Counter::new(5);
    let mut admitted: u32 = 0;
    let mut signals: u32 = 0;
    let mut last_position: usize = 0;
    for call in 0..8usize {
        let (was_admitted, was_last) = counter.admit_one();
        if was_admitted {
            admitted += 1;
        }
        if was_last {
            signals += 1;
            last_position = call;
        }
    }
    assert_eq!(admitted, 5);
    assert_eq!(signals, 1);
    assert_eq!(last_position, 4);
    assert_eq!(counter.remaining(), -3);
}

#[test]
fn n_calls_consume_exactly_n() {
    let n: u64 = 7;
    let mut counter = Counter::new(n);
    let mut admitted: u64 = 0;
    let mut signals: u64 = 0;
    for _ in 0..n {
        let (was_admitted, was_last) = counter.admit_one();
        if was_admitted {
            admitted += 1;
        }
        if was_last {
            signals += 1;
        }
    }
    // The decrements sum to n: the counter lands exactly on zero.
    assert_eq!(counter.remaining(), 0);
    assert_eq!(admitted, n);
    assert_eq!(signals, 1);
}

#[test]
fn single_budget_signals_at_once() {
    let mut counter = Counter::new(1);
    let (was_admitted, was_last) = counter.admit_one();
    assert!(was_admitted);
    assert!(was_last);
    let (was_admitted, was_last) = counter.admit_one();
    assert!(!was_admitted);
    assert!(!was_last);
}
