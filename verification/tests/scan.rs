use arcu::epoch_counters::{
    admit_entry, admit_exit, first_pass, next_pass, wait_for_epochs, Awaited,
    EpochCounter, EpochCounterPool, EpochViolation, Scan,
};
use std::sync::Arc;

fn pool_of_four() -> [Arc<EpochCounter>; 4] {
    std::array::from_fn(|_| Arc::new(EpochCounter::new()))
}

#[test]
fn new_counter_is_at_rest_at_epoch_zero() {
    let counter = EpochCounter::new();
    assert_eq!(counter.get_epoch(), 0);
    let counter = EpochCounter::default();
    assert_eq!(counter.get_epoch(), 0);
}

#[test]
fn enter_and_leave_increment_by_one_each() {
    let counter = EpochCounter::new();
    // each gives the epoch that its increment displaced
    assert_eq!(counter.enter_rcs(), Ok(0));
    assert_eq!(counter.get_epoch(), 1);
    assert_eq!(counter.leave_rcs(), Ok(1));
    assert_eq!(counter.get_epoch(), 2);
    assert_eq!(counter.enter_rcs(), Ok(2));
    assert_eq!(counter.leave_rcs(), Ok(3));
    assert_eq!(counter.get_epoch(), 4);
}

#[test]
fn entering_twice_is_a_violation() {
    let counter = EpochCounter::new();
    assert!(counter.enter_rcs().is_ok());
    assert_eq!(counter.enter_rcs(), Err(EpochViolation::EnteredWhileActive { found: 1 }));
}

#[test]
fn leaving_at_rest_is_a_violation() {
    let counter = EpochCounter::new();
    assert_eq!(counter.leave_rcs(), Err(EpochViolation::LeftWhileInactive { found: 0 }));
}

#[test]
fn counter_wraps_from_255_to_zero_and_stays_in_step() {
    let counter = EpochCounter::new();
    for _ in 0..127 {
        assert!(counter.enter_rcs().is_ok());
        assert!(counter.leave_rcs().is_ok());
    }
    assert_eq!(counter.get_epoch(), 254);
    assert!(counter.enter_rcs().is_ok());
    assert_eq!(counter.get_epoch(), 255);
    assert!(counter.leave_rcs().is_ok());
    assert_eq!(counter.get_epoch(), 0);
    assert!(counter.enter_rcs().is_ok());
    assert_eq!(counter.get_epoch(), 1);
}

#[test]
fn admit_entry_accepts_even_epochs_only() {
    assert_eq!(admit_entry(0), Ok(0));
    assert_eq!(admit_entry(254), Ok(254));
    assert_eq!(admit_entry(1), Err(EpochViolation::EnteredWhileActive { found: 1 }));
    assert_eq!(admit_entry(255), Err(EpochViolation::EnteredWhileActive { found: 255 }));
}

#[test]
fn admit_exit_accepts_odd_epochs_only() {
    assert_eq!(admit_exit(1), Ok(1));
    assert_eq!(admit_exit(255), Ok(255));
    assert_eq!(admit_exit(0), Err(EpochViolation::LeftWhileInactive { found: 0 }));
    assert_eq!(admit_exit(42), Err(EpochViolation::LeftWhileInactive { found: 42 }));
}

#[test]
fn first_pass_keeps_active_counters_in_pool_order() {
    let seen = vec![Some(0u8), Some(3), None, Some(255), Some(2), Some(1)];
    let pending = first_pass(&seen);
    assert_eq!(
        pending,
        vec![
            Awaited { index: 1, sampled: 3 },
            Awaited { index: 3, sampled: 255 },
            Awaited { index: 5, sampled: 1 },
        ]
    );
}

#[test]
fn first_pass_of_nothing_awaits_nobody() {
    assert_eq!(first_pass(&Vec::new()), Vec::new());
    assert_eq!(first_pass(&vec![None, Some(0), Some(128)]), Vec::new());
}

#[test]
fn next_pass_drops_the_gone_and_the_moved() {
    let pending = vec![
        Awaited { index: 1, sampled: 3 },
        Awaited { index: 3, sampled: 255 },
        Awaited { index: 5, sampled: 1 },
        Awaited { index: 8, sampled: 7 },
    ];
    // still there, gone, moved to rest, moved to another critical section
    let seen = vec![Some(3u8), None, Some(2), Some(9)];
    assert_eq!(next_pass(&pending, &seen), vec![Awaited { index: 1, sampled: 3 }]);
}

#[test]
fn next_pass_keeps_entries_that_were_not_looked_at() {
    let pending = vec![Awaited { index: 0, sampled: 1 }, Awaited { index: 2, sampled: 5 }];
    assert_eq!(next_pass(&pending, &vec![Some(2u8)]), vec![Awaited { index: 2, sampled: 5 }]);
    assert_eq!(next_pass(&pending, &Vec::new()), pending);
    assert_eq!(next_pass(&Vec::new(), &vec![Some(1u8)]), Vec::new());
}

#[test]
fn array_pool_reports_its_counters() {
    let pool = pool_of_four();
    assert_eq!(pool.registered(), 4);
    assert_eq!(pool.observe(0), Some(0));
    assert!(pool[2].enter_rcs().is_ok());
    assert_eq!(pool.observe(2), Some(1));
    assert_eq!(pool.observe(4), None);
}

#[test]
fn scan_of_a_pool_at_rest_is_quiescent_at_once() {
    let pool = pool_of_four();
    let scan = Scan::begin(&pool);
    assert!(scan.is_quiescent());
    assert_eq!(scan.awaited(), Vec::new());
    let scan = wait_for_epochs(&pool, 0);
    assert!(scan.is_quiescent());
    assert!(Scan::settled().is_quiescent());
}

#[test]
fn scan_waits_for_a_reader_until_it_leaves() {
    let pool = pool_of_four();
    assert!(pool[3].enter_rcs().is_ok());

    let mut scan = Scan::begin(&pool);
    assert!(!scan.is_quiescent());
    assert_eq!(scan.awaited(), vec![Awaited { index: 3, sampled: 1 }]);

    assert!(!scan.poll(&pool));
    assert!(!scan.poll(&pool));
    assert_eq!(scan.awaited(), vec![Awaited { index: 3, sampled: 1 }]);

    assert!(pool[3].leave_rcs().is_ok());
    assert!(scan.poll(&pool));
    assert!(scan.is_quiescent());
    assert_eq!(scan.awaited(), Vec::new());
}

#[test]
fn scan_is_satisfied_by_a_reader_that_left_and_came_back() {
    let pool = pool_of_four();
    assert!(pool[1].enter_rcs().is_ok());
    let mut scan = Scan::begin(&pool);
    assert!(pool[1].leave_rcs().is_ok());
    assert!(pool[1].enter_rcs().is_ok());
    // the counter is odd again, but at another epoch
    assert_eq!(pool.observe(1), Some(3));
    assert!(scan.poll(&pool));
}

#[test]
fn scan_ignores_readers_that_enter_after_it_began() {
    let pool = pool_of_four();
    let mut scan = Scan::begin(&pool);
    assert!(pool[0].enter_rcs().is_ok());
    assert!(scan.is_quiescent());
    assert!(scan.poll(&pool));
}

#[test]
fn scan_keeps_waiting_when_the_epoch_comes_round_again() {
    let pool = pool_of_four();
    assert!(pool[2].enter_rcs().is_ok());
    let mut scan = Scan::begin(&pool);
    // 256 increments later the counter shows the sampled epoch again
    for _ in 0..128 {
        assert!(pool[2].leave_rcs().is_ok());
        assert!(pool[2].enter_rcs().is_ok());
    }
    assert_eq!(pool.observe(2), Some(1));
    assert!(!scan.poll(&pool));
    assert!(pool[2].leave_rcs().is_ok());
    assert!(scan.poll(&pool));
}

#[test]
fn wait_for_epochs_gives_up_when_its_patience_is_spent() {
    let pool = pool_of_four();
    assert!(pool[0].enter_rcs().is_ok());
    assert!(pool[2].enter_rcs().is_ok());
    let mut scan = wait_for_epochs(&pool, 5);
    assert!(!scan.is_quiescent());
    assert_eq!(
        scan.awaited(),
        vec![Awaited { index: 0, sampled: 1 }, Awaited { index: 2, sampled: 1 }]
    );
    assert!(pool[0].leave_rcs().is_ok());
    assert!(!scan.poll(&pool));
    assert_eq!(scan.awaited(), vec![Awaited { index: 2, sampled: 1 }]);
    assert!(pool[2].leave_rcs().is_ok());
    assert!(scan.poll(&pool));
}
