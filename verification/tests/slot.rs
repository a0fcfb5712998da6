use arcu::epoch_counters::{Awaited, EpochCounter, EpochViolation, GlobalEpochCounterPool};
use arcu::publication::{exchange, exchange_if, Publication};
use arcu::reclaim::{Retired, Update};
use arcu::rcu_ref::RcuRef;
use arcu::Rcu;
use arcu::ThreadLocalRcu;
use std::cell::Cell;
use std::sync::atomic::{AtomicUsize, Ordering};
use std::sync::Arc;

type Pool = [Arc<EpochCounter>; 3];

fn pool_of_three() -> Pool {
    std::array::from_fn(|_| Arc::new(EpochCounter::new()))
}

struct Counted {
    value: usize,
    drops: Arc<AtomicUsize>,
}

impl Drop for Counted {
    fn drop(&mut self) {
        self.drops.fetch_add(1, Ordering::SeqCst);
    }
}

#[test]
fn exchange_hands_the_old_content_out() {
    let old = Arc::new(1);
    let new = Arc::new(2);
    let mut content = old.clone();
    let displaced = exchange(&mut content, new.clone());
    assert!(Arc::ptr_eq(&content, &new));
    assert!(Arc::ptr_eq(&displaced, &old));
}

#[test]
fn exchange_if_publishes_only_when_told_so() {
    let old = Arc::new(1);
    let new = Arc::new(2);

    let mut content = old.clone();
    let outcome = exchange_if(true, &mut content, new.clone());
    assert!(Arc::ptr_eq(&content, &new));
    assert!(Arc::ptr_eq(&outcome.unwrap(), &old));

    let mut content = old.clone();
    let outcome = exchange_if(false, &mut content, new.clone());
    assert!(Arc::ptr_eq(&content, &old));
    assert!(Arc::ptr_eq(&outcome.unwrap_err(), &new));
}

#[test]
fn publication_cell_loads_swaps_and_compares_by_allocation() {
    let first = Arc::new(1);
    let cell = Publication::new(first.clone());
    assert!(Arc::ptr_eq(&cell.load(), &first));

    let second = Arc::new(2);
    let displaced = cell.swap(second.clone());
    assert!(Arc::ptr_eq(&displaced, &first));
    assert!(Arc::ptr_eq(&cell.load(), &second));

    // an equal value in another allocation is not the expected one
    let stale = Arc::new(2);
    let third = Arc::new(3);
    let rejected = cell.compare_exchange(&stale, third.clone()).unwrap_err();
    assert!(Arc::ptr_eq(&rejected, &third));
    assert!(Arc::ptr_eq(&cell.load(), &second));

    let displaced = cell.compare_exchange(&second, third.clone()).unwrap();
    assert!(Arc::ptr_eq(&displaced, &second));
    assert!(Arc::ptr_eq(&cell.load(), &third));
}

#[test]
fn single_threaded_replace() {
    let drops = Arc::new(AtomicUsize::new(0));
    let mut local: Option<Arc<EpochCounter>> = None;
    let rcu = arcu::atomic::Arcu::new(
        Counted { value: 11, drops: drops.clone() },
        GlobalEpochCounterPool::new(),
    );
    assert_eq!(rcu.read(&mut local).unwrap().value, 11);
    let retired = rcu.replace(Counted { value: 55, drops: drops.clone() });
    assert!(retired.is_quiescent());
    let displaced = retired.reclaim().ok().unwrap();
    assert_eq!(displaced.value, 11);
    drop(displaced);
    assert_eq!(drops.load(Ordering::SeqCst), 1);
    assert_eq!(rcu.read(&mut local).unwrap().value, 55);
    assert_eq!(drops.load(Ordering::SeqCst), 1);
}

#[test]
fn every_payload_is_dropped_exactly_once() {
    let drops = Arc::new(AtomicUsize::new(0));
    let mut local: Option<Arc<EpochCounter>> = None;
    let rcu = arcu::atomic::Arcu::new(
        Counted { value: 0, drops: drops.clone() },
        GlobalEpochCounterPool::new(),
    );
    let early = rcu.read(&mut local).unwrap();
    for value in 1..=10 {
        let retired = rcu.replace(Counted { value, drops: drops.clone() });
        drop(retired.reclaim().ok().unwrap());
    }
    // payload 0 is kept alive by the snapshot, payloads 1 to 9 are gone
    assert_eq!(early.value, 0);
    assert_eq!(drops.load(Ordering::SeqCst), 9);
    let late = RcuRef::clone(&early);
    drop(early);
    assert_eq!(drops.load(Ordering::SeqCst), 9);
    drop(late);
    assert_eq!(drops.load(Ordering::SeqCst), 10);
    drop(rcu);
    assert_eq!(drops.load(Ordering::SeqCst), 11);
}

#[test]
fn from_arc_publishes_the_given_allocation() {
    let pool = pool_of_three();
    let initial = Arc::new(5);
    let rcu = arcu::atomic::Arcu::from_arc(initial.clone(), pool.clone());
    let read = rcu.raw_read(&pool[0]).unwrap();
    assert!(Arc::ptr_eq(&read, &initial));
    assert_eq!(pool[0].get_epoch(), 2);
    assert_eq!(rcu.pool().len(), 3);
    assert!(Arc::ptr_eq(&rcu.pool()[1], &pool[1]));
}

#[test]
fn raw_read_reports_a_counter_that_is_already_inside() {
    let pool = pool_of_three();
    let rcu = arcu::atomic::Arcu::new(5, pool.clone());
    assert!(pool[1].enter_rcs().is_ok());
    assert_eq!(
        rcu.raw_read(&pool[1]).err(),
        Some(EpochViolation::EnteredWhileActive { found: 1 })
    );
}

#[test]
fn displaced_payload_is_withheld_while_a_reader_is_inside() {
    let pool = pool_of_three();
    let rcu = arcu::atomic::Arcu::new(1, pool.clone());

    // a reader is inside its critical section when the writer publishes
    assert!(pool[2].enter_rcs().is_ok());
    let mut retired = rcu.replace(2);
    assert!(!retired.is_quiescent());

    let mut retired = match retired.reclaim() {
        Ok(_) => panic!("handed on before the reader left"),
        Err(waiting) => waiting,
    };
    assert!(!retired.poll());
    let mut retired = match retired.wait(10) {
        Ok(_) => panic!("handed on before the reader left"),
        Err(waiting) => waiting,
    };

    // readers that come later do not hold the writer up
    assert_eq!(*rcu.raw_read(&pool[0]).unwrap(), 2);
    assert!(!retired.poll());

    assert!(pool[2].leave_rcs().is_ok());
    assert!(retired.poll());
    assert!(retired.is_quiescent());
    assert_eq!(*retired.reclaim().ok().unwrap(), 1);
}

#[test]
fn wait_polls_until_the_reader_has_left() {
    let pool = pool_of_three();
    let rcu = arcu::atomic::Arcu::new(1, pool.clone());
    assert!(pool[0].enter_rcs().is_ok());
    let retired = rcu.replace(2);
    let retired = retired.wait(0).err().unwrap();
    assert!(pool[0].leave_rcs().is_ok());
    // without a poll the scan has not seen the reader leave
    let retired = retired.reclaim().err().unwrap();
    assert_eq!(*retired.wait(1).ok().unwrap(), 1);
}

#[test]
fn plain_slot_hands_on_at_once() {
    let pool = pool_of_three();
    let rcu = arcu::rwlock::Arcu::new(Arc::new(1), pool.clone());
    assert!(pool[2].enter_rcs().is_ok());
    // the counter is not looked at, by reads or by writes
    assert_eq!(*rcu.raw_read(&pool[2]).unwrap(), 1);
    assert_eq!(pool[2].get_epoch(), 1);
    let retired = rcu.replace(Arc::new(2));
    assert!(retired.is_quiescent());
    assert_eq!(*retired.reclaim().ok().unwrap(), 1);
    assert_eq!(*rcu.raw_read(&pool[0]).unwrap(), 2);
    assert_eq!(pool[0].get_epoch(), 0);
}

#[test]
fn abort_path() {
    let drops = Arc::new(AtomicUsize::new(0));
    let mut local: Option<Arc<EpochCounter>> = None;
    let rcu = arcu::atomic::Arcu::new(
        Counted { value: 3, drops: drops.clone() },
        GlobalEpochCounterPool::new(),
    );
    let calls = Cell::new(0);
    let outcome = rcu
        .try_update(
            &mut local,
            |_old: &Counted| {
                calls.set(calls.get() + 1);
                None
            },
            usize::MAX,
        )
        .unwrap();
    assert!(matches!(outcome, Update::Aborted));
    assert_eq!(calls.get(), 1);
    assert_eq!(drops.load(Ordering::SeqCst), 0);
    assert_eq!(rcu.read(&mut local).unwrap().value, 3);
}

#[test]
fn update_without_attempts_is_contended_and_reads_nothing() {
    let pool = pool_of_three();
    let rcu = arcu::atomic::Arcu::new(3, pool.clone());
    let outcome = rcu
        .raw_try_update(|_old: &i32| panic!("no attempt was allowed"), &pool[0], 0)
        .unwrap();
    assert!(matches!(outcome, Update::Contended));
    assert_eq!(pool[0].get_epoch(), 0);
    assert_eq!(*rcu.raw_read(&pool[0]).unwrap(), 3);
}

// Runs an update that loses its first races to a writer that publishes in
// between the read and the exchange.
fn contended_update<A: Rcu<Item = usize, Pool = Pool>>(attempts: usize, races: usize) -> (bool, usize, usize) {
    let pool = pool_of_three();
    let rcu = A::new(Arc::new(0), pool.clone());
    let calls = Cell::new(0);
    let outcome = rcu
        .raw_try_update(
            |old: &usize| {
                calls.set(calls.get() + 1);
                if calls.get() <= races {
                    let _ = rcu.replace(Arc::new(old + 100)).wait(usize::MAX);
                }
                Some(Arc::new(old + 1))
            },
            &pool[0],
            attempts,
        )
        .unwrap();
    let replaced = match outcome {
        Update::Replaced(retired) => {
            // the displaced payload is the one the candidate was computed from
            let displaced = retired.wait(usize::MAX).ok().unwrap();
            assert_eq!(*displaced + 1, *rcu.raw_read(&pool[1]).unwrap());
            true
        }
        Update::Contended => false,
        Update::Aborted => panic!("the update never declines"),
    };
    let value = *rcu.raw_read(&pool[1]).unwrap();
    (replaced, calls.get(), value)
}

#[test]
fn update_retries_when_another_writer_got_in_between_atomic() {
    assert_eq!(contended_update::<arcu::atomic::Arcu<_, _>>(5, 2), (true, 3, 201));
    assert_eq!(contended_update::<arcu::atomic::Arcu<_, _>>(2, 2), (false, 2, 200));
    assert_eq!(contended_update::<arcu::atomic::Arcu<_, _>>(1, 0), (true, 1, 1));
}

#[test]
fn update_retries_when_another_writer_got_in_between_rwlock() {
    assert_eq!(contended_update::<arcu::rwlock::Arcu<_, _>>(5, 2), (true, 3, 201));
    assert_eq!(contended_update::<arcu::rwlock::Arcu<_, _>>(2, 2), (false, 2, 200));
    assert_eq!(contended_update::<arcu::rwlock::Arcu<_, _>>(1, 0), (true, 1, 1));
}

#[test]
fn rejected_candidates_are_dropped_exactly_once() {
    let drops = Arc::new(AtomicUsize::new(0));
    let pool = pool_of_three();
    let rcu = arcu::atomic::Arcu::new(Counted { value: 0, drops: drops.clone() }, pool.clone());
    let calls = Cell::new(0);
    let outcome = rcu
        .raw_try_update(
            |old: &Counted| {
                calls.set(calls.get() + 1);
                if calls.get() == 1 {
                    let other = Counted { value: 50, drops: drops.clone() };
                    drop(rcu.replace(other).wait(usize::MAX).ok().unwrap());
                }
                Some(Arc::new(Counted { value: old.value + 1, drops: drops.clone() }))
            },
            &pool[0],
            usize::MAX,
        )
        .unwrap();
    // dropped so far: payload 0, displaced inside the update, and the candidate 1 that lost
    assert_eq!(drops.load(Ordering::SeqCst), 2);
    match outcome {
        Update::Replaced(retired) => {
            let displaced = retired.wait(usize::MAX).ok().unwrap();
            assert_eq!(displaced.value, 50);
        }
        _ => panic!("the second attempt publishes"),
    }
    assert_eq!(drops.load(Ordering::SeqCst), 3);
    assert_eq!(rcu.raw_read(&pool[0]).unwrap().value, 51);
    drop(rcu);
    assert_eq!(drops.load(Ordering::SeqCst), 4);
}

#[test]
fn update_reports_a_broken_counter() {
    let pool = pool_of_three();
    let rcu = arcu::atomic::Arcu::new(3, pool.clone());
    assert!(pool[0].enter_rcs().is_ok());
    let outcome = rcu.raw_try_update(|old: &i32| Some(Arc::new(old + 1)), &pool[0], 3);
    assert_eq!(outcome.err(), Some(EpochViolation::EnteredWhileActive { found: 1 }));
    assert_eq!(*rcu.raw_read(&pool[1]).unwrap(), 3);
}

#[test]
fn update_withholds_the_displaced_payload_while_a_reader_is_inside() {
    let pool = pool_of_three();
    let rcu = arcu::atomic::Arcu::new(3, pool.clone());
    assert!(pool[1].enter_rcs().is_ok());
    let outcome = rcu.raw_try_update(|old: &i32| Some(Arc::new(old + 1)), &pool[0], 1).unwrap();
    let retired: Retired<'_, i32, Pool> = match outcome {
        Update::Replaced(retired) => retired,
        _ => panic!("an update without contention publishes"),
    };
    let mut retired = retired.reclaim().err().unwrap();
    assert!(pool[1].leave_rcs().is_ok());
    assert!(retired.poll());
    assert_eq!(*retired.reclaim().ok().unwrap(), 3);
    let _ = Awaited { index: 1, sampled: 1 };
}

// What a sequence of calls shows of a slot, whichever kind it is.
fn observable<A: Rcu<Item = usize, Pool = Pool>>() -> Vec<usize> {
    let pool = pool_of_three();
    let rcu = A::new(Arc::new(201), pool.clone());
    let mut seen = vec![*rcu.raw_read(&pool[0]).unwrap()];
    for value in 0..5 {
        seen.push(*rcu.replace(Arc::new(value)).wait(usize::MAX).ok().unwrap());
        seen.push(*rcu.raw_read(&pool[value % 3]).unwrap());
    }
    for _ in 0..5 {
        match rcu.raw_try_update(|old: &usize| Some(Arc::new(old * 2 + 1)), &pool[1], 1).unwrap() {
            Update::Replaced(retired) => seen.push(*retired.wait(usize::MAX).ok().unwrap()),
            _ => panic!("an update without contention publishes"),
        }
    }
    match rcu.raw_try_update(|_old: &usize| None, &pool[2], 4).unwrap() {
        Update::Aborted => seen.push(*rcu.raw_read(&pool[2]).unwrap()),
        _ => panic!("the update declines"),
    }
    seen
}

#[test]
fn both_slots_show_the_same() {
    let atomic = observable::<arcu::atomic::Arcu<_, _>>();
    let plain = observable::<arcu::rwlock::Arcu<_, _>>();
    assert_eq!(atomic, plain);
    assert_eq!(
        atomic,
        vec![201, 201, 0, 0, 1, 1, 2, 2, 3, 3, 4, 4, 9, 19, 39, 79, 159]
    );
}

#[test]
fn hundred_updates_count_to_hundred() {
    let mut local: Option<Arc<EpochCounter>> = None;
    let rcu = arcu::atomic::Arcu::new(0usize, GlobalEpochCounterPool::new());
    let mut displaced = Vec::new();
    for _ in 0..100 {
        match rcu.try_update(&mut local, |n: &usize| Some(Arc::new(n + 1)), usize::MAX).unwrap() {
            Update::Replaced(retired) => displaced.push(*retired.wait(usize::MAX).ok().unwrap()),
            _ => panic!("an update without contention publishes"),
        }
    }
    assert_eq!(*rcu.read(&mut local).unwrap(), 100);
    // each of 1..=100 was published once, so each of 0..100 was displaced once
    assert_eq!(displaced, (0..100).collect::<Vec<usize>>());
}

#[test]
fn no_payload_is_dropped_while_a_reader_is_inside() {
    let drops = Arc::new(AtomicUsize::new(0));
    let pool = pool_of_three();
    let rcu = arcu::atomic::Arcu::new(Counted { value: 1, drops: drops.clone() }, pool.clone());

    assert!(pool[1].enter_rcs().is_ok());
    let retired = rcu.replace(Counted { value: 2, drops: drops.clone() });
    let retired = retired.wait(100).err().unwrap();
    assert_eq!(drops.load(Ordering::SeqCst), 0);

    assert!(pool[1].leave_rcs().is_ok());
    let displaced = retired.wait(1).ok().unwrap();
    assert_eq!(displaced.value, 1);
    assert_eq!(drops.load(Ordering::SeqCst), 0);
    drop(displaced);
    assert_eq!(drops.load(Ordering::SeqCst), 1);
}

#[test]
fn counters_are_even_outside_reads() {
    let pool = pool_of_three();
    let rcu = arcu::atomic::Arcu::new(0usize, pool.clone());
    for round in 0..200 {
        let counter = &pool[round % 3];
        assert_eq!(*rcu.raw_read(counter).unwrap(), round);
        assert_eq!(counter.get_epoch() % 2, 0);
        match rcu.raw_try_update(|old: &usize| Some(Arc::new(old + 1)), counter, 1).unwrap() {
            Update::Replaced(retired) => assert_eq!(*retired.reclaim().ok().unwrap(), round),
            _ => panic!("an update without contention publishes"),
        }
        assert_eq!(counter.get_epoch() % 2, 0);
    }
    // 67 or 66 rounds each, two reads a round, two increments a read, modulo 256
    assert_eq!(pool[0].get_epoch(), ((67 * 2 * 2) % 256) as u8);
    assert_eq!(pool[1].get_epoch(), ((67 * 2 * 2) % 256) as u8);
    assert_eq!(pool[2].get_epoch(), ((66 * 2 * 2) % 256) as u8);
}

fn shared_between_threads<S: Send + Sync>() {}

#[test]
fn slots_counters_and_snapshots_can_be_shared_between_threads() {
    shared_between_threads::<EpochCounter>();
    shared_between_threads::<GlobalEpochCounterPool>();
    shared_between_threads::<arcu::atomic::Arcu<usize, Pool>>();
    shared_between_threads::<arcu::atomic::Arcu<String, GlobalEpochCounterPool>>();
    shared_between_threads::<arcu::rwlock::Arcu<usize, Pool>>();
    shared_between_threads::<Publication<usize>>();
    shared_between_threads::<Retired<'static, usize, Pool>>();
    shared_between_threads::<RcuRef<usize, usize, arcu::rcu_ref::Whole>>();
    shared_between_threads::<arcu::epoch_counters::Scan>();
}

#[test]
fn share_allocation_tells_allocations_apart() {
    let one = Arc::new(7);
    let same = one.clone();
    let other = Arc::new(7);
    assert!(arcu::publication::share_allocation(&one, &same));
    assert!(arcu::publication::share_allocation(&one, &one));
    assert!(!arcu::publication::share_allocation(&one, &other));
}

// Publishes only over the allocation that is expected.
fn replaces_only_the_expected<A: Rcu<Item = usize, Pool = Pool>>(guarded: bool) {
    let pool = pool_of_three();
    let initial = Arc::new(1);
    let rcu = A::new(initial.clone(), pool.clone());

    // an equal payload in another allocation is not the current one
    let stale = Arc::new(1);
    let candidate = Arc::new(2);
    let rejected = rcu.replace_if_current(&stale, candidate.clone()).err().unwrap();
    assert!(Arc::ptr_eq(&rejected, &candidate));
    assert!(Arc::ptr_eq(&rcu.raw_read(&pool[0]).unwrap(), &initial));

    // a reader inside its critical section holds the guarded slot up only
    assert!(pool[1].enter_rcs().is_ok());
    let retired = rcu.replace_if_current(&initial, candidate.clone()).ok().unwrap();
    assert_eq!(retired.is_quiescent(), !guarded);
    assert!(Arc::ptr_eq(&rcu.raw_read(&pool[0]).unwrap(), &candidate));
    assert!(pool[1].leave_rcs().is_ok());
    let displaced = retired.wait(1).ok().unwrap();
    assert!(Arc::ptr_eq(&displaced, &initial));
}

#[test]
fn replace_if_current_on_the_guarded_slot() {
    replaces_only_the_expected::<arcu::atomic::Arcu<_, _>>(true);
}

#[test]
fn replace_if_current_on_the_plain_slot() {
    replaces_only_the_expected::<arcu::rwlock::Arcu<_, _>>(false);
}

#[test]
fn two_replacements_in_a_row() {
    let pool = pool_of_three();
    let rcu = arcu::atomic::Arcu::new(1, pool.clone());
    let first = rcu.replace(2).reclaim().ok().unwrap();
    let second = rcu.replace(3).reclaim().ok().unwrap();
    assert_eq!((*first, *second), (1, 2));
    assert_eq!(*rcu.raw_read(&pool[0]).unwrap(), 3);
}

#[test]
fn plain_slot_reads_and_updates_with_the_thread_counter() {
    let pool = GlobalEpochCounterPool::new();
    let mut local: Option<Arc<EpochCounter>> = None;
    let rcu = arcu::rwlock::Arcu::new(Arc::new(3usize), pool.share());
    assert_eq!(*rcu.read(&mut local).unwrap(), 3);
    // the thread's counter is registered, and the plain slot leaves it alone
    assert_eq!(arcu::epoch_counters::EpochCounterPool::registered(&pool), 1);
    assert_eq!(local.as_ref().unwrap().get_epoch(), 0);
    match rcu.try_update(&mut local, |n: &usize| Some(Arc::new(n + 1)), 1).unwrap() {
        Update::Replaced(retired) => assert_eq!(*retired.reclaim().ok().unwrap(), 3),
        _ => panic!("an update without contention publishes"),
    }
    assert_eq!(*rcu.read(&mut local).unwrap(), 4);
    assert_eq!(local.as_ref().unwrap().get_epoch(), 0);
}

#[test]
fn guarded_slot_brackets_each_read_of_an_update() {
    let pool = pool_of_three();
    let rcu = arcu::atomic::Arcu::new(0usize, pool.clone());
    let inside = Cell::new(0);
    let outcome = rcu
        .raw_try_update(
            |n: &usize| {
                // the update runs outside the critical section
                inside.set(inside.get() + usize::from(pool[0].get_epoch() % 2 == 1));
                Some(Arc::new(n + 1))
            },
            &pool[0],
            1,
        )
        .unwrap();
    assert!(matches!(outcome, Update::Replaced(_)));
    assert_eq!(inside.get(), 0);
    assert_eq!(pool[0].get_epoch(), 2);
}

#[test]
fn loads_and_leaves_inside_a_critical_section() {
    let counter = EpochCounter::new();
    let cell = Publication::new(Arc::new(5));
    let entered = counter.enter_rcs().unwrap();
    assert_eq!(entered, 0);
    let payload = cell.load_inside(entered);
    assert_eq!(*payload, 5);
    assert_eq!(counter.leave_rcs_after(&payload), Ok(1));
    assert_eq!(counter.get_epoch(), 2);
    assert_eq!(
        counter.leave_rcs_after(&payload),
        Err(EpochViolation::LeftWhileInactive { found: 2 })
    );
}

#[test]
fn retire_begins_the_scan_when_it_is_called() {
    let pool = pool_of_three();
    assert!(pool[1].enter_rcs().is_ok());
    let guarded = Retired::retire(Arc::new(1), &pool, true);
    assert!(!guarded.is_quiescent());
    let plain = Retired::retire(Arc::new(2), &pool, false);
    assert!(plain.is_quiescent());
    assert_eq!(*plain.reclaim().ok().unwrap(), 2);
    assert!(pool[1].leave_rcs().is_ok());
    assert_eq!(*guarded.wait(1).ok().unwrap(), 1);
}
