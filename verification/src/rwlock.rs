//! The slot that relies on the lock of its cell alone. It takes the same
//! calls as the epoch-guarded slot and serves as the plain baseline that the
//! other is compared with.
use vstd::prelude::*;
use std::sync::Arc;
use crate::Rcu;
use crate::epoch_counters::EpochCounter;
use crate::epoch_counters::EpochCounterPool;
use crate::epoch_counters::EpochViolation;
use crate::publication::Publication;
use crate::reclaim::Retired;
use crate::slot::read_in;
use crate::slot::replace_if_current_in;
use crate::slot::replace_in;

verus! {

/// A publication cell whose readers enter no critical section. The pool is
/// kept so that both slots are built and asked alike; it is never scanned.
#[verifier::reject_recursive_types(T)]
pub struct Arcu<T, P> {
    active_value: Publication<T>,
    epoch_counter_pool: P,
}

impl<T, P: EpochCounterPool> Rcu for Arcu<T, P> {
    type Item = T;

    type Pool = P;

    closed spec fn pool_view(&self) -> P {
        self.epoch_counter_pool
    }

    open spec fn scans_pool(&self) -> bool {
        false
    }

    closed spec fn cell(&self) -> Publication<T> {
        self.active_value
    }

    fn new(initial: Arc<T>, epoch_counter_pool: P) -> (slot: Self) {
        Arcu { active_value: Publication::new(initial), epoch_counter_pool }
    }

    fn pool(&self) -> (pool: &P) {
        &self.epoch_counter_pool
    }

    fn raw_read(&self, epoch_counter: &EpochCounter) -> (payload: Result<
        Arc<T>,
        EpochViolation,
    >) {
        assert(self.cell() == self.active_value);
        read_in(&self.active_value, false, epoch_counter)
    }

    fn replace(&self, new_value: Arc<T>) -> (retired: Retired<'_, T, P>) {
        assert(self.cell() == self.active_value);
        replace_in(&self.active_value, &self.epoch_counter_pool, false, new_value)
    }

    fn replace_if_current(&self, expected: &Arc<T>, new_value: Arc<T>) -> (outcome: Result<
        Retired<'_, T, P>,
        Arc<T>,
    >) {
        assert(self.cell() == self.active_value);
        replace_if_current_in(
            &self.active_value,
            &self.epoch_counter_pool,
            false,
            expected,
            new_value,
        )
    }
}

} // verus!
