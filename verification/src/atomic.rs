//! The slot whose readers and writers coordinate through epoch counters.
//!
//! A reader brackets its load of the published payload by two increments of
//! its counter. A writer exchanges the payload and then scans the counters of
//! the pool: the payload that it displaced is guarded by that scan and
//! handed on only when the scan is quiescent.
use vstd::prelude::*;
use std::sync::Arc;
use crate::Rcu;
use crate::epoch_counters::EpochCounter;
use crate::epoch_counters::EpochCounterPool;
use crate::epoch_counters::EpochViolation;
use crate::epoch_counters::began_on;
use crate::publication::Publication;
use crate::reclaim::Retired;
use crate::slot::read_in;
use crate::slot::replace_if_current_in;
use crate::slot::replace_in;

verus! {

/// A publication cell with the pool of the counters that its readers use.
///
/// The cell keeps the payload behind a lock, so a load is safe whatever the
/// counters say. The counters decide when a displaced payload is handed on.
#[verifier::reject_recursive_types(T)]
pub struct Arcu<T, P> {
    active_value: Publication<T>,
    epoch_counter_pool: P,
}

impl<T, P: EpochCounterPool> Arcu<T, P> {
    /// A slot that holds `initial_value` and scans `epoch_counter_pool`.
    pub fn new(initial_value: T, epoch_counter_pool: P) -> (slot: Self)
        ensures
            slot.pool_view() == epoch_counter_pool,
            exists|initial: Arc<T>| #[trigger] slot.cell().made_around(initial) && *initial == initial_value,
    {
        Self::from_arc(Arc::new(initial_value), epoch_counter_pool)
    }

    /// A slot that holds the payload behind `initial` and scans
    /// `epoch_counter_pool`.
    pub fn from_arc(initial: Arc<T>, epoch_counter_pool: P) -> (slot: Self)
        ensures
            slot.pool_view() == epoch_counter_pool,
            slot.cell().made_around(initial),
    {
        Arcu { active_value: Publication::new(initial), epoch_counter_pool }
    }

    /// Publishes `new_value` over the payload that it finds in the slot and
    /// retires that payload.
    pub fn replace(&self, new_value: T) -> (retired: Retired<'_, T, P>)
        ensures
            retired.pool() == self.pool_view(),
            retired.scan().rounds() == 0,
            exists|access: &mut Arc<T>|
                {
                    &&& #[trigger] self.cell().opened_by(access)
                    &&& **final(access) == new_value
                    &&& retired.guards(*access, true)
                    &&& retired.payload() == **access
                },
            began_on(retired.pool(), retired.scan().first_sight()),
    {
        self.replace_arc(Arc::new(new_value))
    }

    /// Publishes the payload behind `new_value` over the payload that it
    /// finds in the slot and retires that payload. The scan that guards the
    /// displaced payload begins after the exchange.
    pub fn replace_arc(&self, new_value: Arc<T>) -> (retired: Retired<'_, T, P>)
        ensures
            retired.pool() == self.pool_view(),
            retired.scan().rounds() == 0,
            exists|access: &mut Arc<T>|
                {
                    &&& #[trigger] self.cell().opened_by(access)
                    &&& *final(access) == new_value
                    &&& retired.guards(*access, true)
                    &&& retired.payload() == **access
                },
            began_on(retired.pool(), retired.scan().first_sight()),
    {
        assert(self.cell() == self.active_value);
        replace_in(&self.active_value, &self.epoch_counter_pool, true, new_value)
    }
}

impl<T, P: EpochCounterPool> Rcu for Arcu<T, P> {
    type Item = T;

    type Pool = P;

    closed spec fn pool_view(&self) -> P {
        self.epoch_counter_pool
    }

    open spec fn scans_pool(&self) -> bool {
        true
    }

    closed spec fn cell(&self) -> Publication<T> {
        self.active_value
    }

    fn new(initial: Arc<T>, epoch_counter_pool: P) -> (slot: Self) {
        Self::from_arc(initial, epoch_counter_pool)
    }

    fn pool(&self) -> (pool: &P) {
        &self.epoch_counter_pool
    }

    fn raw_read(&self, epoch_counter: &EpochCounter) -> (payload: Result<Arc<T>, EpochViolation>) {
        assert(self.cell() == self.active_value);
        read_in(&self.active_value, true, epoch_counter)
    }

    fn replace(&self, new_value: Arc<T>) -> (retired: Retired<'_, T, P>) {
        self.replace_arc(new_value)
    }

    fn replace_if_current(&self, expected: &Arc<T>, new_value: Arc<T>) -> (outcome: Result<
        Retired<'_, T, P>,
        Arc<T>,
    >) {
        assert(self.cell() == self.active_value);
        replace_if_current_in(
            &self.active_value,
            &self.epoch_counter_pool,
            true,
            expected,
            new_value,
        )
    }
}

} // verus!
