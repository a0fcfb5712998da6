//! What both slots do with their cell, their pool and a reader's counter. A
//! slot that guards brackets its reads by the counter and has displaced
//! payloads guarded by a scan of the pool; one that does not leaves counter
//! and pool alone.
use vstd::prelude::*;
use std::sync::Arc;
use crate::epoch_counters::EpochCounter;
use crate::epoch_counters::EpochCounterPool;
use crate::epoch_counters::EpochViolation;
use crate::epoch_counters::began_on;
use crate::publication::Publication;
use crate::publication::compared;
use crate::publication::exchanged_if;
use crate::read_by;
use crate::reclaim::Retired;

verus! {

/// Reads the payload of `cell`. A guarded read enters a critical section of
/// `epoch_counter`, loads the payload inside it, and leaves.
pub(crate) fn read_in<T>(cell: &Publication<T>, guarded: bool, epoch_counter: &EpochCounter) -> (payload:
    Result<Arc<T>, EpochViolation>)
    ensures
        read_by(*cell, guarded, epoch_counter, payload),
        payload matches Ok(read) ==> cell.shows(read),
{
    if guarded {
        match epoch_counter.enter_rcs() {
            Err(violation) => Err(violation),
            Ok(entered) => {
                let payload = cell.load_inside(entered);
                match epoch_counter.leave_rcs_after(&payload) {
                    Err(violation) => Err(violation),
                    Ok(_left) => Ok(payload),
                }
            },
        }
    } else {
        Ok(cell.load())
    }
}

/// Publishes `new_value` over the payload found in `cell` and then retires
/// that payload.
pub(crate) fn replace_in<'a, T, P: EpochCounterPool>(
    cell: &Publication<T>,
    pool: &'a P,
    guarded: bool,
    new_value: Arc<T>,
) -> (retired: Retired<'a, T, P>)
    ensures
        retired.pool() == pool,
        retired.scan().rounds() == 0,
        exists|access: &mut Arc<T>|
            {
                &&& #[trigger] cell.opened_by(access)
                &&& *final(access) == new_value
                &&& retired.guards(*access, guarded)
                &&& retired.payload() == **access
            },
        guarded ==> began_on(pool, retired.scan().first_sight()),
        !guarded ==> retired.quiescent(),
{
    let displaced = cell.swap(new_value);
    Retired::retire(displaced, pool, guarded)
}

/// Publishes `new_value` if the payload found in `cell` lies in the
/// allocation of `expected`, and then retires that payload; otherwise leaves
/// the cell as found and hands `new_value` back.
pub(crate) fn replace_if_current_in<'a, T, P: EpochCounterPool>(
    cell: &Publication<T>,
    pool: &'a P,
    guarded: bool,
    expected: &Arc<T>,
    new_value: Arc<T>,
) -> (outcome: Result<Retired<'a, T, P>, Arc<T>>)
    ensures
        exists|access: &mut Arc<T>, same: bool|
            {
                &&& #[trigger] cell.opened_by(access)
                &&& #[trigger] compared(*access, *expected, same)
                &&& *final(access) == exchanged_if(same, *access, new_value).0
                &&& match outcome {
                    Ok(retired) => {
                        &&& same
                        &&& retired.guards(*access, guarded)
                        &&& retired.payload() == **access
                    },
                    Err(rejected) => !same && rejected == new_value,
                }
            },
        outcome matches Ok(retired) ==> {
            &&& retired.payload() == **expected
            &&& retired.pool() == pool
            &&& retired.scan().rounds() == 0
            &&& guarded ==> began_on(pool, retired.scan().first_sight())
            &&& !guarded ==> retired.quiescent()
        },
{
    match cell.compare_exchange(expected, new_value) {
        Ok(displaced) => Ok(Retired::retire(displaced, pool, guarded)),
        Err(rejected) => Err(rejected),
    }
}

} // verus!
