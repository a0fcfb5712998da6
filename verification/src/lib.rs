//! A read-optimised container for one shared immutable value, in the style of
//! read-copy-update.
//!
//! Readers take a snapshot of the published payload inside a short read
//! critical section that is bracketed by two increments of an
//! [`epoch_counters::EpochCounter`]. Writers publish a replacement and may
//! hand the displaced payload on only once a scan of the pool's counters has
//! seen every reader outside the critical section it was in.
//!
//! Nothing in this crate blocks or spins without bound: a scan is a value
//! that is polled, and an update is attempted a stated number of times.
use vstd::prelude::*;
use std::sync::Arc;
use crate::epoch_counters::EpochCounter;
use crate::epoch_counters::EpochCounterPool;
use crate::epoch_counters::EpochViolation;
use crate::epoch_counters::GlobalEpochCounterPool;
use crate::epoch_counters::WeakEpochCounter;
use crate::epoch_counters::began_on;
use crate::epoch_counters::exit_verdict;
use crate::epoch_counters::is_active;
use crate::epoch_counters::thread_epoch_counter;
use crate::publication::Publication;
use crate::publication::compared;
use crate::publication::exchanged_if;
use crate::rcu_ref::RcuRef;
use crate::rcu_ref::Whole;
use crate::reclaim::Retired;
use crate::reclaim::Update;

pub mod atomic;
pub mod epoch_counters;
mod lock;
pub mod protocol;
pub mod publication;
pub mod rcu_ref;
pub mod reclaim;
pub mod rwlock;
mod slot;

verus! {

/// A read of `cell` that was made inside a critical section of
/// `epoch_counter` ended in `outcome`: the counter was incremented to enter,
/// and the epoch that this displaced was judged; if the epoch was even the
/// payload was loaded after that, and then the counter was incremented to
/// leave, and the epoch that this displaced was judged. The read gave the
/// payload that was loaded, or failed because an increment displaced an
/// epoch of the wrong parity, with the violation that says so.
pub open spec fn bracketed<T>(
    cell: Publication<T>,
    epoch_counter: &EpochCounter,
    outcome: Result<Arc<T>, EpochViolation>,
) -> bool {
    exists|entered: u8|
        {
            &&& #[trigger] epoch_counter.entered_from(entered)
            &&& if is_active(entered) {
                outcome == Err::<Arc<T>, EpochViolation>(
                    EpochViolation::EnteredWhileActive { found: entered },
                )
            } else {
                exists|read: Arc<T>, left: Result<u8, EpochViolation>|
                    {
                        &&& #[trigger] cell.shows_inside(entered, read)
                        &&& #[trigger] epoch_counter.left_after(read, left)
                        &&& exists|found: u8|
                            #[trigger] epoch_counter.left_from(found) && left == exit_verdict(found)
                        &&& outcome == match left {
                            Ok(_) => Ok::<Arc<T>, EpochViolation>(read),
                            Err(violation) => Err::<Arc<T>, EpochViolation>(violation),
                        }
                    }
            }
        }
}

/// A read of `cell` ended in `outcome`: a read inside a critical section of
/// `epoch_counter` if `guarded`, and else a plain load, which cannot fail and
/// leaves the counter alone.
pub open spec fn read_by<T>(
    cell: Publication<T>,
    guarded: bool,
    epoch_counter: &EpochCounter,
    outcome: Result<Arc<T>, EpochViolation>,
) -> bool {
    if guarded {
        bracketed(cell, epoch_counter, outcome)
    } else {
        outcome matches Ok(read) && cell.shows(read)
    }
}

/// The attempt of an update on `cell` that published: a read gave the handle
/// `read`, `update` gave `candidate` for the payload behind it, and the
/// exchange that expected that handle, made through `access`, found the
/// allocation of `read` still in the cell: the payload that it found is the
/// one that `update` was applied to.
pub open spec fn published_over<T, F: FnMut(&T) -> Option<Arc<T>>>(
    cell: Publication<T>,
    guarded: bool,
    epoch_counter: &EpochCounter,
    update: F,
    read: Arc<T>,
    candidate: Arc<T>,
    access: &mut Arc<T>,
) -> bool {
    &&& read_by(cell, guarded, epoch_counter, Ok(read))
    &&& update.ensures((&*read,), Some(candidate))
    &&& cell.opened_by(access)
    &&& compared(*access, read, true)
    &&& *read == **access
}

/// An attempt of an update on `cell` that lost: a read gave the handle
/// `read`, `update` gave a candidate for the payload behind it, and an
/// exchange that expected that handle found another allocation in the cell.
pub open spec fn lost_on<T, F: FnMut(&T) -> Option<Arc<T>>>(
    cell: Publication<T>,
    guarded: bool,
    epoch_counter: &EpochCounter,
    update: F,
    read: Arc<T>,
) -> bool {
    &&& read_by(cell, guarded, epoch_counter, Ok(read))
    &&& exists|candidate: Arc<T>| update.ensures((&*read,), Some(candidate))
    &&& cell.turned_down(read)
}

/// What the epoch-guarded slot and the plainly locked one have in common.
pub trait Rcu: Sized {
    /// The type of the payload.
    type Item;

    /// The type of the pool whose counters the readers use.
    type Pool: EpochCounterPool;

    /// The pool that the slot was built on.
    spec fn pool_view(&self) -> Self::Pool;

    /// Whether the slot guards displaced payloads by scans of its pool. A slot
    /// that does not leaves the readers' counters alone and hands a displaced
    /// payload on at once.
    spec fn scans_pool(&self) -> bool;

    /// The cell in which the slot keeps its payload. What a reader finds in
    /// it is what the cell shows. What a writer finds in it is what its
    /// access to the cell holds at first, and what the writer leaves there
    /// is what the access holds in the end.
    spec fn cell(&self) -> Publication<Self::Item>;

    /// A slot that holds `initial` and scans `epoch_counter_pool`.
    fn new(initial: Arc<Self::Item>, epoch_counter_pool: Self::Pool) -> (slot: Self)
        ensures
            slot.pool_view() == epoch_counter_pool,
            slot.cell().made_around(initial),
    ;

    /// The pool that the slot was built on.
    fn pool(&self) -> (pool: &Self::Pool)
        ensures
            *pool == self.pool_view(),
    ;

    /// A handle to the payload that is published at the moment of the read.
    /// A slot that scans its pool loads the payload inside a critical
    /// section of `epoch_counter`.
    ///
    /// The counter must belong to the slot's pool and be used by no one else
    /// meanwhile. A violation is reported when the counter is found with the
    /// wrong parity.
    fn raw_read(&self, epoch_counter: &EpochCounter) -> (payload: Result<
        Arc<Self::Item>,
        EpochViolation,
    >)
        ensures
            read_by(self.cell(), self.scans_pool(), epoch_counter, payload),
            payload matches Ok(read) ==> self.cell().shows(read),
    ;

    /// Publishes `new_value` over the payload that it finds in the slot and
    /// then retires that payload: the scan that guards the displaced payload
    /// begins after the exchange.
    fn replace(&self, new_value: Arc<Self::Item>) -> (retired: Retired<
        '_,
        Self::Item,
        Self::Pool,
    >)
        ensures
            retired.pool() == self.pool_view(),
            retired.scan().rounds() == 0,
            exists|access: &mut Arc<Self::Item>|
                {
                    &&& #[trigger] self.cell().opened_by(access)
                    &&& *final(access) == new_value
                    &&& retired.guards(*access, self.scans_pool())
                    &&& retired.payload() == **access
                },
            self.scans_pool() ==> began_on(retired.pool(), retired.scan().first_sight()),
            !self.scans_pool() ==> retired.quiescent(),
    ;

    /// Publishes `new_value` if the payload that it finds in the slot lies in
    /// the allocation of `expected`, and then retires that payload;
    /// otherwise leaves the slot as it finds it and hands `new_value` back.
    fn replace_if_current(&self, expected: &Arc<Self::Item>, new_value: Arc<Self::Item>) -> (outcome:
        Result<Retired<'_, Self::Item, Self::Pool>, Arc<Self::Item>>)
        ensures
            exists|access: &mut Arc<Self::Item>, same: bool|
                {
                    &&& #[trigger] self.cell().opened_by(access)
                    &&& #[trigger] compared(*access, *expected, same)
                    &&& *final(access) == exchanged_if(same, *access, new_value).0
                    &&& match outcome {
                        Ok(retired) => {
                            &&& same
                            &&& retired.guards(*access, self.scans_pool())
                            &&& retired.payload() == **access
                        },
                        Err(rejected) => !same && rejected == new_value,
                    }
                },
            outcome matches Ok(retired) ==> {
                &&& retired.payload() == **expected
                &&& retired.pool() == self.pool_view()
                &&& retired.scan().rounds() == 0
                &&& self.scans_pool() ==> began_on(retired.pool(), retired.scan().first_sight())
                &&& !self.scans_pool() ==> retired.quiescent()
            },
    ;

    /// Reads the payload, computes a candidate from it with `update`, outside
    /// any critical section, and publishes the candidate if the payload is
    /// still the published one; tries again, at most `attempts` times in
    /// all, when it is not.
    ///
    /// The update is aborted when `update` declines for a payload that was
    /// read. It has replaced when the candidate that `update` gave for a
    /// payload that was read was published over that very payload, which was
    /// then retired. It is contended when each of the `attempts` attempts
    /// read a payload for which `update` gave a candidate, and an exchange
    /// that expected the handle that was read found another allocation in
    /// the slot. It fails when a read does.
    #[verifier::loop_isolation(false)]
    fn raw_try_update<F: FnMut(&Self::Item) -> Option<Arc<Self::Item>>>(
        &self,
        mut update: F,
        epoch_counter: &EpochCounter,
        attempts: usize,
    ) -> (outcome: Result<Update<'_, Self::Item, Self::Pool>, EpochViolation>)
        requires
            forall|item: &Self::Item| update.requires((item,)),
        ensures
            attempts == 0 ==> outcome matches Ok(Update::Contended),
            !self.scans_pool() ==> outcome is Ok,
            outcome matches Err(violation) ==> read_by(
                self.cell(),
                self.scans_pool(),
                epoch_counter,
                Err(violation),
            ),
            outcome matches Ok(Update::Aborted) ==> exists|read: Arc<Self::Item>|
                #[trigger] read_by(self.cell(), self.scans_pool(), epoch_counter, Ok(read))
                    && update.ensures((&*read,), None),
            outcome matches Ok(Update::Replaced(retired)) ==> {
                &&& retired.pool() == self.pool_view()
                &&& retired.scan().rounds() == 0
                &&& self.scans_pool() ==> began_on(retired.pool(), retired.scan().first_sight())
                &&& !self.scans_pool() ==> retired.quiescent()
                &&& exists|
                    read: Arc<Self::Item>,
                    candidate: Arc<Self::Item>,
                    access: &mut Arc<Self::Item>,
                |
                    {
                        &&& #[trigger] published_over(
                            self.cell(),
                            self.scans_pool(),
                            epoch_counter,
                            update,
                            read,
                            candidate,
                            access,
                        )
                        &&& *final(access) == candidate
                        &&& retired.guards(*access, self.scans_pool())
                        &&& retired.payload() == *read
                    }
            },
            outcome matches Ok(Update::Contended) ==> exists|reads: Seq<Arc<Self::Item>>|
                #[trigger] reads.len() == attempts && forall|k: int|
                    0 <= k < reads.len() ==> lost_on(
                        self.cell(),
                        self.scans_pool(),
                        epoch_counter,
                        update,
                        #[trigger] reads[k],
                    ),
    {
        let ghost given = update;
        let ghost mut reads: Seq<Arc<Self::Item>> = Seq::empty();
        let mut tried: usize = 0;
        while tried < attempts
            invariant
                tried <= attempts,
                update == given,
                reads.len() == tried,
                forall|k: int|
                    0 <= k < reads.len() ==> lost_on(
                        self.cell(),
                        self.scans_pool(),
                        epoch_counter,
                        given,
                        #[trigger] reads[k],
                    ),
            decreases attempts - tried,
        {
            let old = match self.raw_read(epoch_counter) {
                Err(violation) => { return Err(violation); },
                Ok(old) => old,
            };
            let candidate = match update(&*old) {
                None => { return Ok(Update::Aborted); },
                Some(candidate) => candidate,
            };
            let ghost offered = candidate;
            let published = self.replace_if_current(&old, candidate);
            proof {
                let (access, same) = choose|access: &mut Arc<Self::Item>, same: bool|
                    {
                        &&& #[trigger] self.cell().opened_by(access)
                        &&& #[trigger] compared(*access, old, same)
                        &&& *final(access) == exchanged_if(same, *access, offered).0
                        &&& match published {
                            Ok(retired) => {
                                &&& same
                                &&& retired.guards(*access, self.scans_pool())
                                &&& retired.payload() == **access
                            },
                            Err(rejected) => !same && rejected == offered,
                        }
                    };
                if published is Ok {
                    assert(published_over(
                        self.cell(),
                        self.scans_pool(),
                        epoch_counter,
                        given,
                        old,
                        offered,
                        access,
                    ));
                } else {
                    assert(given.ensures((&*old,), Some(offered)));
                    assert(lost_on(self.cell(), self.scans_pool(), epoch_counter, given, old));
                    let ghost earlier = reads;
                    reads = reads.push(old);
                    assert forall|k: int| 0 <= k < reads.len() implies lost_on(
                        self.cell(),
                        self.scans_pool(),
                        epoch_counter,
                        given,
                        #[trigger] reads[k],
                    ) by {
                        if k < earlier.len() {
                            assert(reads[k] == earlier[k]);
                        }
                    }
                }
            }
            match published {
                Ok(retired) => { return Ok(Update::Replaced(retired)); },
                Err(_rejected) => {},
            }
            tried += 1;
        }
        Ok(Update::Contended)
    }
}

/// The calls that use the calling thread's own counter, for every slot that
/// is built on the pool that all threads share.
///
/// `local` is the thread's place for its counter. On the thread's first call
/// it is empty: a counter is then made at epoch zero, a weak handle to it is
/// appended to the registry of the pool, and the counter is kept in `local`;
/// only then is the slot read.
pub trait ThreadLocalRcu: Rcu<Pool = GlobalEpochCounterPool> {
    /// A snapshot of the payload that is published at the moment of the
    /// read, taken with the counter that [`thread_epoch_counter`] gives for
    /// `local`.
    fn read(&self, local: &mut Option<Arc<EpochCounter>>) -> (snapshot: Result<
        RcuRef<Self::Item, Self::Item, Whole>,
        EpochViolation,
    >)
        ensures
            exists|
                place: &mut Option<Arc<EpochCounter>>,
                epoch_counter: Arc<EpochCounter>,
                payload: Result<Arc<Self::Item>, EpochViolation>,
            |
                {
                    &&& *place == *old(local)
                    &&& *final(place) == *final(local)
                    &&& #[trigger] call_ensures(
                        thread_epoch_counter,
                        (place, &self.pool_view()),
                        epoch_counter,
                    )
                    &&& #[trigger] read_by(
                        self.cell(),
                        self.scans_pool(),
                        &*epoch_counter,
                        payload,
                    )
                    &&& match payload {
                        Ok(read) => snapshot matches Ok(taken) && taken.root_handle() == read
                            && taken.target() == *read,
                        Err(violation) => snapshot == Err::<
                            RcuRef<Self::Item, Self::Item, Whole>,
                            EpochViolation,
                        >(violation),
                    }
                },
    {
        let epoch_counter = thread_epoch_counter(local, self.pool());
        match self.raw_read(&epoch_counter) {
            Ok(payload) => Ok(RcuRef::new(payload)),
            Err(violation) => Err(violation),
        }
    }

    /// Updates the slot as [`Rcu::raw_try_update`] does, with the counter
    /// that [`thread_epoch_counter`] gives for `local`.
    fn try_update<F: FnMut(&Self::Item) -> Option<Arc<Self::Item>>>(
        &self,
        local: &mut Option<Arc<EpochCounter>>,
        update: F,
        attempts: usize,
    ) -> (outcome: Result<Update<'_, Self::Item, Self::Pool>, EpochViolation>)
        requires
            forall|item: &Self::Item| update.requires((item,)),
        ensures
            exists|place: &mut Option<Arc<EpochCounter>>, epoch_counter: Arc<EpochCounter>|
                {
                    &&& *place == *old(local)
                    &&& *final(place) == *final(local)
                    &&& #[trigger] call_ensures(
                        thread_epoch_counter,
                        (place, &self.pool_view()),
                        epoch_counter,
                    )
                    &&& outcome matches Err(violation) ==> read_by(
                        self.cell(),
                        self.scans_pool(),
                        &*epoch_counter,
                        Err(violation),
                    )
                    &&& outcome matches Ok(Update::Aborted) ==> exists|read: Arc<Self::Item>|
                        #[trigger] read_by(
                            self.cell(),
                            self.scans_pool(),
                            &*epoch_counter,
                            Ok(read),
                        ) && update.ensures((&*read,), None)
                    &&& outcome matches Ok(Update::Replaced(retired)) ==> exists|
                        read: Arc<Self::Item>,
                        candidate: Arc<Self::Item>,
                        access: &mut Arc<Self::Item>,
                    |
                        {
                            &&& #[trigger] published_over(
                                self.cell(),
                                self.scans_pool(),
                                &*epoch_counter,
                                update,
                                read,
                                candidate,
                                access,
                            )
                            &&& *final(access) == candidate
                            &&& retired.guards(*access, self.scans_pool())
                            &&& retired.payload() == *read
                        }
                    &&& outcome matches Ok(Update::Contended) ==> exists|
                        reads: Seq<Arc<Self::Item>>,
                    |
                        #[trigger] reads.len() == attempts && forall|k: int|
                            0 <= k < reads.len() ==> lost_on(
                                self.cell(),
                                self.scans_pool(),
                                &*epoch_counter,
                                update,
                                #[trigger] reads[k],
                            )
                },
            attempts == 0 ==> outcome matches Ok(Update::Contended),
            !self.scans_pool() ==> outcome is Ok,
            outcome matches Ok(Update::Replaced(retired)) ==> {
                &&& retired.pool() == self.pool_view()
                &&& retired.scan().rounds() == 0
                &&& self.scans_pool() ==> began_on(retired.pool(), retired.scan().first_sight())
                &&& !self.scans_pool() ==> retired.quiescent()
            },
    {
        let epoch_counter = thread_epoch_counter(local, self.pool());
        self.raw_try_update(update, &epoch_counter, attempts)
    }
}

impl<R: Rcu<Pool = GlobalEpochCounterPool>> ThreadLocalRcu for R {

}

} // verus!
