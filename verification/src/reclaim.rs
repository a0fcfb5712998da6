//! Displaced payloads on their way back to the writer: a payload that was
//! taken out of a slot is handed on only once the scan that began after its
//! displacement is quiescent.
use vstd::prelude::*;
use std::sync::Arc;
use crate::epoch_counters::EpochCounterPool;
use crate::epoch_counters::Scan;
use crate::epoch_counters::began_on;
use crate::epoch_counters::lemma_poll_extends_history;
use crate::epoch_counters::looked_at;
use crate::epoch_counters::polled_on;

verus! {

/// A payload that a writer has displaced, together with the scan that must
/// finish before the writer may have it.
///
/// The payload can leave only through [`Retired::reclaim`] and
/// [`Retired::wait`], and only from a quiescent scan.
#[verifier::reject_recursive_types(T)]
pub struct Retired<'a, T, P: EpochCounterPool> {
    displaced: Arc<T>,
    scan: Scan,
    pool: &'a P,
}

impl<'a, T, P: EpochCounterPool> Retired<'a, T, P> {
    /// The displaced payload.
    pub closed spec fn payload(&self) -> T {
        *self.displaced
    }

    /// The scan that guards the payload.
    pub closed spec fn scan(&self) -> Scan {
        self.scan
    }

    /// The pool that the scan looks at.
    pub closed spec fn pool(&self) -> &'a P {
        self.pool
    }

    /// The scan waits for no reader any more.
    pub open spec fn quiescent(&self) -> bool {
        self.scan().quiescent()
    }

    /// The payload behind `displaced` was put under its guard once it had
    /// been displaced: by a scan of the pool that began then if `guarded`,
    /// and by none otherwise.
    pub closed spec fn guards(&self, displaced: Arc<T>, guarded: bool) -> bool {
        call_ensures(Retired::<T, P>::put_under_guard, (displaced, self.pool, guarded), *self)
    }

    fn put_under_guard(displaced: Arc<T>, pool: &'a P, guarded: bool) -> (retired: Self)
        ensures
            retired.payload() == *displaced,
            retired.pool() == pool,
            retired.scan().rounds() == 0,
            guarded ==> began_on(pool, retired.scan().first_sight()),
            !guarded ==> retired.quiescent(),
    {
        let scan = if guarded {
            Scan::begin(pool)
        } else {
            Scan::settled()
        };
        Retired { displaced, scan, pool }
    }

    /// Puts a payload that was displaced under its guard: a scan of `pool`
    /// that begins now if `guarded`, or none, so that the payload can be
    /// handed on at once.
    pub fn retire(displaced: Arc<T>, pool: &'a P, guarded: bool) -> (retired: Self)
        ensures
            retired.guards(displaced, guarded),
            retired.payload() == *displaced,
            retired.pool() == pool,
            retired.scan().rounds() == 0,
            guarded ==> began_on(pool, retired.scan().first_sight()),
            !guarded ==> retired.quiescent(),
    {
        Self::put_under_guard(displaced, pool, guarded)
    }

    /// Makes one more pass over the awaited readers. Returns whether the scan
    /// is quiescent now.
    pub fn poll(&mut self) -> (quiescent: bool)
        ensures
            quiescent == final(self).quiescent(),
            final(self).payload() == old(self).payload(),
            final(self).pool() == old(self).pool(),
            final(self).scan().first_sight() == old(self).scan().first_sight(),
            final(self).scan().rounds() == old(self).scan().rounds() + 1,
            final(self).scan().later_sights().drop_last() == old(self).scan().later_sights(),
            looked_at(
                old(self).pool(),
                old(self).scan().pending(),
                final(self).scan().later_sights().last(),
            ),
    {
        self.scan.poll(self.pool)
    }

    /// Whether the scan waits for no reader any more.
    pub fn is_quiescent(&self) -> (quiescent: bool)
        ensures
            quiescent == self.quiescent(),
    {
        self.scan.is_quiescent()
    }

    /// Hands the payload on if the scan is quiescent; otherwise hands `self`
    /// back unchanged.
    pub fn reclaim(self) -> (outcome: Result<Arc<T>, Self>)
        ensures
            match outcome {
                Ok(payload) => self.quiescent() && *payload == self.payload(),
                Err(waiting) => !self.quiescent() && waiting == self,
            },
    {
        if self.scan.is_quiescent() {
            Ok(self.displaced)
        } else {
            Err(self)
        }
    }

    /// Polls until the scan is quiescent, at most `patience` times, and then
    /// hands the payload on: the payload leaves only from a scan that has
    /// become quiescent by passes over the pool. With its patience spent it
    /// comes back as it then stands, still waiting.
    pub fn wait(self, patience: usize) -> (outcome: Result<Arc<T>, Self>)
        ensures
            outcome matches Ok(payload) ==> *payload == self.payload() && exists|last: Scan|
                {
                    &&& #[trigger] last.quiescent()
                    &&& last.first_sight() == self.scan().first_sight()
                    &&& self.scan().rounds() <= last.rounds() <= self.scan().rounds() + patience
                    &&& last.later_sights().take(self.scan().rounds() as int)
                        == self.scan().later_sights()
                    &&& polled_on(self.pool(), last, self.scan().rounds())
                },
            outcome matches Err(waiting) ==> {
                &&& !waiting.quiescent()
                &&& waiting.payload() == self.payload()
                &&& waiting.pool() == self.pool()
                &&& waiting.scan().first_sight() == self.scan().first_sight()
                &&& waiting.scan().rounds() == self.scan().rounds() + patience
                &&& waiting.scan().later_sights().take(self.scan().rounds() as int)
                    == self.scan().later_sights()
                &&& polled_on(self.pool(), waiting.scan(), self.scan().rounds())
            },
            self.quiescent() ==> outcome is Ok,
    {
        let mut waiting = self;
        let mut rounds: usize = 0;
        proof {
            assert(self.scan().later_sights().take(self.scan().rounds() as int)
                =~= self.scan().later_sights());
        }
        while rounds < patience && !waiting.is_quiescent()
            invariant
                rounds <= patience,
                waiting.payload() == self.payload(),
                waiting.pool() == self.pool(),
                waiting.scan().first_sight() == self.scan().first_sight(),
                waiting.scan().rounds() == self.scan().rounds() + rounds,
                waiting.scan().later_sights().take(self.scan().rounds() as int)
                    == self.scan().later_sights(),
                polled_on(self.pool(), waiting.scan(), self.scan().rounds()),
                self.quiescent() ==> waiting == self,
            decreases patience - rounds,
        {
            let ghost before = waiting;
            waiting.poll();
            rounds += 1;
            proof {
                lemma_poll_extends_history(
                    self.pool(),
                    before.scan(),
                    waiting.scan(),
                    self.scan().rounds(),
                );
                assert(waiting.scan().later_sights().take(self.scan().rounds() as int)
                    =~= waiting.scan().later_sights().drop_last().take(
                    self.scan().rounds() as int,
                ));
            }
        }
        let ghost last = waiting.scan();
        let outcome = waiting.reclaim();
        assert(outcome is Ok ==> last.quiescent());
        outcome
    }
}

/// How an update ended.
#[verifier::reject_recursive_types(T)]
pub enum Update<'a, T, P: EpochCounterPool> {
    /// The update function declined: nothing was published.
    Aborted,
    /// The candidate was published over the payload it was computed from.
    Replaced(Retired<'a, T, P>),
    /// Every attempt found that another writer had published in between.
    Contended,
}

} // verus!
