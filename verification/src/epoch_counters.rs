//! Epoch counters, the pools that hold them, and the scan with which a writer
//! learns that every reader has left the critical section it was seen in.
use vstd::prelude::*;
use std::sync::Arc;
use std::sync::Weak;
use std::sync::atomic::AtomicU8;
use std::sync::atomic::Ordering;
use std::sync::RwLock;
use crate::lock::found;
use crate::lock::lock_new;
use crate::lock::lock_read;
use crate::lock::lock_write;
use crate::lock::opened;
use crate::lock::read_access;
use crate::lock::write_access;

verus! {

/// An odd epoch marks a counter whose owner is inside a read critical
/// section; an even one marks a counter at rest.
pub open spec fn is_active(epoch: u8) -> bool {
    epoch % 2 == 1
}

/// The epoch that a single increment leads to. The counter wraps from its
/// largest value, which is odd, to zero, which is even.
pub open spec fn next_epoch(epoch: u8) -> u8 {
    if epoch == u8::MAX {
        0u8
    } else {
        (epoch + 1) as u8
    }
}

/// A counter that was found with the wrong parity: its owner has broken the
/// enter/leave protocol, and nothing a pool reports about it can be relied on.
#[derive(Clone, Copy, Debug, PartialEq, Eq, Structural)]
pub enum EpochViolation {
    /// A critical section was entered on a counter that was already odd.
    EnteredWhileActive { found: u8 },
    /// A critical section was left on a counter that was even.
    LeftWhileInactive { found: u8 },
}

/// What entering makes of the epoch that the increment displaced: the epoch
/// itself if it was even, a violation if it was odd.
pub open spec fn entry_verdict(found: u8) -> Result<u8, EpochViolation> {
    if is_active(found) {
        Err(EpochViolation::EnteredWhileActive { found })
    } else {
        Ok(found)
    }
}

/// What leaving makes of the epoch that the increment displaced: the epoch
/// itself if it was odd, a violation if it was even.
pub open spec fn exit_verdict(found: u8) -> Result<u8, EpochViolation> {
    if is_active(found) {
        Ok(found)
    } else {
        Err(EpochViolation::LeftWhileInactive { found })
    }
}

/// Judges the epoch that an entering increment displaced: entering is in
/// order exactly when the counter was at rest.
pub fn admit_entry(found: u8) -> (verdict: Result<u8, EpochViolation>)
    ensures
        verdict == entry_verdict(found),
{
    if found % 2 == 0 {
        Ok(found)
    } else {
        Err(EpochViolation::EnteredWhileActive { found })
    }
}

/// Judges the epoch that a leaving increment displaced: leaving is in order
/// exactly when the counter was active.
pub fn admit_exit(found: u8) -> (verdict: Result<u8, EpochViolation>)
    ensures
        verdict == exit_verdict(found),
{
    if found % 2 != 0 {
        Ok(found)
    } else {
        Err(EpochViolation::LeftWhileInactive { found })
    }
}

/// One reader's epoch counter.
///
/// The value lives in an atomic byte that other threads read while its owner
/// increments it, so no contract here speaks of the stored value: each
/// operation states what holds of whatever the atomic handed back.
pub struct EpochCounter(AtomicU8);

impl EpochCounter {
    /// The counter was made with `epoch` as its first value.
    pub closed spec fn made_at(&self, epoch: u8) -> bool {
        call_ensures(AtomicU8::new, (epoch,), self.0)
    }

    /// A load of the counter, with acquire ordering, gave `epoch`.
    pub closed spec fn shows(&self, epoch: u8) -> bool {
        call_ensures(AtomicU8::load, (&self.0, Ordering::Acquire), epoch)
    }

    /// An increment of the counter by one, with acquire ordering, displaced
    /// `found`.
    pub closed spec fn entered_from(&self, found: u8) -> bool {
        call_ensures(AtomicU8::fetch_add, (&self.0, 1u8, Ordering::Acquire), found)
    }

    /// An increment of the counter by one, with release ordering, displaced
    /// `found`.
    pub closed spec fn left_from(&self, found: u8) -> bool {
        call_ensures(AtomicU8::fetch_add, (&self.0, 1u8, Ordering::Release), found)
    }

    /// A counter at rest, at epoch zero.
    pub fn new() -> (counter: Self)
        ensures
            counter.made_at(0),
    {
        EpochCounter(AtomicU8::new(0))
    }

    /// Increments the counter by one to enter the read critical section, and
    /// judges the epoch that the increment displaced.
    ///
    /// Gives the displaced epoch if it was even. Reports a violation when it
    /// was odd, that is when the counter was already inside a critical
    /// section.
    pub fn enter_rcs(&self) -> (entered: Result<u8, EpochViolation>)
        ensures
            exists|found: u8| #[trigger] self.entered_from(found) && entered == entry_verdict(found),
    {
        let found: u8 = self.0.fetch_add(1, Ordering::Acquire);
        assert(self.entered_from(found));
        admit_entry(found)
    }

    /// Increments the counter by one to leave the read critical section, and
    /// judges the epoch that the increment displaced.
    ///
    /// Gives the displaced epoch if it was odd. Reports a violation when it
    /// was even, that is when the counter was not inside a critical section.
    pub fn leave_rcs(&self) -> (left: Result<u8, EpochViolation>)
        ensures
            exists|found: u8| #[trigger] self.left_from(found) && left == exit_verdict(found),
    {
        let found: u8 = self.0.fetch_add(1, Ordering::Release);
        assert(self.left_from(found));
        admit_exit(found)
    }

    /// The critical section in which the handle `loaded` was loaded was left
    /// with `left`: by an increment that was made once the handle was there.
    pub closed spec fn left_after<T>(&self, loaded: Arc<T>, left: Result<u8, EpochViolation>) -> bool {
        call_ensures(EpochCounter::leave_once_loaded::<T>, (self, &loaded), left)
    }

    fn leave_once_loaded<T>(&self, loaded: &Arc<T>) -> (left: Result<u8, EpochViolation>)
        ensures
            exists|found: u8| #[trigger] self.left_from(found) && left == exit_verdict(found),
    {
        self.leave_rcs()
    }

    /// Leaves the read critical section in which the handle `loaded` was
    /// loaded, as [`EpochCounter::leave_rcs`] does.
    pub fn leave_rcs_after<T>(&self, loaded: &Arc<T>) -> (left: Result<u8, EpochViolation>)
        ensures
            self.left_after(*loaded, left),
            exists|found: u8| #[trigger] self.left_from(found) && left == exit_verdict(found),
    {
        self.leave_once_loaded(loaded)
    }

    /// The epoch that a load of the counter gives at the moment of the call.
    pub fn get_epoch(&self) -> (epoch: u8)
        ensures
            self.shows(epoch),
    {
        self.0.load(Ordering::Acquire)
    }
}

impl Default for EpochCounter {
    fn default() -> (counter: Self)
        ensures
            counter.made_at(0),
    {
        EpochCounter::new()
    }
}

/// A reader that a scan still waits for: its place in the pool and the odd
/// epoch at which it was first seen.
#[derive(Clone, Copy, Debug, PartialEq, Eq, Structural)]
pub struct Awaited {
    pub index: usize,
    pub sampled: u8,
}

/// Whether the first sight of a counter obliges the writer to wait for it.
/// `None` stands for a counter whose owner is gone; such a counter, like one
/// seen at rest, needs no waiting.
pub open spec fn must_await(seen: Option<u8>) -> bool {
    seen matches Some(epoch) && is_active(epoch)
}

/// Whether a later sight of an awaited counter leaves the writer waiting: only
/// a counter that is still there and still shows the sampled epoch does.
pub open spec fn still_inside(sampled: u8, seen: Option<u8>) -> bool {
    seen == Some(sampled)
}

/// The readers to wait for after a first sight of every counter of a pool, in
/// the order of the pool: `seen[i]` is what counter `i` showed.
pub open spec fn first_pass_of(seen: Seq<Option<u8>>) -> Seq<Awaited>
    decreases seen.len(),
{
    if seen.len() == 0 {
        Seq::empty()
    } else {
        let earlier = first_pass_of(seen.drop_last());
        if must_await(seen.last()) {
            earlier.push(Awaited { index: (seen.len() - 1) as usize, sampled: seen.last()->0 })
        } else {
            earlier
        }
    }
}

/// The readers still to wait for after another sight of each awaited counter:
/// `seen[k]` is what the counter of `pending[k]` showed. An entry without a
/// sight stays.
pub open spec fn next_pass_of(pending: Seq<Awaited>, seen: Seq<Option<u8>>) -> Seq<Awaited>
    decreases pending.len(),
{
    if pending.len() == 0 {
        Seq::empty()
    } else {
        let earlier = next_pass_of(pending.drop_last(), seen);
        let k = pending.len() - 1;
        if k < seen.len() && !still_inside(pending.last().sampled, seen[k]) {
            earlier
        } else {
            earlier.push(pending.last())
        }
    }
}

/// Picks the readers to wait for from a first sight of every counter.
pub fn first_pass(seen: &Vec<Option<u8>>) -> (pending: Vec<Awaited>)
    ensures
        pending@ == first_pass_of(seen@),
{
    let mut pending: Vec<Awaited> = Vec::new();
    let mut i: usize = 0;
    while i < seen.len()
        invariant
            i <= seen.len(),
            pending@ == first_pass_of(seen@.take(i as int)),
        decreases seen.len() - i,
    {
        proof {
            assert(seen@.take(i + 1).drop_last() == seen@.take(i as int));
        }
        match seen[i] {
            Some(epoch) => {
                if epoch % 2 == 1 {
                    pending.push(Awaited { index: i, sampled: epoch });
                }
            },
            None => {},
        }
        i += 1;
    }
    proof {
        assert(seen@.take(i as int) == seen@);
    }
    pending
}

/// Drops from `pending` every reader whose counter is gone or has moved on.
pub fn next_pass(pending: &Vec<Awaited>, seen: &Vec<Option<u8>>) -> (rest: Vec<Awaited>)
    ensures
        rest@ == next_pass_of(pending@, seen@),
{
    let mut rest: Vec<Awaited> = Vec::new();
    let mut k: usize = 0;
    while k < pending.len()
        invariant
            k <= pending.len(),
            rest@ == next_pass_of(pending@.take(k as int), seen@),
        decreases pending.len() - k,
    {
        proof {
            assert(pending@.take(k + 1).drop_last() == pending@.take(k as int));
        }
        let entry = pending[k];
        let keep = if k < seen.len() {
            match seen[k] {
                Some(epoch) => epoch == entry.sampled,
                None => false,
            }
        } else {
            true
        };
        if keep {
            rest.push(entry);
        }
        k += 1;
    }
    proof {
        assert(pending@.take(k as int) == pending@);
    }
    rest
}

/// The readers still awaited after a first sight of the whole pool and the
/// later sights that followed it, one list of sights for each pass.
pub open spec fn replay(first: Seq<Option<u8>>, later: Seq<Seq<Option<u8>>>) -> Seq<Awaited>
    decreases later.len(),
{
    if later.len() == 0 {
        first_pass_of(first)
    } else {
        next_pass_of(replay(first, later.drop_last()), later.last())
    }
}

/// A first pass awaits exactly the readers whose counters were seen at an odd
/// epoch, each with the epoch it was seen at.
pub proof fn lemma_first_pass_awaits_the_active(seen: Seq<Option<u8>>, reader: Awaited)
    requires
        seen.len() <= usize::MAX,
    ensures
        first_pass_of(seen).contains(reader) <==> {
            &&& reader.index < seen.len()
            &&& seen[reader.index as int] == Some(reader.sampled)
            &&& is_active(reader.sampled)
        },
    decreases seen.len(),
{
    if seen.len() == 0 {
    } else {
        let earlier = first_pass_of(seen.drop_last());
        lemma_first_pass_awaits_the_active(seen.drop_last(), reader);
        let last = Awaited { index: (seen.len() - 1) as usize, sampled: seen.last()->0 };
        if must_await(seen.last()) {
            if earlier.contains(reader) {
                let k = choose|k: int| 0 <= k < earlier.len() && earlier[k] == reader;
                assert(earlier.push(last)[k] == reader);
            }
            if reader == last {
                assert(earlier.push(last)[earlier.len() as int] == reader);
            }
            if earlier.push(last).contains(reader) {
                let k = choose|k: int|
                    0 <= k < earlier.push(last).len() && earlier.push(last)[k] == reader;
                if k < earlier.len() {
                    assert(earlier[k] == reader);
                }
            }
        }
    }
}

/// A later pass only ever drops readers: whoever is awaited after it was
/// awaited before it.
pub proof fn lemma_next_pass_awaits_no_one_new(
    pending: Seq<Awaited>,
    seen: Seq<Option<u8>>,
    reader: Awaited,
)
    requires
        next_pass_of(pending, seen).contains(reader),
    ensures
        pending.contains(reader),
    decreases pending.len(),
{
    if pending.len() > 0 {
        let earlier = next_pass_of(pending.drop_last(), seen);
        let rest = next_pass_of(pending, seen);
        let k = choose|k: int| 0 <= k < rest.len() && rest[k] == reader;
        if k < earlier.len() {
            assert(earlier[k] == reader);
            lemma_next_pass_awaits_no_one_new(pending.drop_last(), seen, reader);
            let j = choose|j: int|
                0 <= j < pending.drop_last().len() && pending.drop_last()[j] == reader;
            assert(pending[j] == reader);
        } else {
            assert(pending[pending.len() - 1] == reader);
        }
    }
}

/// A later pass drops a reader exactly when its counter was seen gone or at
/// another epoch than the sampled one: an awaited reader whose counter still
/// shows the sampled epoch, or was not looked at, stays awaited.
pub proof fn lemma_next_pass_keeps_those_inside(
    pending: Seq<Awaited>,
    seen: Seq<Option<u8>>,
    k: int,
)
    requires
        0 <= k < pending.len(),
        k < seen.len() ==> still_inside(pending[k].sampled, seen[k]),
    ensures
        next_pass_of(pending, seen).contains(pending[k]),
    decreases pending.len(),
{
    let earlier = next_pass_of(pending.drop_last(), seen);
    let rest = next_pass_of(pending, seen);
    if k == pending.len() - 1 {
        assert(rest[earlier.len() as int] == pending[k]);
    } else {
        lemma_next_pass_keeps_those_inside(pending.drop_last(), seen, k);
        let j = choose|j: int| 0 <= j < earlier.len() && earlier[j] == pending.drop_last()[k];
        assert(rest[j] == pending[k]);
    }
}

/// A writer is held up by readers that are still inside only: a pass that
/// finds every awaited counter gone or at another epoch than the sampled one
/// leaves nobody to wait for.
pub proof fn lemma_next_pass_ends_the_wait(pending: Seq<Awaited>, seen: Seq<Option<u8>>)
    requires
        seen.len() >= pending.len(),
        forall|k: int|
            0 <= k < pending.len() ==> !still_inside((#[trigger] pending[k]).sampled, seen[k]),
    ensures
        next_pass_of(pending, seen).len() == 0,
    decreases pending.len(),
{
    if pending.len() > 0 {
        assert forall|k: int| 0 <= k < pending.drop_last().len() implies !still_inside(
            (#[trigger] pending.drop_last()[k]).sampled,
            seen[k],
        ) by {
            assert(pending.drop_last()[k] == pending[k]);
        }
        lemma_next_pass_ends_the_wait(pending.drop_last(), seen);
        assert(pending.last() == pending[pending.len() - 1]);
    }
}

/// Whether pass `round` of a scan was the one that stopped waiting for the
/// reader at `index`: the reader was awaited before the pass, and the pass
/// saw its counter gone or at another epoch than the sampled one.
pub open spec fn cleared_in(
    first: Seq<Option<u8>>,
    later: Seq<Seq<Option<u8>>>,
    index: int,
    round: int,
) -> bool {
    let before = replay(first, later.take(round));
    exists|k: int|
        0 <= k < before.len() && k < later[round].len() && #[trigger] before[k].index == index
            && !still_inside(before[k].sampled, later[round][k])
}

/// Quiescence: however a scan went, every reader that its first pass saw
/// inside a critical section is either still awaited or was, in some later
/// pass, seen gone or at another epoch. So a scan that awaits nobody has seen
/// every such reader outside the critical section it was first seen in.
pub proof fn lemma_scan_clears_by_sight_only(
    first: Seq<Option<u8>>,
    later: Seq<Seq<Option<u8>>>,
    index: int,
)
    requires
        first.len() <= usize::MAX,
        0 <= index < first.len(),
        must_await(first[index]),
    ensures
        replay(first, later).contains(Awaited { index: index as usize, sampled: first[index]->0 })
            || exists|round: int| 0 <= round < later.len() && cleared_in(first, later, index, round),
    decreases later.len(),
{
    let reader = Awaited { index: index as usize, sampled: first[index]->0 };
    if later.len() == 0 {
        lemma_first_pass_awaits_the_active(first, reader);
    } else {
        let before = replay(first, later.drop_last());
        lemma_scan_clears_by_sight_only(first, later.drop_last(), index);
        if before.contains(reader) {
            let k = choose|k: int| 0 <= k < before.len() && before[k] == reader;
            if k < later.last().len() && !still_inside(reader.sampled, later.last()[k]) {
                let round = later.len() - 1;
                assert(later.take(round) =~= later.drop_last());
                assert(before[k].index == index);
                assert(cleared_in(first, later, index, round));
            } else {
                lemma_next_pass_keeps_those_inside(before, later.last(), k);
            }
        } else {
            let round = choose|round: int|
                0 <= round < later.drop_last().len() && cleared_in(
                    first,
                    later.drop_last(),
                    index,
                    round,
                );
            assert(later.drop_last().take(round) =~= later.take(round));
            assert(later.drop_last()[round] == later[round]);
            assert(cleared_in(first, later, index, round));
        }
    }
}

/// A set of epoch counters that a writer can look at.
///
/// A pool only grows: a counter keeps its index for as long as the pool
/// lives. Both methods look at shared state that other threads change, so
/// neither promises anything about what it returns.
pub trait EpochCounterPool {
    /// The number of counters that the pool holds at the moment of the call.
    fn registered(&self) -> usize;

    /// What counter `index` shows at the moment of the call, or `None` when
    /// its owner is gone or the pool holds no such counter.
    fn observe(&self, index: usize) -> Option<u8>;
}

/// A fixed set of counters that the caller hands out to readers itself. The
/// pool keeps every counter alive, so none of them is ever gone.
impl<const N: usize> EpochCounterPool for [Arc<EpochCounter>; N] {
    fn registered(&self) -> (count: usize)
        ensures
            count == N,
    {
        N
    }

    fn observe(&self, index: usize) -> (seen: Option<u8>)
        ensures
            seen is Some <==> index < N,
            seen matches Some(epoch) ==> self@[index as int].shows(epoch),
    {
        if index < N {
            Some(self[index].get_epoch())
        } else {
            None
        }
    }
}

/// `first` is a first sight of `pool`: one look at each of the counters that
/// the pool said it held, in the order of the pool.
pub open spec fn began_on<P: EpochCounterPool>(pool: &P, first: Seq<Option<u8>>) -> bool {
    &&& first.len() <= usize::MAX
    &&& call_ensures(P::registered, (pool,), first.len() as usize)
    &&& forall|i: int|
        0 <= i < first.len() ==> call_ensures(P::observe, (pool, i as usize), #[trigger] first[i])
}

/// `seen` is a later sight of `pool`: one look at the counter of each reader
/// in `pending`, in their order.
pub open spec fn looked_at<P: EpochCounterPool>(
    pool: &P,
    pending: Seq<Awaited>,
    seen: Seq<Option<u8>>,
) -> bool {
    &&& seen.len() == pending.len()
    &&& forall|k: int|
        0 <= k < pending.len() ==> call_ensures(
            P::observe,
            (pool, pending[k].index),
            #[trigger] seen[k],
        )
}

/// The writer's side of the protocol: the readers that were seen inside a
/// critical section and have not been seen outside it since.
///
/// A scan remembers, as ghost state, everything the pool showed it, and its
/// list of awaited readers is always what [`replay`] makes of that history.
pub struct Scan {
    pending: Vec<Awaited>,
    first: Ghost<Seq<Option<u8>>>,
    later: Ghost<Seq<Seq<Option<u8>>>>,
}

impl Scan {
    #[verifier::type_invariant]
    spec fn consistent(self) -> bool {
        self.pending@ == replay(self.first@, self.later@)
    }

    /// What each counter of the pool showed when the scan began.
    pub closed spec fn first_sight(&self) -> Seq<Option<u8>> {
        self.first@
    }

    /// What the awaited counters showed in each pass since, oldest first.
    pub closed spec fn later_sights(&self) -> Seq<Seq<Option<u8>>> {
        self.later@
    }

    /// The readers that the scan still waits for.
    pub open spec fn pending(&self) -> Seq<Awaited> {
        replay(self.first_sight(), self.later_sights())
    }

    /// The number of passes made after the first.
    pub open spec fn rounds(&self) -> nat {
        self.later_sights().len()
    }

    /// No reader is waited for any more.
    pub open spec fn quiescent(&self) -> bool {
        self.pending().len() == 0
    }

    /// A scan of no counters, which waits for nobody.
    pub fn settled() -> (scan: Scan)
        ensures
            scan.first_sight().len() == 0,
            scan.rounds() == 0,
            scan.quiescent(),
    {
        let pending: Vec<Awaited> = Vec::new();
        Scan { pending, first: Ghost(Seq::empty()), later: Ghost(Seq::empty()) }
    }

    /// Looks at every counter of the pool once and awaits those found active.
    pub fn begin<P: EpochCounterPool>(pool: &P) -> (scan: Scan)
        ensures
            scan.rounds() == 0,
            began_on(pool, scan.first_sight()),
    {
        let count = pool.registered();
        let mut seen: Vec<Option<u8>> = Vec::new();
        let mut index: usize = 0;
        while index < count
            invariant
                index <= count,
                seen.len() == index,
                forall|i: int|
                    0 <= i < index ==> call_ensures(P::observe, (pool, i as usize), #[trigger] seen[i]),
            decreases count - index,
        {
            seen.push(pool.observe(index));
            index += 1;
        }
        let pending = first_pass(&seen);
        Scan { pending, first: Ghost(seen@), later: Ghost(Seq::empty()) }
    }

    /// Looks once more at the counter of every awaited reader and stops
    /// waiting for those that are gone or have moved on. Returns whether the
    /// scan is quiescent now.
    pub fn poll<P: EpochCounterPool>(&mut self, pool: &P) -> (quiescent: bool)
        ensures
            quiescent == final(self).quiescent(),
            final(self).first_sight() == old(self).first_sight(),
            final(self).rounds() == old(self).rounds() + 1,
            final(self).later_sights().drop_last() == old(self).later_sights(),
            looked_at(pool, old(self).pending(), final(self).later_sights().last()),
    {
        proof {
            use_type_invariant(&*self);
        }
        let mut seen: Vec<Option<u8>> = Vec::new();
        let mut k: usize = 0;
        while k < self.pending.len()
            invariant
                k <= self.pending.len(),
                seen.len() == k,
                forall|j: int|
                    0 <= j < k ==> call_ensures(
                        P::observe,
                        (pool, self.pending[j].index),
                        #[trigger] seen[j],
                    ),
            decreases self.pending.len() - k,
        {
            seen.push(pool.observe(self.pending[k].index));
            k += 1;
        }
        let rest = next_pass(&self.pending, &seen);
        let quiescent = rest.len() == 0;
        let ghost sights = self.later@.push(seen@);
        proof {
            assert(sights.drop_last() =~= self.later@);
        }
        *self = Scan { pending: rest, first: self.first, later: Ghost(sights) };
        quiescent
    }

    /// Whether the scan waits for no reader any more.
    pub fn is_quiescent(&self) -> (quiescent: bool)
        ensures
            quiescent == self.quiescent(),
    {
        proof {
            use_type_invariant(self);
        }
        self.pending.len() == 0
    }

    /// The readers that the scan still waits for, in the order of the pool.
    pub fn awaited(&self) -> (pending: Vec<Awaited>)
        ensures
            pending@ == self.pending(),
    {
        proof {
            use_type_invariant(self);
        }
        let mut pending: Vec<Awaited> = Vec::new();
        let mut k: usize = 0;
        while k < self.pending.len()
            invariant
                k <= self.pending.len(),
                pending@ == self.pending@.take(k as int),
            decreases self.pending.len() - k,
        {
            pending.push(self.pending[k]);
            k += 1;
        }
        proof {
            assert(self.pending@.take(k as int) == self.pending@);
        }
        pending
    }
}

/// Every pass of `scan` from pass `from` on was a later sight of `pool`, of
/// the readers that the scan awaited before that pass.
pub open spec fn polled_on<P: EpochCounterPool>(pool: &P, scan: Scan, from: nat) -> bool {
    forall|round: int|
        from <= round < scan.rounds() ==> looked_at(
            pool,
            replay(scan.first_sight(), #[trigger] scan.later_sights().take(round)),
            scan.later_sights()[round],
        )
}

/// Quiescence of a scan: a scan that awaits nobody has seen, in one of its
/// later passes, every reader that its first pass saw inside a critical
/// section either gone or at another epoch than the one first seen.
pub proof fn lemma_quiescent_scan_saw_everyone_leave(scan: Scan, index: int)
    requires
        scan.quiescent(),
        scan.first_sight().len() <= usize::MAX,
        0 <= index < scan.first_sight().len(),
        must_await(scan.first_sight()[index]),
    ensures
        exists|round: int|
            0 <= round < scan.rounds() && cleared_in(
                scan.first_sight(),
                scan.later_sights(),
                index,
                round,
            ),
{
    lemma_scan_clears_by_sight_only(scan.first_sight(), scan.later_sights(), index);
}

/// A pass on `pool` keeps the history of a scan that was polled on `pool`
/// from pass `from` on a history of passes on that pool.
pub proof fn lemma_poll_extends_history<P: EpochCounterPool>(
    pool: &P,
    before: Scan,
    after: Scan,
    from: nat,
)
    requires
        polled_on(pool, before, from),
        from <= before.rounds(),
        after.first_sight() == before.first_sight(),
        after.rounds() == before.rounds() + 1,
        after.later_sights().drop_last() == before.later_sights(),
        looked_at(pool, before.pending(), after.later_sights().last()),
    ensures
        polled_on(pool, after, from),
{
    assert forall|round: int| from <= round < after.rounds() implies looked_at(
        pool,
        replay(after.first_sight(), #[trigger] after.later_sights().take(round)),
        after.later_sights()[round],
    ) by {
        assert(after.later_sights().take(round) =~= before.later_sights().take(round));
        if round == before.rounds() {
            assert(before.later_sights().take(round) =~= before.later_sights());
        } else {
            assert(after.later_sights()[round] == after.later_sights().drop_last()[round]);
        }
    }
}

/// Scans the pool until no reader is awaited, for at most `patience` passes
/// after the first. The scan comes back quiescent, or with its patience spent
/// and ready to be polled further.
pub fn wait_for_epochs<P: EpochCounterPool>(pool: &P, patience: usize) -> (scan: Scan)
    ensures
        scan.rounds() <= patience,
        !scan.quiescent() ==> scan.rounds() == patience,
        began_on(pool, scan.first_sight()),
        polled_on(pool, scan, 0),
        forall|earlier: int|
            0 <= earlier < scan.rounds() ==> replay(
                scan.first_sight(),
                #[trigger] scan.later_sights().take(earlier),
            ).len() > 0,
{
    let mut scan = Scan::begin(pool);
    let mut rounds: usize = 0;
    while rounds < patience && !scan.is_quiescent()
        invariant
            rounds <= patience,
            scan.rounds() == rounds,
            began_on(pool, scan.first_sight()),
            polled_on(pool, scan, 0),
            forall|earlier: int|
                0 <= earlier < scan.rounds() ==> replay(
                    scan.first_sight(),
                    #[trigger] scan.later_sights().take(earlier),
                ).len() > 0,
        decreases patience - rounds,
    {
        let ghost earlier_scan = scan;
        scan.poll(pool);
        rounds += 1;
        proof {
            lemma_poll_extends_history(pool, earlier_scan, scan, 0);
            assert forall|earlier: int| 0 <= earlier < scan.rounds() implies replay(
                scan.first_sight(),
                #[trigger] scan.later_sights().take(earlier),
            ).len() > 0 by {
                assert(scan.later_sights().take(earlier) =~= earlier_scan.later_sights().take(
                    earlier,
                ));
                if earlier == earlier_scan.rounds() {
                    assert(earlier_scan.later_sights().take(earlier)
                        =~= earlier_scan.later_sights());
                }
            }
        }
    }
    scan
}

/// A weak handle to a counter: it finds the counter for as long as a strong
/// handle keeps the counter alive, and keeps nothing alive itself.
///
/// The handle is a `std::sync::Weak`. Nothing is known of one but which
/// calls it came from and went to.
#[verifier::external_body]
pub struct WeakEpochCounter {
    inner: Weak<EpochCounter>,
}

/// `Arc::downgrade`: a weak handle to the counter. Nothing is claimed of the
/// handle.
#[verifier::external_body]
fn downgrade(counter: &Arc<EpochCounter>) -> (weak: WeakEpochCounter) {
    WeakEpochCounter { inner: Arc::downgrade(counter) }
}

/// `Weak::upgrade`: a strong handle to the counter, or `None` when no strong
/// handle keeps the counter alive any more. Other threads drop their handles
/// meanwhile, so nothing is claimed of the outcome.
#[verifier::external_body]
fn upgrade(weak: &WeakEpochCounter) -> (counter: Option<Arc<EpochCounter>>) {
    weak.inner.upgrade()
}

/// `Weak::clone`: another weak handle to the same counter. Nothing is
/// claimed of the handle.
#[verifier::external_body]
fn duplicate(weak: &WeakEpochCounter) -> (copy: WeakEpochCounter) {
    WeakEpochCounter { inner: weak.inner.clone() }
}

/// What a scan makes of an attempt to find a counter through a weak handle
/// and of the epoch that the counter, if found, shows: a counter that is not
/// found counts as gone.
pub open spec fn sight_through(found: Option<Arc<EpochCounter>>, seen: Option<u8>) -> bool {
    match found {
        Some(counter) => seen matches Some(epoch) && counter.shows(epoch),
        None => seen is None,
    }
}

impl WeakEpochCounter {
    /// The handle was made, by `Arc::downgrade`, from a strong handle to
    /// `counter`.
    pub closed spec fn made_from(&self, counter: Arc<EpochCounter>) -> bool {
        call_ensures(downgrade, (&counter,), *self)
    }

    /// An attempt to find the counter through the handle, by `Weak::upgrade`,
    /// gave `found`.
    pub closed spec fn finds(&self, found: Option<Arc<EpochCounter>>) -> bool {
        call_ensures(upgrade, (self,), found)
    }

    /// The handle was made, by `Weak::clone`, from `other`.
    pub closed spec fn copied_from(&self, other: WeakEpochCounter) -> bool {
        call_ensures(duplicate, (&other,), *self)
    }

    /// A weak handle to `counter`.
    pub fn new(counter: &Arc<EpochCounter>) -> (weak: Self)
        ensures
            weak.made_from(*counter),
    {
        downgrade(counter)
    }

    /// A strong handle to the counter, or `None` when the counter is gone.
    pub fn upgrade(&self) -> (found: Option<Arc<EpochCounter>>)
        ensures
            self.finds(found),
    {
        upgrade(self)
    }

    /// Another weak handle to the same counter.
    pub fn duplicate(&self) -> (copy: Self)
        ensures
            copy.copied_from(*self),
    {
        duplicate(self)
    }

    /// What the counter shows at the moment of the call, or `None` when the
    /// counter is gone.
    pub fn observe(&self) -> (seen: Option<u8>)
        ensures
            exists|found: Option<Arc<EpochCounter>>|
                #[trigger] self.finds(found) && sight_through(found, seen),
    {
        match self.upgrade() {
            Some(counter) => Some(counter.get_epoch()),
            None => None,
        }
    }
}

/// A pool that is shared by every slot built on it: a registry, behind a
/// reader-writer lock, of weak handles to the counters of all threads that
/// have read so far.
///
/// A thread keeps the one strong handle to its counter. Once the thread has
/// dropped it the counter is gone, and its entry is dead. The registry is
/// never compacted, so a counter keeps its index.
pub struct GlobalEpochCounterPool {
    registry: Arc<RwLock<Vec<WeakEpochCounter>>>,
}

impl GlobalEpochCounterPool {
    /// The lock of the registry was made around an empty list.
    pub closed spec fn made_empty(&self) -> bool {
        exists|registry: Vec<WeakEpochCounter>|
            registry@.len() == 0 && #[trigger] call_ensures(
                lock_new::<Vec<WeakEpochCounter>>,
                (registry,),
                *self.registry,
            )
    }

    /// A reader took the lock of the registry and found the handles of
    /// `registry` behind it, in this order.
    pub closed spec fn lists(&self, registry: Seq<WeakEpochCounter>) -> bool {
        exists|listed: Vec<WeakEpochCounter>|
            #[trigger] found(&*self.registry, listed) && listed@ == registry
    }

    /// A writer took the lock of the registry, and `access` is its access to
    /// the list behind it: what the access holds at first is the registry
    /// that the writer found, and what it holds in the end is the registry
    /// that the writer left.
    pub closed spec fn opened_by(&self, access: &mut Vec<WeakEpochCounter>) -> bool {
        opened(&*self.registry, access)
    }

    /// A pool with an empty registry.
    pub fn new() -> (pool: Self)
        ensures
            pool.made_empty(),
    {
        let registry: Vec<WeakEpochCounter> = Vec::new();
        let ghost empty = registry;
        let lock = lock_new(registry);
        let pool = GlobalEpochCounterPool { registry: Arc::new(lock) };
        assert(pool.made_empty()) by {
            assert(empty@.len() == 0);
            assert(call_ensures(lock_new::<Vec<WeakEpochCounter>>, (empty,), *pool.registry));
        }
        pool
    }

    /// Another handle to the same registry.
    pub fn share(&self) -> (pool: Self)
        ensures
            pool == *self,
    {
        GlobalEpochCounterPool { registry: self.registry.clone() }
    }
}

impl EpochCounterPool for GlobalEpochCounterPool {
    /// The length of the registry as a reader finds it at the moment of the
    /// call.
    fn registered(&self) -> (count: usize)
        ensures
            exists|registry: Seq<WeakEpochCounter>|
                #[trigger] self.lists(registry) && count == registry.len(),
    {
        let guard = lock_read(&self.registry);
        let registry = read_access(&guard);
        assert(found(&*self.registry, *registry));
        assert(self.lists(registry@));
        registry.len()
    }

    /// What the counter behind the handle at `index` of the registry shows,
    /// for the registry as a reader finds it at the moment of the call.
    /// `None` where the counter is gone or the registry is shorter.
    fn observe(&self, index: usize) -> (seen: Option<u8>)
        ensures
            exists|registry: Seq<WeakEpochCounter>|
                {
                    &&& #[trigger] self.lists(registry)
                    &&& index >= registry.len() ==> seen is None
                    &&& index < registry.len() ==> exists|found: Option<Arc<EpochCounter>>|
                        #[trigger] registry[index as int].finds(found) && sight_through(found, seen)
                },
    {
        let guard = lock_read(&self.registry);
        let registry = read_access(&guard);
        assert(found(&*self.registry, *registry));
        assert(self.lists(registry@));
        if index < registry.len() {
            registry[index].observe()
        } else {
            None
        }
    }
}

/// Appends `epoch_counter` to the registry of `pool`: behind the handles
/// that a writer finds there at the moment of the call, which stay as they
/// are and in their order.
pub fn register_epoch_counter(pool: &GlobalEpochCounterPool, epoch_counter: WeakEpochCounter)
    ensures
        exists|access: &mut Vec<WeakEpochCounter>|
            #[trigger] pool.opened_by(access) && final(access)@ == access@.push(epoch_counter),
{
    let mut guard = lock_write(&pool.registry);
    let registry = write_access(&mut guard);
    assert(pool.opened_by(registry));
    registry.push(epoch_counter);
}

/// A copy of every handle of the registry of `pool` as a reader finds it at
/// the moment of the call, in the order of registration.
pub fn global_counters(pool: &GlobalEpochCounterPool) -> (counters: Vec<WeakEpochCounter>)
    ensures
        exists|registry: Seq<WeakEpochCounter>|
            {
                &&& #[trigger] pool.lists(registry)
                &&& counters@.len() == registry.len()
                &&& forall|i: int|
                    0 <= i < registry.len() ==> (#[trigger] counters@[i]).copied_from(registry[i])
            },
{
    let guard = lock_read(&pool.registry);
    let registry = read_access(&guard);
    assert(found(&*pool.registry, *registry));
    assert(pool.lists(registry@));
    let mut counters: Vec<WeakEpochCounter> = Vec::new();
    let mut index: usize = 0;
    while index < registry.len()
        invariant
            index <= registry.len(),
            counters@.len() == index,
            forall|i: int| 0 <= i < index ==> (#[trigger] counters@[i]).copied_from(registry@[i]),
        decreases registry.len() - index,
    {
        counters.push(registry[index].duplicate());
        index += 1;
    }
    counters
}

/// A handle to the counter that `local` holds for the calling thread.
///
/// On first use, when `local` is still empty, a fresh counter is made,
/// registered with `pool` and kept in `local` for the calls to come.
pub fn thread_epoch_counter(
    local: &mut Option<Arc<EpochCounter>>,
    pool: &GlobalEpochCounterPool,
) -> (epoch_counter: Arc<EpochCounter>)
    ensures
        *final(local) == Some(epoch_counter),
        *old(local) is Some ==> *final(local) == *old(local),
        *old(local) is None ==> epoch_counter.made_at(0) && exists|
            weak: WeakEpochCounter,
            access: &mut Vec<WeakEpochCounter>,
        |
            {
                &&& #[trigger] weak.made_from(epoch_counter)
                &&& #[trigger] pool.opened_by(access)
                &&& final(access)@ == access@.push(weak)
            },
{
    if local.is_none() {
        let counter = Arc::new(EpochCounter::new());
        register_epoch_counter(pool, WeakEpochCounter::new(&counter));
        *local = Some(counter);
    }
    match local {
        Some(counter) => counter.clone(),
        None => vstd::pervasive::unreached(),
    }
}

/// Calls `fun` with the counter that [`thread_epoch_counter`] gives for
/// `local`, the calling thread's place for its counter.
///
/// On first use, when `local` is still empty, that call makes a fresh counter
/// at epoch zero, appends a weak handle to it to the registry of `pool` and
/// keeps the counter in `local`; only then is `fun` called, with the counter
/// that the call handed back.
pub fn with_thread_local_epoch_counter<R, F: FnOnce(&EpochCounter) -> R>(
    local: &mut Option<Arc<EpochCounter>>,
    pool: &GlobalEpochCounterPool,
    fun: F,
) -> (result: R)
    requires
        forall|counter: &EpochCounter| fun.requires((counter,)),
    ensures
        exists|place: &mut Option<Arc<EpochCounter>>, epoch_counter: Arc<EpochCounter>|
            {
                &&& *place == *old(local)
                &&& *final(place) == *final(local)
                &&& #[trigger] call_ensures(thread_epoch_counter, (place, pool), epoch_counter)
                &&& fun.ensures((&*epoch_counter,), result)
            },
        *final(local) matches Some(counter) && fun.ensures((&*counter,), result),
        *old(local) is Some ==> *final(local) == *old(local),
        *old(local) is None ==> (*final(local))->0.made_at(0) && exists|
            weak: WeakEpochCounter,
            access: &mut Vec<WeakEpochCounter>,
        |
            {
                &&& #[trigger] weak.made_from((*final(local))->0)
                &&& #[trigger] pool.opened_by(access)
                &&& final(access)@ == access@.push(weak)
            },
{
    let epoch_counter = thread_epoch_counter(local, pool);
    fun(&*epoch_counter)
}

/// A pool over a list of weak handles, such as [`global_counters`] gives:
/// the counters that the list names, in its order. A counter that is gone
/// needs no waiting.
impl EpochCounterPool for Vec<WeakEpochCounter> {
    fn registered(&self) -> (count: usize)
        ensures
            count == self@.len(),
    {
        self.len()
    }

    fn observe(&self, index: usize) -> (seen: Option<u8>)
        ensures
            index >= self@.len() ==> seen is None,
            index < self@.len() ==> exists|found: Option<Arc<EpochCounter>>|
                #[trigger] self@[index as int].finds(found) && sight_through(found, seen),
    {
        if index < self.len() {
            self[index].observe()
        } else {
            None
        }
    }
}

} // verus!
