//! The reclamation protocol as a transition system, and what holds of every
//! state that it can reach.
//!
//! A state holds one slot, the readers of its pool, the writers that have
//! published so far, and the strong count of every payload. A step is one
//! atomic action: a reader's increment, load or count, a writer's exchange,
//! one look at one counter, the release of a displaced payload, the dropping
//! of a handle, or the destruction of the slot. Steps of different readers
//! and writers interleave freely. Payloads are numbered in the order of
//! publication.
//!
//! This is a model. Its steps are named after what the library's calls do:
//! a read is thought of as an `Enter`, a `Load`, a `Count` and a `Leave`; a
//! replacement, or an update whose exchange succeeds, as a `Swap`; the scan
//! that guards the displaced payload as a `Sample` of every reader and then
//! `Recheck`s of those it awaits; and reclaiming the payload from the
//! quiescent scan as the `Release`. A reader of the model enters only while
//! it is outside, which is what it means that a counter is used by one
//! thread at a time.
//!
//! The model and the library share the spec functions by which a counter is
//! judged and an exchange is described. No contract of the library says that
//! a run of its calls is a run of the model: the laws below are laws of the
//! protocol, proved of every run of the model.
use vstd::prelude::*;
use crate::epoch_counters::is_active;
use crate::epoch_counters::must_await;
use crate::epoch_counters::next_epoch;
use crate::epoch_counters::still_inside;
use crate::publication::exchanged;

verus! {

/// Where a reader stands in its read.
pub enum Phase {
    /// Outside the critical section.
    Outside,
    /// Inside, with nothing loaded yet.
    Entered,
    /// Inside, holding the bare address of a payload that it has not yet
    /// taken a strong handle to.
    Loaded(nat),
    /// Inside, after it has taken a strong handle to the payload.
    Counted(nat),
}

/// A reader with its epoch counter.
pub struct Reader {
    /// The counter is in the pool.
    pub registered: bool,
    /// The owner of the counter is gone.
    pub gone: bool,
    /// How often the counter has been incremented.
    pub ticks: nat,
    pub phase: Phase,
}

/// What a writer's scan knows of one reader.
pub enum Watch {
    /// The scan has not looked at the reader's counter yet.
    Unseen,
    /// The counter was first seen at this odd epoch and has shown it since.
    Awaiting(u8),
    /// The scan does not wait for the reader.
    Cleared,
}

/// A writer from its exchange on.
pub struct Writer {
    /// The payload that the exchange displaced.
    pub displaced: nat,
    /// The ticks of every reader at the exchange.
    pub ticks_at_swap: Seq<nat>,
    /// The scan that began after the exchange, reader by reader.
    pub watch: Seq<Watch>,
    /// The displaced payload has been handed on.
    pub released: bool,
}

/// A slot with its readers and writers.
pub struct System {
    /// The payload that the slot holds.
    pub published: nat,
    /// The slot has not been destroyed.
    pub alive: bool,
    pub readers: Seq<Reader>,
    pub writers: Seq<Writer>,
    /// The strong count of each payload.
    pub strong: Seq<nat>,
    /// How many strong handles to each payload are out of the protocol's
    /// hands: those that readers took, and those of displaced payloads that
    /// writers have handed on.
    pub outside: Seq<nat>,
    /// How often each payload has been dropped.
    pub dropped: Seq<nat>,
}

/// One atomic action.
pub enum Step {
    /// A reader's counter joins the pool.
    Register { reader: int },
    /// A reader's owner goes away, outside any critical section.
    Depart { reader: int },
    /// A reader increments its counter to enter the critical section.
    Enter { reader: int },
    /// A reader loads the address of the published payload.
    Load { reader: int },
    /// A reader takes a strong handle to the payload it loaded. The handle is
    /// the reader's own from then on.
    Count { reader: int },
    /// A reader increments its counter to leave the critical section.
    Leave { reader: int },
    /// A writer publishes the next payload, by an exchange or by a
    /// compare-and-exchange that succeeds.
    Swap,
    /// A writer's scan looks at a reader's counter for the first time.
    Sample { writer: int, reader: int },
    /// A writer's scan looks again at the counter of a reader it awaits.
    Recheck { writer: int, reader: int },
    /// A writer hands the displaced payload on.
    Release { writer: int },
    /// Someone drops a strong handle that is out of the protocol's hands.
    Discard { payload: int },
    /// The slot is destroyed, with the strong handle that it holds.
    Destroy,
}

/// The epoch that a counter shows after `ticks` increments from zero.
pub open spec fn epoch_of(ticks: nat) -> u8 {
    (ticks % 256) as u8
}

/// What a scan sees when it looks at the reader's counter.
pub open spec fn sight(reader: Reader) -> Option<u8> {
    if reader.registered && !reader.gone {
        Some(epoch_of(reader.ticks))
    } else {
        None
    }
}

/// The state before anything has happened: payload 0 is published, no counter
/// is registered, and nobody has written.
pub open spec fn initial(s: System) -> bool {
    &&& s.published == 0
    &&& s.alive
    &&& s.writers.len() == 0
    &&& s.strong == seq![1nat]
    &&& s.outside == seq![0nat]
    &&& s.dropped == seq![0nat]
    &&& forall|i: int|
        0 <= i < s.readers.len() ==> #[trigger] s.readers[i] == (Reader {
            registered: false,
            gone: false,
            ticks: 0,
            phase: Phase::Outside,
        })
}

/// `i` is the index of a reader.
pub open spec fn has_reader(s: System, i: int) -> bool {
    0 <= i < s.readers.len()
}

/// `w` is the index of a writer.
pub open spec fn has_writer(s: System, w: int) -> bool {
    0 <= w < s.writers.len()
}

/// The scan of `writer` waits for no reader of `count` readers.
pub open spec fn all_cleared(writer: Writer, count: nat) -> bool {
    forall|i: int| 0 <= i < count ==> #[trigger] writer.watch[i] == Watch::Cleared
}

/// Every reader is outside its critical section.
pub open spec fn all_outside(s: System) -> bool {
    forall|i: int| 0 <= i < s.readers.len() ==> (#[trigger] s.readers[i]).phase == Phase::Outside
}

/// Every writer has handed its displaced payload on.
pub open spec fn all_released(s: System) -> bool {
    forall|w: int| 0 <= w < s.writers.len() ==> (#[trigger] s.writers[w]).released
}

/// The state after one strong handle to `payload` was dropped: the count goes
/// down by one, and the payload is dropped when the count reaches zero.
pub open spec fn let_go(s: System, payload: int) -> System {
    System {
        strong: s.strong.update(payload, (s.strong[payload] - 1) as nat),
        dropped: if s.strong[payload] == 1 {
            s.dropped.update(payload, s.dropped[payload] + 1)
        } else {
            s.dropped
        },
        ..s
    }
}

/// Whether `step` can be taken in `s`.
pub open spec fn enabled(s: System, step: Step) -> bool {
    match step {
        Step::Register { reader } => has_reader(s, reader) && !s.readers[reader].registered,
        Step::Depart { reader } => {
            &&& has_reader(s, reader)
            &&& s.readers[reader].registered
            &&& !s.readers[reader].gone
            &&& s.readers[reader].phase == Phase::Outside
        },
        Step::Enter { reader } => {
            &&& s.alive
            &&& has_reader(s, reader)
            &&& s.readers[reader].registered
            &&& !s.readers[reader].gone
            &&& s.readers[reader].phase == Phase::Outside
        },
        Step::Load { reader } => has_reader(s, reader) && s.readers[reader].phase == Phase::Entered,
        Step::Count { reader } => has_reader(s, reader) && s.readers[reader].phase is Loaded,
        Step::Leave { reader } => has_reader(s, reader) && s.readers[reader].phase is Counted,
        Step::Swap => s.alive,
        Step::Sample { writer, reader } => {
            &&& has_writer(s, writer)
            &&& has_reader(s, reader)
            &&& s.writers[writer].watch[reader] == Watch::Unseen
        },
        Step::Recheck { writer, reader } => {
            &&& has_writer(s, writer)
            &&& has_reader(s, reader)
            &&& s.writers[writer].watch[reader] is Awaiting
        },
        Step::Release { writer } => {
            &&& has_writer(s, writer)
            &&& !s.writers[writer].released
            &&& all_cleared(s.writers[writer], s.readers.len())
        },
        Step::Discard { payload } => 0 <= payload < s.outside.len() && s.outside[payload] > 0,
        Step::Destroy => s.alive && all_outside(s) && all_released(s),
    }
}

/// What a first look at `reader` makes of it.
pub open spec fn sampled(reader: Reader) -> Watch {
    if must_await(sight(reader)) {
        Watch::Awaiting(sight(reader)->0)
    } else {
        Watch::Cleared
    }
}

/// What another look at `reader` makes of a watch that awaits it.
pub open spec fn rechecked(watch: Watch, reader: Reader) -> Watch {
    match watch {
        Watch::Awaiting(epoch) => if still_inside(epoch, sight(reader)) {
            watch
        } else {
            Watch::Cleared
        },
        _ => watch,
    }
}

/// The writer that an exchange adds: it holds the displaced payload and has
/// looked at no counter yet.
pub open spec fn new_writer(s: System) -> Writer {
    Writer {
        displaced: exchanged(s.published, s.published + 1).1,
        ticks_at_swap: Seq::new(s.readers.len(), |i: int| s.readers[i].ticks),
        watch: Seq::new(s.readers.len(), |i: int| Watch::Unseen),
        released: false,
    }
}

/// The state that `step` leads to from `s`.
pub open spec fn apply(s: System, step: Step) -> System {
    match step {
        Step::Register { reader } => System {
            readers: s.readers.update(reader, Reader { registered: true, ..s.readers[reader] }),
            ..s
        },
        Step::Depart { reader } => System {
            readers: s.readers.update(reader, Reader { gone: true, ..s.readers[reader] }),
            ..s
        },
        Step::Enter { reader } => System {
            readers: s.readers.update(
                reader,
                Reader {
                    ticks: s.readers[reader].ticks + 1,
                    phase: Phase::Entered,
                    ..s.readers[reader]
                },
            ),
            ..s
        },
        Step::Load { reader } => System {
            readers: s.readers.update(
                reader,
                Reader { phase: Phase::Loaded(s.published), ..s.readers[reader] },
            ),
            ..s
        },
        Step::Count { reader } => {
            let payload = s.readers[reader].phase->Loaded_0 as int;
            System {
                readers: s.readers.update(
                    reader,
                    Reader { phase: Phase::Counted(payload as nat), ..s.readers[reader] },
                ),
                strong: s.strong.update(payload, s.strong[payload] + 1),
                outside: s.outside.update(payload, s.outside[payload] + 1),
                ..s
            }
        },
        Step::Leave { reader } => System {
            readers: s.readers.update(
                reader,
                Reader {
                    ticks: s.readers[reader].ticks + 1,
                    phase: Phase::Outside,
                    ..s.readers[reader]
                },
            ),
            ..s
        },
        Step::Swap => System {
            published: exchanged(s.published, s.published + 1).0,
            writers: s.writers.push(new_writer(s)),
            strong: s.strong.push(1),
            outside: s.outside.push(0),
            dropped: s.dropped.push(0),
            ..s
        },
        Step::Sample { writer, reader } => System {
            writers: s.writers.update(
                writer,
                Writer {
                    watch: s.writers[writer].watch.update(reader, sampled(s.readers[reader])),
                    ..s.writers[writer]
                },
            ),
            ..s
        },
        Step::Recheck { writer, reader } => System {
            writers: s.writers.update(
                writer,
                Writer {
                    watch: s.writers[writer].watch.update(
                        reader,
                        rechecked(s.writers[writer].watch[reader], s.readers[reader]),
                    ),
                    ..s.writers[writer]
                },
            ),
            ..s
        },
        Step::Release { writer } => System {
            writers: s.writers.update(writer, Writer { released: true, ..s.writers[writer] }),
            outside: s.outside.update(writer, s.outside[writer] + 1),
            ..s
        },
        Step::Discard { payload } => let_go(
            System { outside: s.outside.update(payload, (s.outside[payload] - 1) as nat), ..s },
            payload,
        ),
        Step::Destroy => let_go(System { alive: false, ..s }, s.published as int),
    }
}

/// A run of the system: `states[0]` is initial, and each step is enabled and
/// leads from one state to the next.
pub open spec fn is_run(states: Seq<System>, steps: Seq<Step>) -> bool {
    &&& states.len() == steps.len() + 1
    &&& initial(states[0])
    &&& forall|k: int|
        0 <= k < steps.len() ==> enabled(states[k], #[trigger] steps[k]) && states[k + 1] == apply(
            states[k],
            steps[k],
        )
}

/// What holds of reader `i` in every reachable state: its counter is odd
/// exactly while it is inside the critical section, only a registered reader
/// whose owner is there can be inside, and it has loaded no payload that is
/// yet to be published.
pub open spec fn reader_ok(s: System, i: int) -> bool {
    let r = s.readers[i];
    &&& (r.phase == Phase::Outside) == (r.ticks % 2 == 0)
    &&& r.phase != Phase::Outside ==> r.registered && !r.gone
    &&& r.phase matches Phase::Loaded(p) ==> p <= s.published
}

/// What holds of writer `w` in every reachable state: it displaced payload
/// `w`, its scan covers every reader, and it has released only after its scan
/// had cleared them all.
pub open spec fn writer_ok(s: System, w: int) -> bool {
    let writer = s.writers[w];
    &&& writer.displaced == w
    &&& writer.watch.len() == s.readers.len()
    &&& writer.ticks_at_swap.len() == s.readers.len()
    &&& writer.released ==> all_cleared(writer, s.readers.len())
}

/// A reader that holds the bare address of the payload that writer `w`
/// displaced is one that the writer's scan has yet to look at, or awaits at
/// the epoch that the reader's counter shows.
pub open spec fn guarded(s: System, w: int, i: int) -> bool {
    s.readers[i].phase == Phase::Loaded(w as nat) ==> {
        ||| s.writers[w].watch[i] == Watch::Unseen
        ||| s.writers[w].watch[i] == Watch::Awaiting(epoch_of(s.readers[i].ticks))
    }
}

/// A counter never runs backwards; a reader that writer `w` has cleared was
/// outside at the exchange or has incremented its counter since; and one that
/// it awaits has incremented its counter since or still shows the sampled
/// epoch.
pub open spec fn kept_pace(s: System, w: int, i: int) -> bool {
    let before = s.writers[w].ticks_at_swap[i];
    let now = s.readers[i].ticks;
    &&& before <= now
    &&& s.writers[w].watch[i] == Watch::Cleared ==> before % 2 == 0 || now > before
    &&& s.writers[w].watch[i] matches Watch::Awaiting(epoch) ==> now > before || epoch == epoch_of(
        now,
    )
}

/// The strong handles to `payload` that someone holds: one by the slot while
/// it publishes the payload, one by the writer that displaced the payload
/// until it hands the payload on, and those out of the protocol's hands.
pub open spec fn holders(s: System, payload: int) -> nat {
    let by_slot: nat = if s.alive && payload == s.published {
        1
    } else {
        0
    };
    let by_writer: nat = if payload < s.writers.len() && !s.writers[payload].released {
        1
    } else {
        0
    };
    by_slot + by_writer + s.outside[payload]
}

/// The strong count of `payload` is the number of its holders, and the
/// payload has been dropped once if the count is zero and never otherwise.
pub open spec fn accounted(s: System, payload: int) -> bool {
    &&& s.strong[payload] == holders(s, payload)
    &&& s.dropped[payload] == (if s.strong[payload] == 0 {
        1nat
    } else {
        0nat
    })
}

/// The invariant of the protocol.
pub open spec fn inv(s: System) -> bool {
    &&& s.published == s.writers.len()
    &&& s.strong.len() == s.published + 1
    &&& s.outside.len() == s.published + 1
    &&& s.dropped.len() == s.published + 1
    &&& !s.alive ==> all_outside(s) && all_released(s)
    &&& forall|payload: int| 0 <= payload <= s.published ==> #[trigger] accounted(s, payload)
    &&& forall|i: int| has_reader(s, i) ==> #[trigger] reader_ok(s, i)
    &&& forall|w: int| has_writer(s, w) ==> #[trigger] writer_ok(s, w)
    &&& forall|w: int, i: int|
        has_writer(s, w) && has_reader(s, i) ==> #[trigger] guarded(s, w, i) && kept_pace(s, w, i)
}

/// An increment takes a counter from the epoch of `ticks` to the next epoch,
/// and the epoch is odd exactly when the number of increments is.
pub proof fn lemma_epoch_of_ticks(ticks: nat)
    ensures
        epoch_of(ticks + 1) == next_epoch(epoch_of(ticks)),
        is_active(epoch_of(ticks)) == (ticks % 2 == 1),
        is_active(next_epoch(epoch_of(ticks))) == !is_active(epoch_of(ticks)),
{
}

proof fn lemma_initial_invariant(s: System)
    requires
        initial(s),
    ensures
        inv(s),
{
    assert forall|i: int| has_reader(s, i) implies #[trigger] reader_ok(s, i) by {
        assert(s.readers[i].ticks == 0);
    }
}

proof fn lemma_step_keeps_invariant(s: System, step: Step)
    requires
        inv(s),
        enabled(s, step),
    ensures
        inv(apply(s, step)),
{
    let t = apply(s, step);
    assert(t.readers.len() == s.readers.len());
    if let Step::Count { reader } = step {
        assert(reader_ok(s, reader));
    }
    if !t.alive {
        assert forall|i: int| 0 <= i < t.readers.len() implies (#[trigger] t.readers[i]).phase
            == Phase::Outside by {
            assert(s.readers[i].phase == Phase::Outside);
        }
        assert forall|w: int| 0 <= w < t.writers.len() implies (#[trigger] t.writers[w]).released by {
            assert(s.writers[w].released);
        }
    }
    assert forall|payload: int| 0 <= payload <= t.published implies #[trigger] accounted(
        t,
        payload,
    ) by {
        if payload <= s.published {
            assert(accounted(s, payload));
        }
        if let Step::Count { reader } = step {
            let loaded = s.readers[reader].phase->Loaded_0 as int;
            assert(reader_ok(s, reader));
            assert(accounted(s, loaded));
            if loaded != s.published {
                assert(writer_ok(s, loaded));
                assert(guarded(s, loaded, reader));
            }
        }
    }
    assert forall|i: int| has_reader(t, i) implies #[trigger] reader_ok(t, i) by {
        assert(reader_ok(s, i));
    }
    assert forall|w: int| has_writer(t, w) implies #[trigger] writer_ok(t, w) by {
        if has_writer(s, w) {
            assert(writer_ok(s, w));
        }
    }
    assert forall|w: int, i: int| has_writer(t, w) && has_reader(t, i) implies #[trigger] guarded(
        t,
        w,
        i,
    ) && kept_pace(t, w, i) by {
        assert(reader_ok(s, i));
        lemma_epoch_of_ticks(s.readers[i].ticks);
        if has_writer(s, w) {
            assert(writer_ok(s, w));
            assert(guarded(s, w, i));
            assert(kept_pace(s, w, i));
        }
    }
}

/// The invariant holds in every state of every run.
pub proof fn lemma_run_keeps_invariant(states: Seq<System>, steps: Seq<Step>, k: int)
    requires
        is_run(states, steps),
        0 <= k < states.len(),
    ensures
        inv(states[k]),
    decreases k,
{
    if k == 0 {
        lemma_initial_invariant(states[0]);
    } else {
        lemma_run_keeps_invariant(states, steps, k - 1);
        assert(enabled(states[k - 1], steps[k - 1]));
        lemma_step_keeps_invariant(states[k - 1], steps[k - 1]);
    }
}

/// Identity is preserved, however the writers interleave: after `n`
/// exchanges the slot holds payload `n`, and the payloads displaced are
/// `0, ..., n - 1`, each by exactly one writer, in the order of publication.
pub proof fn lemma_each_payload_displaced_once(states: Seq<System>, steps: Seq<Step>, k: int)
    requires
        is_run(states, steps),
        0 <= k < states.len(),
    ensures
        states[k].published == states[k].writers.len(),
        forall|w: int|
            0 <= w < states[k].writers.len() ==> (#[trigger] states[k].writers[w]).displaced == w,
{
    lemma_run_keeps_invariant(states, steps, k);
    let s = states[k];
    assert forall|w: int| 0 <= w < s.writers.len() implies (#[trigger] s.writers[w]).displaced
        == w by {
        assert(writer_ok(s, w));
    }
}

/// No use after free: a reader that has loaded the bare address of a payload
/// and not yet taken a strong handle to it finds the payload alive. The
/// payload is still held, by the slot or by the writer that displaced it and
/// has not released it, so its strong count is not zero and it has not been
/// dropped.
pub proof fn lemma_loaded_payload_is_held(
    states: Seq<System>,
    steps: Seq<Step>,
    k: int,
    i: int,
    payload: nat,
)
    requires
        is_run(states, steps),
        0 <= k < states.len(),
        has_reader(states[k], i),
        states[k].readers[i].phase == Phase::Loaded(payload),
    ensures
        payload == states[k].published && states[k].alive || (has_writer(states[k], payload as int)
            && states[k].writers[payload as int].displaced == payload
            && !states[k].writers[payload as int].released),
        payload < states[k].strong.len(),
        states[k].strong[payload as int] >= 1,
        states[k].dropped[payload as int] == 0,
{
    lemma_run_keeps_invariant(states, steps, k);
    let s = states[k];
    assert(reader_ok(s, i));
    assert(accounted(s, payload as int));
    if payload != s.published {
        let w = payload as int;
        assert(writer_ok(s, w));
        assert(guarded(s, w, i));
        if s.writers[w].released {
            assert(s.writers[w].watch[i] == Watch::Cleared);
        }
    }
}

/// Drop accounting: the strong count of a payload is at all times the number
/// of handles that the slot, the writer that displaced it and everyone
/// outside the protocol hold to it, and the payload has been dropped exactly
/// once if nobody holds it any more and not at all otherwise.
pub proof fn lemma_dropped_once_when_unheld(
    states: Seq<System>,
    steps: Seq<Step>,
    k: int,
    payload: int,
)
    requires
        is_run(states, steps),
        0 <= k < states.len(),
        0 <= payload <= states[k].published,
    ensures
        states[k].strong[payload] == holders(states[k], payload),
        states[k].dropped[payload] == (if holders(states[k], payload) == 0 {
            1nat
        } else {
            0nat
        }),
{
    lemma_run_keeps_invariant(states, steps, k);
    assert(accounted(states[k], payload));
}

/// Drop accounting at the end: once the slot is destroyed and every handle
/// out of the protocol's hands is dropped, each payload that was ever
/// published has been dropped exactly once.
pub proof fn lemma_all_dropped_once_in_the_end(
    states: Seq<System>,
    steps: Seq<Step>,
    k: int,
    payload: int,
)
    requires
        is_run(states, steps),
        0 <= k < states.len(),
        !states[k].alive,
        forall|p: int| 0 <= p <= states[k].published ==> #[trigger] states[k].outside[p] == 0,
        0 <= payload <= states[k].published,
    ensures
        states[k].dropped[payload] == 1,
{
    lemma_run_keeps_invariant(states, steps, k);
    let s = states[k];
    assert(accounted(s, payload));
    assert(s.outside[payload] == 0);
    if payload < s.writers.len() {
        assert(s.writers[payload].released);
    }
}

/// Parity: a reader's counter shows an odd epoch exactly while the reader is
/// inside its critical section.
pub proof fn lemma_counter_is_odd_inside_only(
    states: Seq<System>,
    steps: Seq<Step>,
    k: int,
    i: int,
)
    requires
        is_run(states, steps),
        0 <= k < states.len(),
        has_reader(states[k], i),
    ensures
        is_active(epoch_of(states[k].readers[i].ticks)) == (states[k].readers[i].phase
            != Phase::Outside),
{
    lemma_run_keeps_invariant(states, steps, k);
    assert(reader_ok(states[k], i));
    lemma_epoch_of_ticks(states[k].readers[i].ticks);
}

/// Quiescence: once a writer has released the payload it displaced, every
/// reader that was inside a critical section at the exchange has left that
/// critical section.
pub proof fn lemma_release_follows_readers(
    states: Seq<System>,
    steps: Seq<Step>,
    k: int,
    w: int,
    i: int,
)
    requires
        is_run(states, steps),
        0 <= k < states.len(),
        has_writer(states[k], w),
        has_reader(states[k], i),
        states[k].writers[w].released,
        is_active(epoch_of(states[k].writers[w].ticks_at_swap[i])),
    ensures
        states[k].readers[i].ticks > states[k].writers[w].ticks_at_swap[i],
{
    lemma_run_keeps_invariant(states, steps, k);
    let s = states[k];
    assert(writer_ok(s, w));
    assert(guarded(s, w, i));
    assert(kept_pace(s, w, i));
    assert(s.writers[w].watch[i] == Watch::Cleared);
    lemma_epoch_of_ticks(s.writers[w].ticks_at_swap[i]);
}

} // verus!
