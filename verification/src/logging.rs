//! Buffered event logging with time compaction.
//!
//! Times are nanoseconds since the logging origin. A buffer holds a base
//! time and, for each event, its offset from the base in 32 bits.

use vstd::prelude::*;
use vstd::layout::size_of;
use std::time::{Duration, Instant};
use crate::container::{default_capacity, spec_default_capacity, Container, IntoAllocated};
use crate::message::RefOrMut;

verus! {

/// The instants of the standard library: opaque readings of a monotonic
/// clock.
#[verifier::external_type_specification]
#[verifier::external_body]
pub struct ExInstant(Instant);

/// `Instant::elapsed` of the standard library: the time since `start`, as
/// the clock gives it at the moment of the call. Nothing is claimed of it.
#[verifier::external_body]
fn instant_elapsed(start: &Instant) -> (elapsed: Duration) {
    start.elapsed()
}

/// `Duration::as_nanos` of the standard library: the duration in whole
/// nanoseconds. The duration is opaque, so nothing is claimed of the number.
#[verifier::external_body]
fn duration_nanos(duration: &Duration) -> (nanos: u128) {
    duration.as_nanos()
}

/// A batch of logged events: a base time, the worker they come from, and the
/// events, each with its offset from the base time in nanoseconds.
#[derive(Debug)]
pub struct LogContainer<T, Id> {
    /// The base time of the batch.
    pub time: u128,
    /// The worker the events come from.
    pub worker: Id,
    /// The events, each with its distance from the base time.
    pub entries: Vec<(u32, T)>,
}

/// Whether an event at `time` cannot join a buffer with base time `base`
/// that holds `len` events of at most `capacity`: the time lies before the
/// base, or too far behind it for a 32-bit offset, or the buffer is full.
pub open spec fn overflows(base: u128, len: nat, capacity: nat, time: u128) -> bool {
    ||| time < base
    ||| time - base > u32::MAX
    ||| len >= capacity
}

/// The number of events a buffer of `T` holds before it is flushed.
pub open spec fn buffer_limit<T>() -> nat {
    spec_default_capacity(size_of::<(u32, T)>())
}

impl<T, Id: Clone> LogContainer<T, Id> {
    /// Whether every absolute time fits the machine's 128 bits.
    pub open spec fn wf(&self) -> bool {
        forall|i: int| 0 <= i < self.entries@.len() ==> self.time + (#[trigger] self.entries@[i]).0
            <= u128::MAX
    }

    /// An empty batch with the given base time.
    pub fn new(time: u128, worker: Id) -> (batch: Self)
        ensures
            batch.time == time,
            batch.worker == worker,
            batch.entries@.len() == 0,
            batch.wf(),
    {
        let entries = Vec::with_capacity(Self::buffer_capacity());
        Self { time, worker, entries }
    }

    fn buffer_capacity() -> (capacity: usize)
        ensures
            capacity == buffer_limit::<T>(),
            capacity >= 1,
    {
        default_capacity::<(u32, T)>()
    }

    /// Appends an event at `time`.
    ///
    /// Where the time is outside the range of the buffer, or the buffer is
    /// full, `overflow_action` sees the buffer first; the buffer is then
    /// emptied and starts again at `time`.
    pub fn push<F: Fn(&mut Self)>(&mut self, time: u128, data: T, overflow_action: F)
        requires
            forall|buffer: &mut Self| call_requires(overflow_action, (buffer,)),
        ensures
            overflows(old(self).time, old(self).entries@.len(), buffer_limit::<T>(), time) ==> {
                &&& final(self).time == time
                &&& final(self).entries@ == seq![(0u32, data)]
            },
            !overflows(old(self).time, old(self).entries@.len(), buffer_limit::<T>(), time) ==> {
                &&& final(self).time == old(self).time
                &&& final(self).worker == old(self).worker
                &&& final(self).entries@ == old(self).entries@.push(
                    ((time - old(self).time) as u32, data),
                )
            },
            old(self).wf() ==> final(self).wf(),
            overflows(old(self).time, old(self).entries@.len(), buffer_limit::<T>(), time)
                ==> exists|seen: &mut Self|
                *seen == *old(self) && #[trigger] call_ensures(overflow_action, (seen,), ()),
    {
        let full: bool = self.entries.len() >= Self::buffer_capacity();
        if time < self.time || time - self.time > 4294967295u128 || full {
            overflow_action(self);
            self.entries.clear();
            self.time = time;
        }
        let offset: u32 = (time - self.time) as u32;
        self.entries.push((offset, data));
    }

    /// Takes the events out and leaves an empty batch with the same base
    /// time behind.
    pub fn take(&mut self) -> (taken: Self)
        ensures
            taken.time == old(self).time,
            cloned(old(self).worker, taken.worker),
            taken.entries@ == old(self).entries@,
            final(self).time == old(self).time,
            final(self).worker == old(self).worker,
            final(self).entries@.len() == 0,
    {
        let mut entries: Vec<(u32, T)> = Vec::with_capacity(Self::buffer_capacity());
        std::mem::swap(&mut self.entries, &mut entries);
        Self { time: self.time, worker: self.worker.clone(), entries }
    }

    /// The events with their absolute times and the worker, in order.
    pub fn iter(&self) -> (events: Vec<(u128, Id, &T)>)
        requires
            self.wf(),
        ensures
            events@.len() == self.entries@.len(),
            forall|i: int|
                0 <= i < events@.len() ==> {
                    &&& (#[trigger] events@[i]).0 == self.time + self.entries@[i].0
                    &&& cloned(self.worker, events@[i].1)
                    &&& *events@[i].2 == self.entries@[i].1
                },
    {
        let mut events: Vec<(u128, Id, &T)> = Vec::new();
        let mut i: usize = 0;
        while i < self.entries.len()
            invariant
                self.wf(),
                i <= self.entries@.len(),
                events@.len() == i,
                forall|j: int|
                    0 <= j < i ==> {
                        &&& (#[trigger] events@[j]).0 == self.time + self.entries@[j].0
                        &&& cloned(self.worker, events@[j].1)
                        &&& *events@[j].2 == self.entries@[j].1
                    },
            decreases self.entries@.len() - i,
        {
            let entry = &self.entries[i];
            events.push((self.time + (entry.0 as u128), self.worker.clone(), &entry.1));
            i += 1;
        }
        events
    }

    /// Removes the events from `start` up to `end` and returns them with
    /// their absolute times and the worker, in order.
    pub fn drain(&mut self, start: usize, end: usize) -> (events: Vec<(u128, Id, T)>)
        requires
            old(self).wf(),
            start <= end <= old(self).entries@.len(),
        ensures
            final(self).wf(),
            final(self).time == old(self).time,
            final(self).worker == old(self).worker,
            final(self).entries@ == old(self).entries@.subrange(0, start as int) + old(
                self,
            ).entries@.subrange(end as int, old(self).entries@.len() as int),
            events@.len() == end - start,
            forall|i: int|
                0 <= i < events@.len() ==> {
                    &&& (#[trigger] events@[i]).0 == old(self).time + old(self).entries@[start
                        + i].0
                    &&& cloned(old(self).worker, events@[i].1)
                    &&& events@[i].2 == old(self).entries@[start + i].1
                },
    {
        let mut tail: Vec<(u32, T)> = self.entries.split_off(end);
        let removed: Vec<(u32, T)> = self.entries.split_off(start);
        self.entries.append(&mut tail);
        let ghost all = removed@;
        let mut events: Vec<(u128, Id, T)> = Vec::new();
        for entry in it: removed
            invariant
                it.seq() == all,
                start <= end <= old(self).entries@.len(),
                all == old(self).entries@.subrange(start as int, end as int),
                old(self).wf(),
                self.time == old(self).time,
                self.worker == old(self).worker,
                events@.len() == it.index(),
                forall|j: int|
                    0 <= j < events@.len() ==> {
                        &&& (#[trigger] events@[j]).0 == self.time + all[j].0
                        &&& cloned(self.worker, events@[j].1)
                        &&& events@[j].2 == all[j].1
                    },
        {
            assert(entry == all[it.index()]);
            assert(all[it.index()] == old(self).entries@[start + it.index()]);
            events.push((self.time + (entry.0 as u128), self.worker.clone(), entry.1));
        }
        events
    }
}

/// A batch as the action of a logger has seen it.
pub ghost struct Batch<T> {
    /// The time the batch was flushed at.
    pub at: u128,
    /// The base time of the batch.
    pub base: u128,
    /// The events of the batch with their offsets from the base time.
    pub entries: Seq<(u32, T)>,
}

/// What a logger has done so far: the batches it has flushed, and the base
/// time and events of the buffer it is filling.
pub ghost struct LogState<T> {
    /// The batches handed to the action, oldest first.
    pub flushed: Seq<Batch<T>>,
    /// The base time of the buffer.
    pub base: u128,
    /// The events waiting in the buffer.
    pub entries: Seq<(u32, T)>,
}

/// Whether `action` was called at time `at` on the buffer `held`.
pub open spec fn called_with<T, E, F: Fn(&u128, &mut LogContainer<T, E>)>(
    action: F,
    at: u128,
    held: LogContainer<T, E>,
) -> bool {
    exists|time: &u128, seen: &mut LogContainer<T, E>|
        *time == at && *seen == held && #[trigger] call_ensures(action, (time, seen), ())
}

/// Whether `action` was called with `batch`: at the time of the batch, on a
/// buffer with its base time and its events.
pub open spec fn handed_over<T, E, F: Fn(&u128, &mut LogContainer<T, E>)>(
    action: F,
    batch: Batch<T>,
) -> bool {
    exists|held: LogContainer<T, E>|
        held.time == batch.base && held.entries@ == batch.entries && #[trigger] called_with(
            action,
            batch.at,
            held,
        )
}

/// Whether `action` was called with every batch that `after` holds behind
/// those of `before`.
pub open spec fn all_handed<T, E, F: Fn(&u128, &mut LogContainer<T, E>)>(
    action: F,
    before: Seq<Batch<T>>,
    after: Seq<Batch<T>>,
) -> bool {
    forall|k: int| before.len() <= k < after.len() ==> handed_over(action, #[trigger] after[k])
}

/// The state after an empty buffer has taken `elapsed` as its base time.
pub open spec fn rebased<T>(state: LogState<T>, elapsed: u128) -> LogState<T> {
    if state.entries.len() == 0 {
        LogState { base: elapsed, ..state }
    } else {
        state
    }
}

/// The state after one event at time `elapsed` has been appended: where the
/// event cannot join the buffer, the buffer is flushed first and starts
/// again at `elapsed`.
pub open spec fn appended<T>(state: LogState<T>, capacity: nat, elapsed: u128, event: T) -> LogState<T> {
    if overflows(state.base, state.entries.len(), capacity, elapsed) {
        LogState {
            flushed: state.flushed.push(
                Batch { at: elapsed, base: state.base, entries: state.entries },
            ),
            base: elapsed,
            entries: seq![(0u32, event)],
        }
    } else {
        LogState { entries: state.entries.push(((elapsed - state.base) as u32, event)), ..state }
    }
}

/// The state after `events` have been logged at time `elapsed`.
pub open spec fn logged<T>(state: LogState<T>, capacity: nat, elapsed: u128, events: Seq<T>) -> LogState<T>
    decreases events.len(),
{
    if events.len() == 0 {
        rebased(state, elapsed)
    } else {
        appended(logged(state, capacity, elapsed, events.drop_last()), capacity, elapsed, events.last())
    }
}

/// The state after a flush at time `elapsed`: the action sees the buffer,
/// or an empty batch at `elapsed` where the buffer holds nothing, and the
/// buffer is empty afterwards.
pub open spec fn flushed_at<T>(state: LogState<T>, elapsed: u128) -> LogState<T> {
    if state.entries.len() == 0 {
        LogState {
            flushed: state.flushed.push(Batch { at: elapsed, base: elapsed, entries: Seq::empty() }),
            ..state
        }
    } else {
        LogState {
            flushed: state.flushed.push(
                Batch { at: elapsed, base: state.base, entries: state.entries },
            ),
            entries: Seq::empty(),
            ..state
        }
    }
}

/// The events in `flushed`, in the order the action has seen them.
pub open spec fn flushed_events<T>(flushed: Seq<Batch<T>>) -> Seq<T>
    decreases flushed.len(),
{
    if flushed.len() == 0 {
        Seq::empty()
    } else {
        flushed_events(flushed.drop_last()) + batch_events(flushed.last().entries)
    }
}

/// The events of a batch without their offsets.
pub open spec fn batch_events<T>(entries: Seq<(u32, T)>) -> Seq<T> {
    Seq::new(entries.len(), |i: int| entries[i].1)
}

/// All events logged so far: those flushed, then those waiting in the
/// buffer.
pub open spec fn all_events<T>(state: LogState<T>) -> Seq<T> {
    flushed_events(state.flushed) + batch_events(state.entries)
}

/// Logging loses no event, makes none twice and keeps their order: the
/// events logged so far are those logged before, then `events`.
pub proof fn lemma_logged_events<T>(state: LogState<T>, capacity: nat, elapsed: u128, events: Seq<T>)
    ensures
        all_events(logged(state, capacity, elapsed, events)) == all_events(state) + events,
    decreases events.len(),
{
    if events.len() == 0 {
        assert(all_events(state) + events =~= all_events(state));
    } else {
        let shorter = events.drop_last();
        let middle = logged(state, capacity, elapsed, shorter);
        let after = appended(middle, capacity, elapsed, events.last());
        lemma_logged_events(state, capacity, elapsed, shorter);
        if overflows(middle.base, middle.entries.len(), capacity, elapsed) {
            assert(after.flushed.drop_last() =~= middle.flushed);
            assert(batch_events(after.entries) =~= seq![events.last()]);
        } else {
            assert(batch_events(after.entries) =~= batch_events(middle.entries).push(
                events.last(),
            ));
        }
        assert(all_events(after) =~= all_events(middle).push(events.last()));
        assert((all_events(state) + shorter).push(events.last()) =~= all_events(state) + events);
    }
}

/// A flush loses no event and makes none twice.
pub proof fn lemma_flushed_events<T>(state: LogState<T>, elapsed: u128)
    ensures
        all_events(flushed_at(state, elapsed)) == all_events(state),
{
    let after = flushed_at(state, elapsed);
    assert(after.flushed.drop_last() =~= state.flushed);
    assert(batch_events(after.entries) =~= Seq::<T>::empty());
    if state.entries.len() == 0 {
        assert(batch_events(Seq::<(u32, T)>::empty()) =~= Seq::<T>::empty());
        assert(batch_events(state.entries) =~= Seq::<T>::empty());
    }
    assert(all_events(after) =~= all_events(state));
}

/// The absolute times of the events of a batch with the given base time.
pub open spec fn batch_stamps<T>(base: u128, entries: Seq<(u32, T)>) -> Seq<int> {
    Seq::new(entries.len(), |i: int| base + entries[i].0)
}

/// The absolute times of all events in `flushed`, in the order the action
/// has seen them.
pub open spec fn flushed_stamps<T>(flushed: Seq<Batch<T>>) -> Seq<int>
    decreases flushed.len(),
{
    if flushed.len() == 0 {
        Seq::empty()
    } else {
        flushed_stamps(flushed.drop_last()) + batch_stamps(flushed.last().base, flushed.last().entries)
    }
}

/// The absolute times of all events logged so far: those flushed, then
/// those waiting in the buffer.
pub open spec fn all_stamps<T>(state: LogState<T>) -> Seq<int> {
    flushed_stamps(state.flushed) + batch_stamps(state.base, state.entries)
}

/// Whether the absolute times in `stamps` never decrease.
pub open spec fn non_decreasing(stamps: Seq<int>) -> bool {
    forall|i: int, j: int| 0 <= i <= j < stamps.len() ==> stamps[i] <= stamps[j]
}

/// Appending an event at `elapsed` adds exactly that time to the absolute
/// times logged, whether or not the buffer is flushed on the way.
pub proof fn lemma_appended_stamps<T>(state: LogState<T>, capacity: nat, elapsed: u128, event: T)
    ensures
        all_stamps(appended(state, capacity, elapsed, event)) == all_stamps(state).push(
            elapsed as int,
        ),
{
    let after = appended(state, capacity, elapsed, event);
    if overflows(state.base, state.entries.len(), capacity, elapsed) {
        assert(after.flushed.drop_last() =~= state.flushed);
        assert(batch_stamps(after.base, after.entries) =~= seq![elapsed as int]);
        assert(all_stamps(after) =~= all_stamps(state).push(elapsed as int));
    } else {
        assert(batch_stamps(after.base, after.entries) =~= batch_stamps(
            state.base,
            state.entries,
        ).push(elapsed as int));
        assert(all_stamps(after) =~= all_stamps(state).push(elapsed as int));
    }
}

/// Logging `events` at `elapsed` adds that time once for each event to the
/// absolute times logged, behind those logged before.
pub proof fn lemma_logged_stamps<T>(state: LogState<T>, capacity: nat, elapsed: u128, events: Seq<T>)
    ensures
        all_stamps(logged(state, capacity, elapsed, events)) == all_stamps(state) + Seq::new(
            events.len(),
            |i: int| elapsed as int,
        ),
    decreases events.len(),
{
    let repeated = Seq::new(events.len(), |i: int| elapsed as int);
    if events.len() == 0 {
        assert(batch_stamps(rebased(state, elapsed).base, rebased(state, elapsed).entries)
            =~= batch_stamps(state.base, state.entries));
        assert(all_stamps(state) + repeated =~= all_stamps(state));
    } else {
        let shorter = events.drop_last();
        lemma_logged_stamps(state, capacity, elapsed, shorter);
        lemma_appended_stamps(logged(state, capacity, elapsed, shorter), capacity, elapsed, events.last());
        assert((all_stamps(state) + Seq::new(shorter.len(), |i: int| elapsed as int)).push(
            elapsed as int,
        ) =~= all_stamps(state) + repeated);
    }
}

/// A flush changes no absolute time and loses no event.
pub proof fn lemma_flushed_stamps<T>(state: LogState<T>, elapsed: u128)
    ensures
        all_stamps(flushed_at(state, elapsed)) == all_stamps(state),
{
    let after = flushed_at(state, elapsed);
    assert(after.flushed.drop_last() =~= state.flushed);
    assert(batch_stamps(after.base, after.entries) =~= Seq::<int>::empty());
    if state.entries.len() == 0 {
        assert(batch_stamps(elapsed, Seq::<(u32, T)>::empty()) =~= Seq::<int>::empty());
        assert(batch_stamps(state.base, state.entries) =~= Seq::<int>::empty());
    }
    assert(all_stamps(after) =~= all_stamps(state));
}

/// Time monotonicity: while the clock does not run backwards, the absolute
/// times of the events never decrease, within a batch and from each batch to
/// the next; the last of them is at most the time of the last call.
pub proof fn lemma_log_keeps_order<T>(state: LogState<T>, capacity: nat, elapsed: u128, events: Seq<T>)
    requires
        non_decreasing(all_stamps(state)),
        forall|i: int| 0 <= i < all_stamps(state).len() ==> all_stamps(state)[i] <= elapsed,
    ensures
        non_decreasing(all_stamps(logged(state, capacity, elapsed, events))),
        forall|i: int|
            0 <= i < all_stamps(logged(state, capacity, elapsed, events)).len() ==> all_stamps(
                logged(state, capacity, elapsed, events),
            )[i] <= elapsed,
{
    lemma_logged_stamps(state, capacity, elapsed, events);
}

} // verus!

verus! {

/// The state behind a buffering logger: the buffer that is being filled and
/// the action that takes full buffers.
pub struct LoggerInner<T, E, A> {
    id: E,
    /// common instant used for all loggers.
    time: Instant,
    /// offset to allow re-calibration.
    offset: u128,
    /// buffer of accumulated log events
    buffer: LogContainer<T, E>,
    /// action to take on full log buffers.
    action: A,
    /// the batches handed to the action so far.
    flushed: Ghost<Seq<Batch<T>>>,
}

impl<T, E: Clone, A: Fn(&u128, &mut LogContainer<T, E>)> LoggerInner<T, E, A> {
    /// What the logger has done so far.
    pub closed spec fn state(&self) -> LogState<T> {
        LogState { flushed: self.flushed@, base: self.buffer.time, entries: self.buffer.entries@ }
    }

    /// The offset added to every reading of the clock.
    pub closed spec fn offset(&self) -> u128 {
        self.offset
    }

    /// The action that takes the batches.
    pub closed spec fn action(&self) -> &A {
        &self.action
    }

    /// The action can take any batch at any time.
    pub closed spec fn inv(&self) -> bool {
        forall|time: &u128, batch: &mut LogContainer<T, E>|
            call_requires(self.action, (time, batch))
    }

    /// A logger with an empty buffer that has flushed nothing.
    pub fn new(time: Instant, offset: u128, id: E, action: A) -> (inner: Self)
        requires
            forall|time: &u128, batch: &mut LogContainer<T, E>| call_requires(action, (time, batch)),
        ensures
            inner.inv(),
            inner.offset() == offset,
            *inner.action() == action,
            inner.state() == (LogState::<T> { flushed: Seq::empty(), base: 0, entries: Seq::empty() }),
    {
        let buffer = LogContainer::new(0, id.clone());
        assert(buffer.entries@ =~= Seq::empty());
        LoggerInner { id, time, offset, buffer, action, flushed: Ghost(Seq::empty()) }
    }

    /// The time that events logged now are stamped with: the reading of the
    /// clock plus the offset, as far as 128 bits hold it.
    fn now(&self) -> (elapsed: u128)
        ensures
            elapsed >= self.offset(),
    {
        let passed: u128 = duration_nanos(&instant_elapsed(&self.time));
        if passed > u128::MAX - self.offset {
            u128::MAX
        } else {
            passed + self.offset
        }
    }

    /// Logs `events` at the time the clock shows, which is the offset at
    /// least.
    pub fn log_many(&mut self, events: Vec<T>)
        requires
            old(self).inv(),
        ensures
            final(self).inv(),
            final(self).offset() == old(self).offset(),
            final(self).action() == old(self).action(),
            all_handed(old(self).action(), old(self).state().flushed, final(self).state().flushed),
            exists|elapsed: u128|
                elapsed >= old(self).offset() && final(self).state() == #[trigger] logged(
                    old(self).state(),
                    buffer_limit::<T>(),
                    elapsed,
                    events@,
                ),
    {
        let elapsed: u128 = self.now();
        self.log_many_at(elapsed, events);
    }

    /// Logs `events` at time `elapsed`.
    ///
    /// An empty buffer takes `elapsed` as its base time. Each event joins
    /// the buffer with its distance from the base time; where the distance
    /// does not fit 32 bits, or the buffer is full, the action takes the
    /// buffer first, and the buffer starts again at `elapsed`. The action
    /// is called with every batch that the state gains.
    pub fn log_many_at(&mut self, elapsed: u128, events: Vec<T>)
        requires
            old(self).inv(),
        ensures
            final(self).inv(),
            final(self).offset() == old(self).offset(),
            final(self).action() == old(self).action(),
            final(self).state() == logged(old(self).state(), buffer_limit::<T>(), elapsed, events@),
            all_handed(old(self).action(), old(self).state().flushed, final(self).state().flushed),
    {
        if self.buffer.entries.len() == 0 {
            self.buffer.time = elapsed;
        }
        let ghost all = events@;
        proof {
            assert(all.take(0) =~= Seq::<T>::empty());
        }
        let action = &self.action;
        let hand_over = |buffer: &mut LogContainer<T, E>|
            requires
                call_requires(action, (&elapsed, buffer))
            ensures
                called_with(action, elapsed, *old(buffer))
            {
                action(&elapsed, buffer);
            };
        for event in it: events
            invariant
                it.seq() == all,
                self.inv(),
                action == old(self).action(),
                forall|buffer: &mut LogContainer<T, E>| call_requires(hand_over, (buffer,)),
                forall|buffer: &mut LogContainer<T, E>|
                    call_ensures(hand_over, (buffer,), ()) ==> called_with(action, elapsed, *buffer),
                self.offset() == old(self).offset(),
                self.action() == old(self).action(),
                all_handed(old(self).action(), old(self).flushed@, self.flushed@),
                self.state() == logged(
                    old(self).state(),
                    buffer_limit::<T>(),
                    elapsed,
                    all.take(it.index()),
                ),
        {
            let ghost before = self.state();
            let ghost held = self.buffer;
            let ghost position = it.index();
            assert(event == all[position]);
            self.buffer.push(elapsed, event, hand_over);
            proof {
                if overflows(before.base, before.entries.len(), buffer_limit::<T>(), elapsed) {
                    let batch = Batch { at: elapsed, base: before.base, entries: before.entries };
                    assert(called_with(action, elapsed, held));
                    assert(held.time == batch.base && held.entries@ == batch.entries
                        && called_with(action, batch.at, held));
                    assert(handed_over(action, batch));
                    self.flushed@ = before.flushed.push(batch);
                }
                assert(all.take(position + 1).drop_last() =~= all.take(position));
                assert(all.take(position + 1).last() == event);
            }
        }
        proof {
            assert(all.take(all.len() as int) =~= all);
        }
    }

    /// Flushes the buffer at the time the clock shows, which is the offset
    /// at least.
    pub fn flush(&mut self)
        requires
            old(self).inv(),
        ensures
            final(self).inv(),
            final(self).offset() == old(self).offset(),
            final(self).action() == old(self).action(),
            all_handed(old(self).action(), old(self).state().flushed, final(self).state().flushed),
            exists|elapsed: u128|
                elapsed >= old(self).offset() && final(self).state() == #[trigger] flushed_at(
                    old(self).state(),
                    elapsed,
                ),
    {
        let elapsed: u128 = self.now();
        self.flush_at(elapsed);
    }

    /// Flushes the buffer at time `elapsed`: the action takes the buffer, or
    /// an empty batch at `elapsed` where the buffer holds nothing, and the
    /// buffer is empty afterwards. The action is called with the batch that
    /// the state gains.
    pub fn flush_at(&mut self, elapsed: u128)
        requires
            old(self).inv(),
        ensures
            final(self).inv(),
            final(self).offset() == old(self).offset(),
            final(self).action() == old(self).action(),
            final(self).state() == flushed_at(old(self).state(), elapsed),
            all_handed(old(self).action(), old(self).state().flushed, final(self).state().flushed),
    {
        let ghost before = self.state();
        let ghost held = self.buffer;
        let action = &self.action;
        if self.buffer.entries.len() > 0 {
            let base: u128 = self.buffer.time;
            action(&elapsed, &mut self.buffer);
            self.buffer.entries.clear();
            self.buffer.time = base;
            proof {
                let batch = Batch { at: elapsed, base: before.base, entries: before.entries };
                assert(called_with(action, elapsed, held));
                assert(held.time == batch.base && held.entries@ == batch.entries && called_with(
                    action,
                    batch.at,
                    held,
                ));
                assert(handed_over(action, batch));
                self.flushed@ = before.flushed.push(batch);
            }
        } else {
            // Avoid swapping resources for empty buffers.
            let mut empty = LogContainer { time: elapsed, worker: self.id.clone(), entries: Vec::new() };
            let ghost shown = empty;
            action(&elapsed, &mut empty);
            proof {
                let batch = Batch { at: elapsed, base: elapsed, entries: Seq::<(u32, T)>::empty() };
                assert(called_with(action, elapsed, shown));
                assert(shown.time == batch.base && shown.entries@ == batch.entries && called_with(
                    action,
                    batch.at,
                    shown,
                ));
                assert(handed_over(action, batch));
                self.flushed@ = before.flushed.push(batch);
            }
        }
    }

    /// Whether the buffer holds no event.
    pub fn is_empty(&self) -> (empty: bool)
        ensures
            empty == (self.state().entries.len() == 0),
    {
        self.buffer.entries.len() == 0
    }
}

} // verus!

verus! {

/// A buffering logger.
pub struct Logger<T, E, A> {
    inner: LoggerInner<T, E, A>,
}

impl<T, E: Clone, A: Fn(&u128, &mut LogContainer<T, E>)> Logger<T, E, A> {
    /// What the logger has done so far.
    pub closed spec fn state(&self) -> LogState<T> {
        self.inner.state()
    }

    /// The offset added to every reading of the clock.
    pub closed spec fn offset(&self) -> u128 {
        self.inner.offset()
    }

    /// The action that takes the batches.
    pub closed spec fn action(&self) -> &A {
        self.inner.action()
    }

    /// The action can take any batch at any time.
    pub closed spec fn inv(&self) -> bool {
        self.inner.inv()
    }

    /// Allocates a new logger bound to a write destination: the action,
    /// which is called with every batch that the logger flushes.
    pub fn new(time: Instant, offset: u128, id: E, action: A) -> (logger: Self)
        requires
            forall|time: &u128, batch: &mut LogContainer<T, E>| call_requires(action, (time, batch)),
        ensures
            logger.inv(),
            logger.offset() == offset,
            *logger.action() == action,
            logger.state() == (LogState::<T> { flushed: Seq::empty(), base: 0, entries: Seq::empty() }),
    {
        Logger { inner: LoggerInner::new(time, offset, id, action) }
    }

    /// Logs an event.
    ///
    /// The event has its timestamp recorded at the moment of logging, which
    /// is the offset at least, but it may be delayed due to buffering. It
    /// will be written when the logger is next flushed, either due to the
    /// buffer reaching capacity or a direct call to flush.
    pub fn log(&mut self, event: T)
        requires
            old(self).inv(),
        ensures
            final(self).inv(),
            final(self).offset() == old(self).offset(),
            final(self).action() == old(self).action(),
            all_handed(old(self).action(), old(self).state().flushed, final(self).state().flushed),
            exists|elapsed: u128|
                elapsed >= old(self).offset() && final(self).state() == #[trigger] logged(
                    old(self).state(),
                    buffer_limit::<T>(),
                    elapsed,
                    seq![event],
                ),
    {
        let mut events: Vec<T> = Vec::new();
        events.push(event);
        assert(events@ =~= seq![event]);
        self.log_many(events);
    }

    /// Logs multiple events.
    ///
    /// All events in this call will have the same timestamp, which is the
    /// offset at least.
    pub fn log_many(&mut self, events: Vec<T>)
        requires
            old(self).inv(),
        ensures
            final(self).inv(),
            final(self).offset() == old(self).offset(),
            final(self).action() == old(self).action(),
            all_handed(old(self).action(), old(self).state().flushed, final(self).state().flushed),
            exists|elapsed: u128|
                elapsed >= old(self).offset() && final(self).state() == #[trigger] logged(
                    old(self).state(),
                    buffer_limit::<T>(),
                    elapsed,
                    events@,
                ),
    {
        let ghost before = self.inner.state();
        self.inner.log_many(events);
        proof {
            let elapsed = choose|elapsed: u128|
                elapsed >= old(self).inner.offset() && self.inner.state() == #[trigger] logged(
                    before,
                    buffer_limit::<T>(),
                    elapsed,
                    events@,
                );
            assert(self.state() == logged(old(self).state(), buffer_limit::<T>(), elapsed, events@));
        }
    }

    /// Logs `events` at time `elapsed` in place of the clock's.
    pub fn log_many_at(&mut self, elapsed: u128, events: Vec<T>)
        requires
            old(self).inv(),
        ensures
            final(self).inv(),
            final(self).offset() == old(self).offset(),
            final(self).action() == old(self).action(),
            all_handed(old(self).action(), old(self).state().flushed, final(self).state().flushed),
            final(self).state() == logged(old(self).state(), buffer_limit::<T>(), elapsed, events@),
    {
        self.inner.log_many_at(elapsed, events)
    }

    /// Flushes logged messages and communicates the new minimal timestamp,
    /// which is the offset at least.
    pub fn flush(&mut self)
        requires
            old(self).inv(),
        ensures
            final(self).inv(),
            final(self).offset() == old(self).offset(),
            final(self).action() == old(self).action(),
            all_handed(old(self).action(), old(self).state().flushed, final(self).state().flushed),
            exists|elapsed: u128|
                elapsed >= old(self).offset() && final(self).state() == #[trigger] flushed_at(
                    old(self).state(),
                    elapsed,
                ),
    {
        let ghost before = self.inner.state();
        self.inner.flush();
        proof {
            let elapsed = choose|elapsed: u128|
                elapsed >= old(self).inner.offset() && self.inner.state() == #[trigger] flushed_at(
                    before,
                    elapsed,
                );
            assert(self.state() == flushed_at(old(self).state(), elapsed));
        }
    }

    /// Flushes at time `elapsed` in place of the clock's.
    pub fn flush_at(&mut self, elapsed: u128)
        requires
            old(self).inv(),
        ensures
            final(self).inv(),
            final(self).offset() == old(self).offset(),
            final(self).action() == old(self).action(),
            all_handed(old(self).action(), old(self).state().flushed, final(self).state().flushed),
            final(self).state() == flushed_at(old(self).state(), elapsed),
    {
        self.inner.flush_at(elapsed)
    }

    /// Ends the use of the logger: the buffer is flushed if it holds events,
    /// and left alone if it holds none.
    pub fn finish(&mut self)
        requires
            old(self).inv(),
        ensures
            final(self).inv(),
            final(self).offset() == old(self).offset(),
            final(self).action() == old(self).action(),
            all_handed(old(self).action(), old(self).state().flushed, final(self).state().flushed),
            old(self).state().entries.len() == 0 ==> final(self).state() == old(self).state(),
            old(self).state().entries.len() > 0 ==> exists|elapsed: u128|
                elapsed >= old(self).offset() && final(self).state() == #[trigger] flushed_at(
                    old(self).state(),
                    elapsed,
                ),
    {
        // Avoid sending out empty buffers just because of drops.
        if !self.inner.is_empty() {
            self.flush();
        }
    }
}

/// A message has passed an endpoint of a channel.
#[derive(Clone, Copy, Debug, PartialEq, Eq, Structural)]
pub struct MessagesEvent {
    /// `true` if send event, `false` if receive event.
    pub is_send: bool,
    /// Channel identifier.
    pub channel: usize,
    /// Source worker index.
    pub source: usize,
    /// Target worker index.
    pub target: usize,
    /// Message sequence number.
    pub seq_no: usize,
    /// Number of typed records in the message.
    pub length: usize,
}

/// A channel has been made between two operators.
#[derive(Debug)]
pub struct ChannelsEvent {
    /// Edge identifier, unique within the worker.
    pub id: usize,
    /// Sequence of nested scope identifiers indicating the path from the root to this instance.
    pub scope_addr: Vec<usize>,
    /// Source operator index and port.
    pub source: (usize, usize),
    /// Target operator index and port.
    pub target: (usize, usize),
}

} // verus!

verus! {

impl<T: Clone, E: Container> Container for LogContainer<T, E> {
    type Allocation = Vec<(u32, T)>;

    open spec fn spec_len(&self) -> nat {
        self.entries@.len()
    }

    open spec fn replica(source: &Self, copy: &Self) -> bool {
        &&& copy.time == source.time
        &&& E::replica(&source.worker, &copy.worker)
        &&& copy.entries@.len() == source.entries@.len()
        &&& forall|i: int|
            0 <= i < source.entries@.len() ==> cloned(
                #[trigger] source.entries@[i],
                copy.entries@[i],
            )
    }

    /// The shell of a batch is its vector of events without the events.
    open spec fn hollowed(&self, shell: &Vec<(u32, T)>) -> bool {
        shell@.len() == 0
    }

    fn len(&self) -> (n: usize) {
        self.entries.len()
    }

    fn is_empty(&self) -> (empty: bool) {
        self.entries.len() == 0
    }

    fn hollow(self) -> (shell: Vec<(u32, T)>)
        ensures
            shell@.len() == 0,
    {
        let mut entries = self.entries;
        entries.clear();
        entries
    }
}

impl<T: Clone, E: Container> IntoAllocated<LogContainer<T, E>> for Vec<(u32, T)> where
    E::Allocation: IntoAllocated<E>,
 {
    /// The batch has the base time and the events of the source, and a
    /// worker rebuilt from that of the source.
    open spec fn rebuilt(source: LogContainer<T, E>, assembled: LogContainer<T, E>) -> bool {
        &&& assembled.time == source.time
        &&& E::Allocation::rebuilt(source.worker, assembled.worker)
        &&& assembled.entries@.len() == source.entries@.len()
        &&& forall|i: int|
            0 <= i < source.entries@.len() ==> cloned(
                #[trigger] source.entries@[i],
                assembled.entries@[i],
            )
    }

    fn assemble(self, allocated: RefOrMut<LogContainer<T, E>>) -> (assembled: LogContainer<T, E>) {
        match allocated {
            RefOrMut::Mut(r) => LogContainer {
                time: r.time,
                worker: E::Allocation::assemble_new(RefOrMut::Mut(&mut r.worker)),
                entries: self.assemble(RefOrMut::Mut(&mut r.entries)),
            },
            RefOrMut::Ref(r) => LogContainer {
                time: r.time,
                worker: E::Allocation::assemble_new(RefOrMut::Ref(&r.worker)),
                entries: self.assemble(RefOrMut::Ref(&r.entries)),
            },
        }
    }

    fn assemble_new(allocated: RefOrMut<LogContainer<T, E>>) -> (assembled: LogContainer<T, E>) {
        match allocated {
            RefOrMut::Mut(r) => LogContainer {
                time: r.time,
                worker: E::Allocation::assemble_new(RefOrMut::Mut(&mut r.worker)),
                entries: <Vec<(u32, T)> as IntoAllocated<Vec<(u32, T)>>>::assemble_new(
                    RefOrMut::Mut(&mut r.entries),
                ),
            },
            RefOrMut::Ref(r) => LogContainer {
                time: r.time,
                worker: E::Allocation::assemble_new(RefOrMut::Ref(&r.worker)),
                entries: <Vec<(u32, T)> as IntoAllocated<Vec<(u32, T)>>>::assemble_new(
                    RefOrMut::Ref(&r.entries),
                ),
            },
        }
    }
}

} // verus!
