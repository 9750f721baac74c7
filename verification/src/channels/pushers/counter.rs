//! A wrapper which counts the number of records pushed past and updates a
//! count map.

use vstd::prelude::*;
use crate::channels::Message;
use crate::communication::Push;
use crate::container::Container;
use crate::progress::{ChangeBatch, Timestamp};

verus! {

/// The count that a batch of `len` records adds, as far as 64 bits with a
/// sign hold it.
pub open spec fn count_of(len: nat) -> i64 {
    if len > i64::MAX {
        i64::MAX
    } else {
        len as i64
    }
}

/// The count that a batch of `len` records adds.
pub fn record_count(len: usize) -> (count: i64)
    ensures
        count == count_of(len as nat),
{
    let wide: u64 = len as u64;
    if wide > 9223372036854775807u64 {
        9223372036854775807i64
    } else {
        wide as i64
    }
}

/// The produced counts after `element` has been pushed: a message adds the
/// number of its records at its time, a flush adds nothing.
pub open spec fn counted<T, D: Container>(counts: Seq<(T, i64)>, element: Option<Message<T, D>>) -> Seq<(T, i64)> {
    match element {
        Some(message) => if message.data.spec_len() == 0 {
            counts
        } else {
            counts.push((message.time, count_of(message.data.spec_len())))
        },
        None => counts,
    }
}

/// A wrapper which updates `produced` based on the number of records pushed.
pub struct CounterCore<T, D, P> {
    pushee: P,
    produced: ChangeBatch<T>,
    seen: Ghost<Seq<Option<Message<T, D>>>>,
}

/// A counter specialized to vector.
pub type Counter<T, D, P> = CounterCore<T, Vec<D>, P>;

impl<T: Timestamp, D: Container, P: Push<Message<T, D>>> CounterCore<T, D, P> {
    /// The wrapped pusher.
    pub closed spec fn pushee(&self) -> P {
        self.pushee
    }

    /// What the wrapped pusher has been handed so far.
    pub open spec fn delivered(&self) -> Seq<Option<Message<T, D>>> {
        self.pushee().pushed()
    }

    /// Access to the wrapped pusher. The counter is as it was but for what
    /// the caller does to the pusher.
    pub fn inner(&mut self) -> (inner: &mut P)
        ensures
            *inner == old(self).pushee(),
            final(self).pushee() == *final(inner),
            final(self).counts() == old(self).counts(),
            final(self).pushed() == old(self).pushed(),
    {
        &mut self.pushee
    }

    /// The counts produced and not yet taken.
    pub closed spec fn counts(&self) -> Seq<(T, i64)> {
        self.produced@
    }

    /// Allocates a new `Counter` from a pushee.
    pub fn new(pushee: P) -> (counter: Self)
        requires
            pushee.inv(),
        ensures
            counter.inv(),
            counter.pushee() == pushee,
            counter.pushed() == Seq::<Option<Message<T, D>>>::empty(),
            counter.delivered() == pushee.pushed(),
            counter.counts() == Seq::<(T, i64)>::empty(),
    {
        CounterCore { pushee, produced: ChangeBatch::new(), seen: Ghost(Seq::empty()) }
    }

    /// The changes in counts, for reading.
    pub fn produced(&self) -> (produced: &ChangeBatch<T>)
        ensures
            produced@ == self.counts(),
    {
        &self.produced
    }

    /// Moves the counts produced so far behind those of `target`.
    pub fn drain_produced_into(&mut self, target: &mut ChangeBatch<T>)
        requires
            old(self).inv(),
        ensures
            final(self).inv(),
            final(self).pushed() == old(self).pushed(),
            final(self).delivered() == old(self).delivered(),
            final(self).counts() == Seq::<(T, i64)>::empty(),
            final(target)@ == old(target)@ + old(self).counts(),
    {
        self.produced.drain_into(target);
    }
}

impl<T: Timestamp, D: Container, P: Push<Message<T, D>>> Push<Message<T, D>> for CounterCore<T, D, P> {
    open spec fn inv(&self) -> bool {
        self.pushee().inv()
    }

    closed spec fn pushed(&self) -> Seq<Option<Message<T, D>>> {
        self.seen@
    }

    /// The records of a message are counted at its time, and the element
    /// is pushed on to the wrapped pusher: a message always, a flush while
    /// counts are pending.
    open spec fn pushes(before: &Self, message: Option<Message<T, D>>, after: &Self) -> bool {
        &&& after.counts() == counted(before.counts(), message)
        &&& if message is Some || before.counts().len() > 0 {
            P::pushes(&before.pushee(), message, &after.pushee())
        } else {
            after.pushee() == before.pushee()
        }
    }

    /// Counts the records of a message at its time and hands the message on.
    /// A flush is handed on only while counts are pending.
    fn push(&mut self, message: Option<Message<T, D>>, allocation: &mut Option<<Message<T, D> as Container>::Allocation>)
        ensures
            final(self).counts() == counted(old(self).counts(), message),
            final(self).delivered() == if message is Some || old(self).counts().len() > 0 {
                old(self).delivered().push(message)
            } else {
                old(self).delivered()
            },
    {
        proof {
            self.seen@ = self.seen@.push(message);
        }
        match &message {
            Some(bundle) => {
                self.produced.update(bundle.time, record_count(bundle.data.len()));
            },
            None => {},
        }
        // only propagate `None` if dirty (indicates flush)
        if message.is_some() || !self.produced.is_empty() {
            self.pushee.push(message, allocation);
        }
    }
}

} // verus!
