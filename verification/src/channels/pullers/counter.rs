//! A wrapper which accounts records pulled past in a count map.

use vstd::prelude::*;
use crate::channels::Message;
use crate::channels::pushers::counter::{count_of, record_count};
use crate::communication::Pull;
use crate::container::Container;
use crate::progress::{ChangeBatch, Timestamp};

verus! {

/// A wrapper which accounts records pulled past in a count map.
pub struct Counter<T, D, P> {
    pullable: P,
    consumed: ChangeBatch<T>,
    phantom: core::marker::PhantomData<D>,
}

impl<T: Timestamp, D: Container, P: Pull<Message<T, D>>> Counter<T, D, P> {
    /// What the wrapped puller needs to hold between calls.
    pub closed spec fn inv(&self) -> bool {
        self.pullable.inv()
    }

    /// What the wrapped puller has answered to every pull so far.
    pub closed spec fn pulled(&self) -> Seq<Option<Message<T, D>>> {
        self.pullable.pulled()
    }

    /// The counts consumed and not yet taken.
    pub closed spec fn counts(&self) -> Seq<(T, i64)> {
        self.consumed@
    }

    /// Allocates a new `Counter` from a puller.
    pub fn new(pullable: P) -> (counter: Self)
        requires
            pullable.inv(),
        ensures
            counter.inv(),
            counter.pulled() == pullable.pulled(),
            counter.counts() == Seq::<(T, i64)>::empty(),
    {
        Counter { pullable, consumed: ChangeBatch::new(), phantom: core::marker::PhantomData }
    }

    /// Retrieves the next timestamp and batch of data.
    ///
    /// The wrapped puller is asked once. A message with records is counted
    /// at its time and handed out with the slot for its allocation; a
    /// message without records is dropped.
    pub fn next(&mut self) -> (next: Option<(Message<T, D>, &mut Option<<Message<T, D> as Container>::Allocation>)>)
        requires
            old(self).inv(),
        ensures
            final(self).inv(),
            match next {
                Some((message, _)) => {
                    &&& message.data.spec_len() > 0
                    &&& final(self).pulled() == old(self).pulled().push(Some(message))
                    &&& final(self).counts() == old(self).counts().push(
                        (message.time, count_of(message.data.spec_len())),
                    )
                },
                None => {
                    &&& final(self).counts() == old(self).counts()
                    &&& final(self).pulled().len() == old(self).pulled().len() + 1
                    &&& final(self).pulled().drop_last() == old(self).pulled()
                    &&& final(self).pulled().last() matches Some(dropped)
                        ==> dropped.data.spec_len() == 0
                },
            },
    {
        let (message, allocation) = self.pullable.pull();
        match message {
            Some(message) => {
                let len: usize = message.data.len();
                if len > 0 {
                    self.consumed.update(message.time, record_count(len));
                    Some((message, allocation))
                } else {
                    None
                }
            },
            None => None,
        }
    }

    /// The changes in counts, for reading.
    pub fn consumed(&self) -> (consumed: &ChangeBatch<T>)
        ensures
            consumed@ == self.counts(),
    {
        &self.consumed
    }

    /// Moves the counts consumed so far behind those of `target`.
    pub fn drain_consumed_into(&mut self, target: &mut ChangeBatch<T>)
        requires
            old(self).inv(),
        ensures
            final(self).inv(),
            final(self).pulled() == old(self).pulled(),
            final(self).counts() == Seq::<(T, i64)>::empty(),
            final(target)@ == old(target)@ + old(self).counts(),
    {
        self.consumed.drain_into(target);
    }
}

} // verus!
