//! Buffering and session mechanisms to provide the appearance of
//! record-at-a-time sending, with the performance of batched sends.

use vstd::prelude::*;
use crate::channels::Message;
use crate::communication::Push;
use crate::container::{default_capacity, lemma_capacity_bounds, spec_default_capacity, Container};
use crate::progress::Timestamp;
use vstd::layout::size_of;

verus! {

/// Whether `after` is the pusher `before` when one message has been pushed
/// that holds `records` at `time`, with no source and no sequence number
/// yet.
pub open spec fn sent_behind<T, D: Clone, P: Push<Message<T, Vec<D>>>>(
    before: P,
    after: P,
    time: T,
    records: Seq<D>,
) -> bool {
    &&& after.pushed().len() == before.pushed().len() + 1
    &&& after.pushed().drop_last() == before.pushed()
    &&& after.pushed().last() matches Some(message) && message.time == time && message.data@
        == records && message.from == 0 && message.seq == 0
    &&& P::pushes(&before, after.pushed().last(), &after)
}

/// What a flush at `time` makes of the pusher `before` and the waiting
/// `records`: the records go out in one message, where there are any.
pub open spec fn flushed_out<T, D: Clone, P: Push<Message<T, Vec<D>>>>(
    before: P,
    after: P,
    time: Option<T>,
    records: Seq<D>,
) -> bool {
    if records.len() > 0 && time is Some {
        sent_behind(before, after, time.unwrap(), records)
    } else {
        after == before
    }
}

/// Whether `after` is the pusher `before` when a flush has been pushed.
pub open spec fn closed_behind<T, D: Clone, P: Push<Message<T, Vec<D>>>>(before: P, after: P) -> bool {
    &&& after.pushed() == before.pushed().push(None)
    &&& P::pushes(&before, None, &after)
}

/// What the end of sending makes of the pusher `before` and the waiting
/// `records`: the records go out, where there are any, and a flush behind
/// them.
pub open spec fn ceased<T, D: Clone, P: Push<Message<T, Vec<D>>>>(
    before: P,
    after: P,
    time: Option<T>,
    records: Seq<D>,
) -> bool {
    exists|middle: P| #[trigger] flushed_out(before, middle, time, records) && closed_behind(middle, after)
}

/// Buffers data sent at the same time, for efficient communication.
///
/// The `BufferCore` type should be used by calling `session` with a time,
/// which checks whether data must be flushed and creates a `Session` object
/// which allows sending at the given time.
pub struct BufferCore<T, D, P> {
    /// the currently open time, if it is open
    time: Option<T>,
    /// a buffer for records, to send at self.time
    buffer: Vec<D>,
    pusher: P,
}

/// A buffer specialized to vector-based containers.
pub type Buffer<T, D, P> = BufferCore<T, D, P>;

impl<T: Timestamp, D: Clone, P: Push<Message<T, Vec<D>>>> BufferCore<T, D, P> {
    /// The pusher that takes the batches.
    pub closed spec fn pusher(&self) -> P {
        self.pusher
    }

    /// What the pusher has been handed so far.
    pub open spec fn delivered(&self) -> Seq<Option<Message<T, Vec<D>>>> {
        self.pusher().pushed()
    }

    /// The records that wait to be sent.
    pub closed spec fn waiting(&self) -> Seq<D> {
        self.buffer@
    }

    /// The time that records are sent at.
    pub closed spec fn time(&self) -> Option<T> {
        self.time
    }

    /// The pusher is ready, and fewer records wait than a full batch holds.
    pub open spec fn inv(&self) -> bool {
        &&& self.pusher().inv()
        &&& self.waiting().len() < spec_default_capacity(size_of::<D>())
        &&& self.time() is None ==> self.waiting().len() == 0
    }

    /// Access to the pusher. The buffer is as it was but for what the
    /// caller does to the pusher.
    pub fn inner(&mut self) -> (inner: &mut P)
        ensures
            *inner == old(self).pusher(),
            final(self).pusher() == *final(inner),
            final(self).waiting() == old(self).waiting(),
            final(self).time() == old(self).time(),
    {
        &mut self.pusher
    }

    /// Creates a new `Buffer`.
    pub fn new(pusher: P) -> (buffer: Self)
        requires
            pusher.inv(),
        ensures
            buffer.inv(),
            buffer.pusher() == pusher,
            buffer.delivered() == pusher.pushed(),
            buffer.waiting() == Seq::<D>::empty(),
            buffer.time() is None,
    {
        BufferCore { time: None, buffer: Vec::with_capacity(default_capacity::<D>()), pusher }
    }

    /// Returns a `Session`, which accepts data to send at the associated
    /// time. Records that wait for another time are flushed first.
    pub fn session(&mut self, time: &T) -> (session: Session<'_, T, D, P>)
        requires
            old(self).inv(),
        ensures
            session.buffer.inv(),
            session.buffer.time() == Some(*time),
            old(self).time() == Some(*time) ==> session.buffer.pusher() == old(self).pusher() && session.buffer.waiting() == old(self).waiting(),
            old(self).time() != Some(*time) ==> session.buffer.waiting() == Seq::<D>::empty()
                && flushed_out(
                old(self).pusher(),
                session.buffer.pusher(),
                old(self).time(),
                old(self).waiting(),
            ),
            *final(self) == *final(session.buffer),
    {
        self.open(*time);
        Session { buffer: self }
    }

    /// Allocates a new `AutoflushSessionCore` which flushes itself when it
    /// ends.
    pub fn autoflush_session(&mut self, time: T) -> (session: AutoflushSessionCore<'_, T, D, P>)
        requires
            old(self).inv(),
        ensures
            session.buffer.inv(),
            session.buffer.time() == Some(time),
            old(self).time() == Some(time) ==> session.buffer.pusher() == old(self).pusher() && session.buffer.waiting() == old(self).waiting(),
            old(self).time() != Some(time) ==> session.buffer.waiting() == Seq::<D>::empty()
                && flushed_out(
                old(self).pusher(),
                session.buffer.pusher(),
                old(self).time(),
                old(self).waiting(),
            ),
            *final(self) == *final(session.buffer),
    {
        self.open(time);
        AutoflushSessionCore { buffer: self }
    }

    /// Makes `time` the time that records are sent at; records that wait for
    /// another time are flushed first.
    pub fn open(&mut self, time: T)
        requires
            old(self).inv(),
        ensures
            final(self).inv(),
            final(self).time() == Some(time),
            old(self).time() == Some(time) ==> final(self).pusher() == old(self).pusher()
                && final(self).waiting() == old(self).waiting(),
            old(self).time() != Some(time) ==> final(self).waiting() == Seq::<D>::empty()
                && flushed_out(
                old(self).pusher(),
                final(self).pusher(),
                old(self).time(),
                old(self).waiting(),
            ),
    {
        let stale: bool = match &self.time {
            Some(current) => !current.same(&time),
            None => true,
        };
        if stale {
            self.flush();
            assert(self.buffer@ =~= Seq::<D>::empty());
        }
        self.time = Some(time);
    }

    /// Flushes all buffered data: the records that wait go to the pusher in
    /// one message at the open time.
    pub fn flush(&mut self)
        requires
            old(self).inv(),
        ensures
            final(self).inv(),
            final(self).time() == old(self).time(),
            final(self).waiting().len() == 0,
            flushed_out(
                old(self).pusher(),
                final(self).pusher(),
                old(self).time(),
                old(self).waiting(),
            ),
    {
        self.send_waiting();
    }

    /// Sends the records that wait, however many they are.
    fn send_waiting(&mut self)
        requires
            old(self).pusher.inv(),
            old(self).time is None ==> old(self).buffer@.len() == 0,
        ensures
            final(self).inv(),
            final(self).time() == old(self).time(),
            final(self).waiting().len() == 0,
            flushed_out(
                old(self).pusher(),
                final(self).pusher(),
                old(self).time(),
                old(self).waiting(),
            ),
    {
        proof {
            lemma_capacity_bounds(size_of::<D>());
        }
        if self.buffer.len() > 0 {
            match self.time {
                Some(time) => {
                    let mut data: Vec<D> = Vec::new();
                    std::mem::swap(&mut self.buffer, &mut data);
                    let mut returned: Option<<Message<T, Vec<D>> as Container>::Allocation> = None;
                    let ghost before = self.pusher.pushed();
                    self.pusher.push(Some(Message::new(time, data, 0, 0)), &mut returned);
                    assert(self.pusher.pushed().drop_last() =~= before);
                    match returned {
                        Some(shell) => {
                            let mut recycled: Vec<D> = shell.data;
                            recycled.clear();
                            self.buffer = recycled;
                        },
                        None => {},
                    }
                },
                None => {},
            }
        }
    }

    /// Flushes all buffered data, then indicates that there is no more data
    /// immediately forthcoming.
    pub fn cease(&mut self)
        requires
            old(self).inv(),
        ensures
            final(self).inv(),
            final(self).time() == old(self).time(),
            final(self).waiting().len() == 0,
            ceased(old(self).pusher(), final(self).pusher(), old(self).time(), old(self).waiting()),
    {
        self.flush();
        let mut returned: Option<<Message<T, Vec<D>> as Container>::Allocation> = None;
        let ghost before = self.pusher.pushed();
        self.pusher.push(None, &mut returned);
        assert(self.pusher.pushed().drop_last() =~= before);
    }

    /// Adds one record behind those that wait, and sends them all as one
    /// message once they are a full batch.
    pub fn give(&mut self, data: D)
        requires
            old(self).inv(),
            old(self).time() is Some,
        ensures
            final(self).inv(),
            final(self).time() == old(self).time(),
            if old(self).waiting().len() + 1 < spec_default_capacity(size_of::<D>()) {
                &&& final(self).waiting() == old(self).waiting().push(data)
                &&& final(self).pusher() == old(self).pusher()
            } else {
                &&& final(self).waiting().len() == 0
                &&& sent_behind(
                    old(self).pusher(),
                    final(self).pusher(),
                    old(self).time().unwrap(),
                    old(self).waiting().push(data),
                )
            },
    {
        self.buffer.push(data);
        if self.buffer.len() >= default_capacity::<D>() {
            self.send_waiting();
        }
    }

    /// Sends the records of `vector` in a message of their own, behind those
    /// that wait, and leaves the vector empty.
    pub fn give_vec(&mut self, vector: &mut Vec<D>)
        requires
            old(self).inv(),
            old(self).time() is Some,
        ensures
            final(self).inv(),
            final(self).time() == old(self).time(),
            final(self).waiting().len() == 0,
            final(vector)@.len() == 0,
            exists|middle: P|
                {
                    &&& #[trigger] flushed_out(
                        old(self).pusher(),
                        middle,
                        old(self).time(),
                        old(self).waiting(),
                    )
                    &&& flushed_out(
                        middle,
                        final(self).pusher(),
                        old(self).time(),
                        old(vector)@,
                    )
                },
    {
        self.flush();
        let ghost middle = self.pusher;
        if vector.len() > 0 {
            match self.time {
                Some(time) => {
                    let mut data: Vec<D> = Vec::new();
                    std::mem::swap(vector, &mut data);
                    let mut returned: Option<<Message<T, Vec<D>> as Container>::Allocation> = None;
                    self.pusher.push(Some(Message::new(time, data, 0, 0)), &mut returned);
                    assert(self.pusher.pushed().drop_last() =~= middle.pushed());
                    match returned {
                        Some(shell) => {
                            let mut recycled: Vec<D> = shell.data;
                            recycled.clear();
                            *vector = recycled;
                        },
                        None => {},
                    }
                },
                None => {},
            }
        }
        assert(flushed_out(old(self).pusher(), middle, old(self).time(), old(self).waiting()));
    }
}

/// An output session for sending records at a specified time.
pub struct Session<'a, T, D, P> {
    /// The buffer that the session fills.
    pub buffer: &'a mut BufferCore<T, D, P>,
}

impl<'a, T: Timestamp, D: Clone, P: Push<Message<T, Vec<D>>>> Session<'a, T, D, P> {
    /// Provides one record at the time specified by the `Session`.
    pub fn give(&mut self, data: D)
        requires
            old(self).buffer.inv(),
            old(self).buffer.time() is Some,
        ensures
            *final(final(self).buffer) == *final(old(self).buffer),
            final(self).buffer.inv(),
            final(self).buffer.time() == old(self).buffer.time(),
            if old(self).buffer.waiting().len() + 1 < spec_default_capacity(size_of::<D>()) {
                &&& final(self).buffer.waiting() == old(self).buffer.waiting().push(data)
                &&& final(self).buffer.pusher() == old(self).buffer.pusher()
            } else {
                &&& final(self).buffer.waiting().len() == 0
                &&& sent_behind(
                    old(self).buffer.pusher(),
                    final(self).buffer.pusher(),
                    old(self).buffer.time().unwrap(),
                    old(self).buffer.waiting().push(data),
                )
            },
    {
        self.buffer.give(data);
    }

    /// Provides a fully formed batch of records at the time specified by
    /// the `Session`, and leaves the vector empty.
    pub fn give_vec(&mut self, vector: &mut Vec<D>)
        requires
            old(self).buffer.inv(),
            old(self).buffer.time() is Some,
        ensures
            *final(final(self).buffer) == *final(old(self).buffer),
            final(self).buffer.inv(),
            final(self).buffer.time() == old(self).buffer.time(),
            final(self).buffer.waiting().len() == 0,
            final(vector)@.len() == 0,
            exists|middle: P|
                {
                    &&& #[trigger] flushed_out(
                        old(self).buffer.pusher(),
                        middle,
                        old(self).buffer.time(),
                        old(self).buffer.waiting(),
                    )
                    &&& flushed_out(
                        middle,
                        final(self).buffer.pusher(),
                        old(self).buffer.time(),
                        old(vector)@,
                    )
                },
    {
        self.buffer.give_vec(vector);
    }
}

/// A session which will flush itself when it ends.
pub struct AutoflushSessionCore<'a, T, D, P> {
    /// A reference to the underlying buffer.
    pub buffer: &'a mut BufferCore<T, D, P>,
}

impl<'a, T: Timestamp, D: Clone, P: Push<Message<T, Vec<D>>>> AutoflushSessionCore<'a, T, D, P> {
    /// Transmits a single record.
    pub fn give(&mut self, data: D)
        requires
            old(self).buffer.inv(),
            old(self).buffer.time() is Some,
        ensures
            *final(final(self).buffer) == *final(old(self).buffer),
            final(self).buffer.inv(),
            final(self).buffer.time() == old(self).buffer.time(),
            if old(self).buffer.waiting().len() + 1 < spec_default_capacity(size_of::<D>()) {
                &&& final(self).buffer.waiting() == old(self).buffer.waiting().push(data)
                &&& final(self).buffer.pusher() == old(self).buffer.pusher()
            } else {
                &&& final(self).buffer.waiting().len() == 0
                &&& sent_behind(
                    old(self).buffer.pusher(),
                    final(self).buffer.pusher(),
                    old(self).buffer.time().unwrap(),
                    old(self).buffer.waiting().push(data),
                )
            },
    {
        self.buffer.give(data);
    }

    /// Ends the session: what waits is sent, and a flush behind it.
    pub fn end(self)
        requires
            old(self.buffer).inv(),
        ensures
            final(self.buffer).inv(),
            final(self.buffer).time() == old(self.buffer).time(),
            final(self.buffer).waiting().len() == 0,
            ceased(
                old(self.buffer).pusher(),
                final(self.buffer).pusher(),
                old(self.buffer).time(),
                old(self.buffer).waiting(),
            ),
    {
        self.buffer.cease();
    }
}

} // verus!
