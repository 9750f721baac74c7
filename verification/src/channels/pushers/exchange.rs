//! The exchange pattern distributes pushed data between many target
//! pushees.

use vstd::prelude::*;
use crate::channels::Message;
use crate::communication::Push;
use crate::container::{spec_default_capacity, Container};
use vstd::layout::size_of;
use crate::partition::{delivered, flushed_count, FlushBuffer, PushPartitioned};
use crate::progress::Timestamp;

verus! {

/// The records that `history` holds for `time`, in the order they were
/// handed over.
pub open spec fn records_at<T, D>(history: Seq<Option<Message<T, Vec<D>>>>, time: T) -> Seq<D>
    decreases history.len(),
{
    if history.len() == 0 {
        Seq::empty()
    } else {
        let rest = records_at(history.drop_last(), time);
        match history.last() {
            Some(message) => if message.time == time {
                rest + message.data@
            } else {
                rest
            },
            None => rest,
        }
    }
}

/// The number of records in all messages of `history`.
pub open spec fn records_in<T, D>(history: Seq<Option<Message<T, Vec<D>>>>) -> nat
    decreases history.len(),
{
    if history.len() == 0 {
        0
    } else {
        records_in(history.drop_last()) + match history.last() {
            Some(message) => message.data@.len(),
            None => 0nat,
        }
    }
}

/// The number of records in all messages of all `histories`.
pub open spec fn total_records<T, D>(histories: Seq<Seq<Option<Message<T, Vec<D>>>>>) -> nat
    decreases histories.len(),
{
    if histories.len() == 0 {
        0
    } else {
        total_records(histories.drop_last()) + records_in(histories.last())
    }
}

/// What each of `pushers` has been handed so far.
pub open spec fn histories<M: Container, P: Push<M>>(pushers: Seq<P>) -> Seq<Seq<Option<M>>> {
    Seq::new(pushers.len(), |i: int| pushers[i].pushed())
}

/// The messages that come of the buffers in `flushed` that went to
/// `target`, each sent at `time`.
pub open spec fn handed<T, D>(flushed: Seq<(usize, Vec<D>)>, target: int, time: T) -> Seq<
    Option<Message<T, Vec<D>>>,
>
    decreases flushed.len(),
{
    if flushed.len() == 0 {
        Seq::empty()
    } else {
        let rest = handed(flushed.drop_last(), target, time);
        if flushed.last().0 == target {
            rest.push(Some(Message { time, data: flushed.last().1, from: 0, seq: 0 }))
        } else {
            rest
        }
    }
}

/// Whether every element of `history` from position `from` on is a message
/// at `time` that holds `capacity` records at least.
pub open spec fn full_messages<T, D>(
    history: Seq<Option<Message<T, Vec<D>>>>,
    from: int,
    time: T,
    capacity: nat,
) -> bool {
    forall|k: int|
        from <= k < history.len() ==> (#[trigger] history[k] matches Some(message) && message.time
            == time && message.data@.len() >= capacity)
}

/// The length of the history of a target when the exchange has made room
/// for a message at `time`: where its buffer held records for another time,
/// they have gone out in one message.
pub open spec fn settled<T>(length: nat, current: Option<T>, time: T, waiting: nat) -> int {
    if current is Some && current != Some(time) && waiting > 0 {
        length as int + 1
    } else {
        length as int
    }
}

/// The messages that come of full buffers are full.
pub proof fn lemma_handed_full<T, D>(
    flushed: Seq<(usize, Vec<D>)>,
    target: int,
    time: T,
    capacity: nat,
)
    requires
        forall|k: int| 0 <= k < flushed.len() ==> (#[trigger] flushed[k]).1@.len() >= capacity,
    ensures
        full_messages(handed(flushed, target, time), 0, time, capacity),
    decreases flushed.len(),
{
    if flushed.len() > 0 {
        let shorter = flushed.drop_last();
        assert forall|k: int| 0 <= k < shorter.len() implies (#[trigger] shorter[k]).1@.len()
            >= capacity by {
            assert(shorter[k] == flushed[k]);
        }
        lemma_handed_full(shorter, target, time, capacity);
        assert(flushed.last() == flushed[flushed.len() - 1]);
    }
}

/// The records of two histories one behind the other are the records of
/// the first, then those of the second.
pub proof fn lemma_records_at_concat<T, D>(
    first: Seq<Option<Message<T, Vec<D>>>>,
    second: Seq<Option<Message<T, Vec<D>>>>,
    time: T,
)
    ensures
        records_at(first + second, time) == records_at(first, time) + records_at(second, time),
        records_in(first + second) == records_in(first) + records_in(second),
    decreases second.len(),
{
    if second.len() == 0 {
        assert(first + second =~= first);
        assert(records_at(first, time) + records_at(second, time) =~= records_at(first, time));
    } else {
        lemma_records_at_concat(first, second.drop_last(), time);
        assert((first + second).drop_last() =~= first + second.drop_last());
        assert((first + second).last() == second.last());
        let rest = records_at(second.drop_last(), time);
        match second.last() {
            Some(message) => {
                if message.time == time {
                    assert(records_at(first, time) + (rest + message.data@) =~= (records_at(
                        first,
                        time,
                    ) + rest) + message.data@);
                }
            },
            None => {},
        }
    }
}

/// The messages made of flushed buffers hold, for the time they were sent
/// at, exactly the records that were flushed for the target, and none for
/// any other time.
pub proof fn lemma_records_at_handed<T, D: Clone>(
    flushed: Seq<(usize, Vec<D>)>,
    target: usize,
    time: T,
    other: T,
)
    ensures
        records_at(handed(flushed, target as int, time), time) == delivered::<D, Vec<D>>(
            flushed,
            target,
        ),
        other != time ==> records_at(handed(flushed, target as int, time), other) == Seq::<
            D,
        >::empty(),
    decreases flushed.len(),
{
    if flushed.len() > 0 {
        lemma_records_at_handed(flushed.drop_last(), target, time, other);
        let rest = handed(flushed.drop_last(), target as int, time);
        if flushed.last().0 == target {
            let message = Message { time, data: flushed.last().1, from: 0, seq: 0 };
            assert(rest.push(Some(message)).drop_last() =~= rest);
        }
    }
}

/// Replacing one history changes the number of records by the difference
/// of the two.
pub proof fn lemma_total_records_update<T, D>(
    all: Seq<Seq<Option<Message<T, Vec<D>>>>>,
    index: int,
    history: Seq<Option<Message<T, Vec<D>>>>,
)
    requires
        0 <= index < all.len(),
    ensures
        total_records(all.update(index, history)) + records_in(all[index]) == total_records(all)
            + records_in(history),
    decreases all.len(),
{
    let updated = all.update(index, history);
    if index == all.len() - 1 {
        assert(updated.drop_last() =~= all.drop_last());
    } else {
        lemma_total_records_update(all.drop_last(), index, history);
        assert(updated.drop_last() =~= all.drop_last().update(index, history));
    }
}

/// The pushers of an exchange while a batch is partitioned: each full
/// buffer is sent to its target at the time of the batch.
pub struct Bank<T, D, P> {
    pushers: Vec<P>,
    time: T,
    flushed: Ghost<Seq<(usize, Vec<D>)>>,
    start: Ghost<Seq<Seq<Option<Message<T, Vec<D>>>>>>,
}

impl<T: Timestamp, D: Clone, P: Push<Message<T, Vec<D>>>> Bank<T, D, P> {
    /// What each pusher had been handed when the bank was made.
    pub closed spec fn start(&self) -> Seq<Seq<Option<Message<T, Vec<D>>>>> {
        self.start@
    }

    /// What each pusher has been handed so far.
    pub closed spec fn outputs(&self) -> Seq<Seq<Option<Message<T, Vec<D>>>>> {
        histories(self.pushers@)
    }

    /// The time that buffers are sent at.
    pub closed spec fn time(&self) -> T {
        self.time
    }

    /// Makes a bank of `pushers` that sends at `time`.
    pub fn new(pushers: Vec<P>, time: T) -> (bank: Self)
        requires
            forall|i: int| 0 <= i < pushers@.len() ==> (#[trigger] pushers@[i]).inv(),
        ensures
            bank.inv(),
            bank.width() == pushers@.len(),
            bank.flushed() == Seq::<(usize, Vec<D>)>::empty(),
            bank.start() == histories(pushers@),
            bank.outputs() == histories(pushers@),
            bank.time() == time,
    {
        let ghost start = histories(pushers@);
        let bank = Bank { pushers, time, flushed: Ghost(Seq::empty()), start: Ghost(start) };
        assert forall|target: int| 0 <= target < bank.pushers@.len() implies (
        #[trigger] bank.pushers@[target]).pushed() == bank.start@[target] + handed(
            bank.flushed@,
            target,
            bank.time,
        ) by {
            assert(bank.start@[target] + Seq::<Option<Message<T, Vec<D>>>>::empty()
                =~= bank.start@[target]);
        }
        bank
    }

    /// Gives the pushers back.
    pub fn into_pushers(self) -> (pushers: Vec<P>)
        requires
            self.inv(),
        ensures
            pushers@.len() == self.width(),
            forall|i: int| 0 <= i < pushers@.len() ==> (#[trigger] pushers@[i]).inv(),
            histories(pushers@) == self.outputs(),
            forall|target: int|
                0 <= target < pushers@.len() ==> (#[trigger] histories(pushers@)[target])
                    == self.start()[target] + handed(self.flushed(), target, self.time()),
            total_records(self.outputs()) == total_records(self.start()) + flushed_count::<
                D,
                Vec<D>,
            >(self.flushed()),
    {
        self.pushers
    }
}

impl<T: Timestamp, D: Clone, P: Push<Message<T, Vec<D>>>> FlushBuffer<Vec<D>> for Bank<T, D, P> {
    type Setting = (Seq<Seq<Option<Message<T, Vec<D>>>>>, T);

    open spec fn setting(&self) -> Self::Setting {
        (self.start(), self.time())
    }

    /// Each pusher has been handed what it had at the start, then one
    /// message for every buffer flushed for it.
    closed spec fn inv(&self) -> bool {
        &&& self.start@.len() == self.pushers@.len()
        &&& forall|i: int| 0 <= i < self.pushers@.len() ==> (#[trigger] self.pushers@[i]).inv()
        &&& forall|target: int|
            0 <= target < self.pushers@.len() ==> (#[trigger] self.pushers@[target]).pushed()
                == self.start@[target] + handed(self.flushed@, target, self.time)
        &&& total_records(histories(self.pushers@)) == total_records(self.start@)
            + flushed_count::<D, Vec<D>>(self.flushed@)
    }

    closed spec fn width(&self) -> nat {
        self.pushers@.len()
    }

    closed spec fn flushed(&self) -> Seq<(usize, Vec<D>)> {
        self.flushed@
    }

    /// Sends the contents of `buffer` to the pusher of `index` as one
    /// message at the time of the bank, and leaves in the buffer the empty
    /// allocation that came back, or a fresh one.
    fn flush(&mut self, index: usize, buffer: &mut Vec<D>) {
        let mut data: Vec<D> = Vec::new();
        std::mem::swap(buffer, &mut data);
        let ghost sent = data;
        let ghost before = self.pushers@;
        let ghost earlier = self.flushed@;
        let mut returned: Option<<Message<T, Vec<D>> as Container>::Allocation> = None;
        self.pushers[index].push(Some(Message::new(self.time, data, 0, 0)), &mut returned);
        match returned {
            Some(shell) => {
                let mut recycled: Vec<D> = shell.data;
                recycled.clear();
                *buffer = recycled;
            },
            None => {},
        }
        proof {
            self.flushed@ = earlier.push((index, sent));
            assert(self.flushed@.drop_last() =~= earlier);
            let message = Message { time: self.time, data: sent, from: 0usize, seq: 0usize };
            assert forall|target: int| 0 <= target < self.pushers@.len() implies (
            #[trigger] self.pushers@[target]).pushed() == self.start@[target] + handed(
                self.flushed@,
                target,
                self.time,
            ) by {
                if target == index {
                    assert(before[target].pushed().push(Some(message)) =~= self.start@[target]
                        + handed(earlier, target, self.time).push(Some(message)));
                } else {
                    assert(self.pushers@[target] == before[target]);
                }
            }
            assert(histories(self.pushers@) =~= histories(before).update(
                index as int,
                self.pushers@[index as int].pushed(),
            ));
            lemma_total_records_update(
                histories(before),
                index as int,
                self.pushers@[index as int].pushed(),
            );
            assert(self.pushers@[index as int].pushed().drop_last() =~= before[index as int].pushed());
        }
    }
}

} // verus!

verus! {

/// The target that the hash function `hash` names for a record among
/// `peers` targets.
pub open spec fn target_of<D>(hash: spec_fn(D) -> u64, peers: nat) -> spec_fn(D) -> usize {
    |record: D| (hash(record) as nat % peers) as usize
}

/// Whether the executable function `hash_func` computes `hash`.
pub open spec fn hashes<D, H: Fn(&D) -> u64>(hash_func: H, hash: spec_fn(D) -> u64) -> bool {
    forall|record: D, value: u64| call_ensures(hash_func, (&record,), value) ==> value == hash(record)
}

/// The records for `time` that have reached a target: those its pusher has
/// been handed, then those waiting in its buffer where the buffer fills for
/// that time.
pub open spec fn reached<T, D>(
    history: Seq<Option<Message<T, Vec<D>>>>,
    current: Option<T>,
    buffer: Seq<D>,
    time: T,
) -> Seq<D> {
    records_at(history, time) + if current == Some(time) {
        buffer
    } else {
        Seq::empty()
    }
}

/// Whether `after` is `before` with a buffer flushed behind it: one message
/// at the current time with the records of the buffer, where it holds any,
/// and then a flush where `close` says so.
pub open spec fn flushed_behind<T, D>(
    before: Seq<Option<Message<T, Vec<D>>>>,
    after: Seq<Option<Message<T, Vec<D>>>>,
    current: Option<T>,
    buffer: Seq<D>,
    close: bool,
) -> bool {
    let sent: nat = if buffer.len() > 0 { 1 } else { 0 };
    let closed: nat = if close { 1 } else { 0 };
    &&& after.len() == before.len() + sent + closed
    &&& after.subrange(0, before.len() as int) == before
    &&& sent == 1 ==> (after[before.len() as int] matches Some(message) && Some(message.time)
        == current && message.data@ == buffer)
    &&& close ==> after.last() is None
}

/// The records of `message` that belong to `target` at `time` under the
/// hash function `hash`: those that the function sends there, where `time`
/// is the time of the message, and none for another time.
pub open spec fn arriving<T, D>(
    message: Message<T, Vec<D>>,
    hash: spec_fn(D) -> u64,
    peers: nat,
    target: int,
    time: T,
) -> Seq<D> {
    if time == message.time {
        crate::partition::routed(message.data@, target_of(hash, peers), target as usize)
    } else {
        Seq::empty()
    }
}

/// The views of `buffers`.
pub open spec fn views<D>(buffers: Seq<Vec<D>>) -> Seq<Seq<D>> {
    Seq::new(buffers.len(), |i: int| buffers[i]@)
}

/// Distributes records among target pushees according to a hash function.
pub struct Exchange<T, D, P, H> {
    pushers: Vec<P>,
    buffers: Vec<Vec<D>>,
    current: Option<T>,
    hash_func: H,
    seen: Ghost<Seq<Option<Message<T, Vec<D>>>>>,
    origin: Ghost<nat>,
}

impl<T: Timestamp, D: Clone, P: Push<Message<T, Vec<D>>>, H: Fn(&D) -> u64> Exchange<T, D, P, H> {
    /// The pushers of the targets, by target.
    pub closed spec fn targets(&self) -> Seq<P> {
        self.pushers@
    }

    /// What each target pusher has been handed so far.
    pub closed spec fn outputs(&self) -> Seq<Seq<Option<Message<T, Vec<D>>>>> {
        histories(self.pushers@)
    }

    /// The records waiting in the buffer of each target.
    pub closed spec fn waiting(&self) -> Seq<Seq<D>> {
        views(self.buffers@)
    }

    /// The time that the buffers fill for.
    pub closed spec fn current(&self) -> Option<T> {
        self.current
    }

    /// The function that routes the records.
    pub closed spec fn hash_func(&self) -> H {
        self.hash_func
    }

    /// The number of targets.
    pub closed spec fn peers(&self) -> nat {
        self.pushers@.len()
    }

    /// The number of records that the targets had been handed when the
    /// exchange was made.
    pub closed spec fn origin(&self) -> nat {
        self.origin@
    }

    /// Sum preservation: the records handed on to the targets or waiting in
    /// their buffers are as many as the targets had at the start and the
    /// exchange has been handed since.
    pub proof fn lemma_sum_preserved(&self)
        requires
            self.inv(),
        ensures
            self.total() == self.origin() + records_in(self.pushed()),
    {
    }

    /// The number of records waiting in the buffers.
    pub closed spec fn buffered(&self) -> nat {
        crate::partition::buffered_count::<D, Vec<D>>(self.buffers@)
    }

    /// The number of records handed on or waiting.
    pub closed spec fn total(&self) -> nat {
        total_records(histories(self.pushers@)) + crate::partition::buffered_count::<D, Vec<D>>(
            self.buffers@,
        )
    }

    /// Allocates a new `Exchange` from a supplied set of pushers and a
    /// distribution function.
    pub fn new(pushers: Vec<P>, key: H) -> (exchange: Self)
        requires
            pushers@.len() > 0,
            forall|i: int| 0 <= i < pushers@.len() ==> (#[trigger] pushers@[i]).inv(),
            forall|record: &D| call_requires(key, (record,)),
        ensures
            exchange.inv(),
            exchange.pushed() == Seq::<Option<Message<T, Vec<D>>>>::empty(),
            exchange.targets() == pushers@,
            exchange.outputs() == histories(pushers@),
            exchange.peers() == pushers@.len(),
            exchange.waiting() == Seq::new(pushers@.len(), |i: int| Seq::<D>::empty()),
            exchange.current() is None,
            exchange.hash_func() == key,
            exchange.total() == total_records(histories(pushers@)),
            exchange.origin() == total_records(histories(pushers@)),
    {
        let mut buffers: Vec<Vec<D>> = Vec::new();
        let mut index: usize = 0;
        while index < pushers.len()
            invariant
                index <= pushers@.len(),
                buffers@.len() == index,
                forall|i: int| 0 <= i < index ==> (#[trigger] buffers@[i])@.len() == 0,
                crate::partition::buffered_count::<D, Vec<D>>(buffers@) == 0,
            decreases pushers@.len() - index,
        {
            let ghost before = buffers@;
            buffers.push(Vec::new());
            assert(buffers@.drop_last() =~= before);
            index += 1;
        }
        let exchange = Exchange {
            pushers,
            buffers,
            current: None,
            hash_func: key,
            seen: Ghost(Seq::empty()),
            origin: Ghost(total_records(histories(pushers@))),
        };
        assert(exchange.waiting() =~~= Seq::new(pushers@.len(), |i: int| Seq::<D>::empty()));
        exchange
    }

    /// Sends what waits in every buffer to its target at the current time,
    /// and a flush behind it where `close` says so.
    fn flush_all(&mut self, close: bool)
        requires
            old(self).inv(),
        ensures
            final(self).inv(),
            final(self).pushed() == old(self).pushed(),
            final(self).peers() == old(self).peers(),
            final(self).current() == old(self).current(),
            final(self).hash_func() == old(self).hash_func(),
            final(self).total() == old(self).total(),
            final(self).origin() == old(self).origin(),
            final(self).waiting() == Seq::new(old(self).peers(), |i: int| Seq::<D>::empty()),
            forall|target: int|
                0 <= target < old(self).peers() ==> flushed_behind(
                    old(self).outputs()[target],
                    #[trigger] final(self).outputs()[target],
                    old(self).current(),
                    old(self).waiting()[target],
                    close,
                ),
            forall|target: int, time: T|
                0 <= target < old(self).peers() ==> #[trigger] records_at(
                    final(self).outputs()[target],
                    time,
                ) == reached(
                    old(self).outputs()[target],
                    old(self).current(),
                    old(self).waiting()[target],
                    time,
                ),
    {
        let count: usize = self.pushers.len();
        let mut index: usize = 0;
        while index < count
            invariant
                index <= count,
                count == self.pushers@.len(),
                count == old(self).pushers@.len(),
                count == self.buffers@.len(),
                old(self).inv(),
                self.seen@ == old(self).seen@,
                self.origin@ == old(self).origin@,
                self.current == old(self).current,
                self.hash_func == old(self).hash_func,
                self.total() == old(self).total(),
                forall|i: int| 0 <= i < count ==> (#[trigger] self.pushers@[i]).inv(),
                forall|i: int| 0 <= i < index ==> (#[trigger] self.buffers@[i])@.len() == 0,
                forall|i: int|
                    index <= i < count ==> #[trigger] self.buffers@[i] == old(self).buffers@[i],
                forall|i: int|
                    index <= i < count ==> (#[trigger] self.pushers@[i]).pushed() == old(
                        self,
                    ).pushers@[i].pushed(),
                forall|target: int|
                    0 <= target < index ==> flushed_behind(
                        old(self).pushers@[target].pushed(),
                        (#[trigger] self.pushers@[target]).pushed(),
                        old(self).current,
                        old(self).buffers@[target]@,
                        close,
                    ),
                forall|target: int, time: T|
                    0 <= target < index ==> #[trigger] records_at(
                        self.pushers@[target].pushed(),
                        time,
                    ) == reached(
                        old(self).pushers@[target].pushed(),
                        old(self).current,
                        old(self).buffers@[target]@,
                        time,
                    ),
            decreases count - index,
        {
            let ghost start = self.pushers@[index as int].pushed();
            let ghost held = self.buffers@[index as int]@;
            let ghost pushers_before = self.pushers@;
            let ghost buffers_before = self.buffers@;
            if self.buffers[index].len() > 0 {
                match self.current {
                    Some(time) => {
                        let mut data: Vec<D> = Vec::new();
                        std::mem::swap(&mut self.buffers[index], &mut data);
                        let mut returned: Option<<Message<T, Vec<D>> as Container>::Allocation> =
                            None;
                        self.pushers[index].push(Some(Message::new(time, data, 0, 0)), &mut returned);
                        match returned {
                            Some(shell) => {
                                let mut recycled: Vec<D> = shell.data;
                                recycled.clear();
                                self.buffers[index] = recycled;
                            },
                            None => {},
                        }
                        proof {
                            assert(self.pushers@[index as int].pushed().drop_last() =~= start);
                            lemma_total_records_update(
                                histories(pushers_before),
                                index as int,
                                self.pushers@[index as int].pushed(),
                            );
                            assert(histories(self.pushers@) =~= histories(pushers_before).update(
                                index as int,
                                self.pushers@[index as int].pushed(),
                            ));
                            crate::partition::lemma_buffered_count_update::<D, Vec<D>>(
                                buffers_before,
                                index as int,
                                self.buffers@[index as int],
                            );
                            assert(self.buffers@ =~= buffers_before.update(
                                index as int,
                                self.buffers@[index as int],
                            ));
                        }
                    },
                    None => {
                        assert(false);
                    },
                }
            }
            let ghost middle = self.pushers@[index as int].pushed();
            let ghost pushers_middle = self.pushers@;
            if close {
                let mut returned: Option<<Message<T, Vec<D>> as Container>::Allocation> = None;
                self.pushers[index].push(None, &mut returned);
                proof {
                    assert(self.pushers@[index as int].pushed().drop_last() =~= middle);
                    lemma_total_records_update(
                        histories(pushers_middle),
                        index as int,
                        self.pushers@[index as int].pushed(),
                    );
                    assert(histories(self.pushers@) =~= histories(pushers_middle).update(
                        index as int,
                        self.pushers@[index as int].pushed(),
                    ));
                }
            }
            proof {
                let after = self.pushers@[index as int].pushed();
                assert(after.subrange(0, start.len() as int) =~= start);
                assert forall|time: T| #[trigger]
                    records_at(after, time) == reached(start, self.current, held, time) by {
                    assert(middle.len() > start.len() ==> middle.drop_last() =~= start);
                    assert(records_at(middle, time) == reached(start, self.current, held, time)) by {
                        if held.len() > 0 {
                            assert(middle.drop_last() =~= start);
                        } else {
                            assert(records_at(start, time) + Seq::<D>::empty() =~= records_at(
                                start,
                                time,
                            ));
                            assert(records_at(start, time) + held =~= records_at(start, time));
                        }
                    }
                    if close {
                        assert(after.drop_last() =~= middle);
                    }
                }
                assert forall|i: int| 0 <= i < index implies (#[trigger] self.pushers@[i])
                    == pushers_before[i] by {}
            }
            index += 1;
        }
        proof {
            assert(self.waiting() =~~= Seq::new(old(self).peers(), |i: int| Seq::<D>::empty()));
        }
    }
}

impl<T: Timestamp, D: Clone, P: Push<Message<T, Vec<D>>>, H: Fn(&D) -> u64> Push<Message<T, Vec<D>>> for Exchange<T, D, P, H> {
    /// There is a target; every target has a pusher and a buffer; the
    /// buffers hold records only while there is a time they fill for.
    closed spec fn inv(&self) -> bool {
        &&& self.pushers@.len() > 0
        &&& self.buffers@.len() == self.pushers@.len()
        &&& forall|i: int| 0 <= i < self.pushers@.len() ==> (#[trigger] self.pushers@[i]).inv()
        &&& forall|record: &D| call_requires(self.hash_func, (record,))
        &&& self.current is None ==> forall|i: int|
            0 <= i < self.buffers@.len() ==> (#[trigger] self.buffers@[i])@.len() == 0
        &&& self.total() == self.origin@ + records_in(self.seen@)
    }

    closed spec fn pushed(&self) -> Seq<Option<Message<T, Vec<D>>>> {
        self.seen@
    }

    /// The records of a message are added to those handed on or waiting;
    /// the targets and the function that routes stay.
    open spec fn pushes(before: &Self, message: Option<Message<T, Vec<D>>>, after: &Self) -> bool {
        &&& after.peers() == before.peers()
        &&& after.hash_func() == before.hash_func()
        &&& after.origin() == before.origin()
        &&& after.total() == before.total() + match message {
            Some(message) => message.data@.len(),
            None => 0nat,
        }
    }

    /// Routes the records of a message to the buffers of their targets, and
    /// sends every buffer that fills up to its target; a flush sends what
    /// waits in every buffer and then a flush to every target. The emptied
    /// batch of a message goes back to the caller as its allocation.
    ///
    /// Nothing is sent to a target before its buffer is full: what a message
    /// makes the exchange send are full buffers at the time of the message,
    /// behind what waited for another time; while the records that wait are
    /// fewer than a full buffer and are all of one time, a message only
    /// fills the buffers. No record is lost or made
    /// twice on the way. Under a hash function
    /// `hash` every record `x` reaches target `hash(x) % peers`, at its
    /// time, behind the records that reached the target before.
    fn push(&mut self, message: Option<Message<T, Vec<D>>>, allocation: &mut Option<<Message<T, Vec<D>> as Container>::Allocation>)
        ensures
            match (message, *final(allocation)) {
                (Some(_), Some(shell)) => shell.data@.len() == 0,
                (None, None) => true,
                _ => false,
            },
            final(self).peers() == old(self).peers(),
            final(self).hash_func() == old(self).hash_func(),
            final(self).origin() == old(self).origin(),
            final(self).outputs().len() == old(self).peers(),
            final(self).waiting().len() == old(self).peers(),
            final(self).total() == old(self).total() + match message {
                Some(message) => message.data@.len(),
                None => 0nat,
            },
            final(self).total() == total_records(final(self).outputs()) + final(self).buffered(),
            match message {
                Some(message) => {
                    &&& final(self).current() == Some(message.time)
                    &&& forall|target: int|
                        0 <= target < old(self).peers() ==> full_messages(
                            #[trigger] final(self).outputs()[target],
                            settled(
                                old(self).outputs()[target].len(),
                                old(self).current(),
                                message.time,
                                old(self).waiting()[target].len(),
                            ),
                            message.time,
                            spec_default_capacity(size_of::<D>()),
                        )
                    &&& (old(self).current() is None || old(self).current() == Some(message.time))
                        && old(self).buffered() + message.data@.len() < spec_default_capacity(
                        size_of::<D>(),
                    ) ==> final(self).outputs() == old(self).outputs()
                    &&& forall|hash: spec_fn(D) -> u64, target: int, time: T|
                        hashes(old(self).hash_func(), hash) && 0 <= target < old(self).peers()
                            ==> reached(
                            final(self).outputs()[target],
                            final(self).current(),
                            final(self).waiting()[target],
                            time,
                        ) == reached(
                            old(self).outputs()[target],
                            old(self).current(),
                            old(self).waiting()[target],
                            time,
                        ) + #[trigger] arriving(message, hash, old(self).peers(), target, time)
                },
                None => {
                    &&& final(self).current() == old(self).current()
                    &&& final(self).waiting() == Seq::new(
                        old(self).peers(),
                        |i: int| Seq::<D>::empty(),
                    )
                    &&& forall|target: int|
                        0 <= target < old(self).peers() ==> flushed_behind(
                            old(self).outputs()[target],
                            #[trigger] final(self).outputs()[target],
                            old(self).current(),
                            old(self).waiting()[target],
                            true,
                        )
                },
            },
    {
        let ghost given = message;
        match message {
            Some(message) => {
                let time: T = message.time;
                let mut data: Vec<D> = message.data;
                // if the time isn't right, flush everything.
                let stale: bool = match &self.current {
                    Some(current) => !current.same(&time),
                    None => false,
                };
                if stale {
                    self.flush_all(false);
                }
                let ghost flushed_outputs = self.outputs();
                let ghost flushed_waiting = self.waiting();
                self.current = Some(time);
                let peers: usize = self.pushers.len();
                let hash_func = &self.hash_func;
                let index = |record: &D| -> (target: usize)
                    requires
                        call_requires(hash_func, (record,)),
                        peers > 0
                    ensures
                        target < peers,
                        exists|value: u64| #[trigger]
                            call_ensures(hash_func, (record,), value) && target == (value as nat
                                % peers as nat) as usize
                {
                    let value: u64 = hash_func(record);
                    (value % (peers as u64)) as usize
                };
                let ghost total_before = self.total();
                let mut pushers: Vec<P> = Vec::new();
                std::mem::swap(&mut self.pushers, &mut pushers);
                let mut bank = Bank::new(pushers, time);
                let ghost buffers_before = self.buffers@;
                assert(bank.setting() == (flushed_outputs, time));
                assert(flushed_count::<D, Vec<D>>(bank.flushed()) == 0);
                data.push_partitioned(&mut self.buffers, index, &mut bank);
                let ghost handed_over = bank.flushed();
                assert(bank.setting() == (flushed_outputs, time));
                let ghost nothing_sent = handed_over == Seq::<(usize, Vec<D>)>::empty();
                proof {
                    assert forall|k: int| 0 <= k < handed_over.len() implies (
                    #[trigger] handed_over[k]).1@.len() >= spec_default_capacity(size_of::<D>()) by {
                        assert(crate::partition::full_batch::<D, Vec<D>>(
                            buffers_before,
                            handed_over[k],
                        ));
                    }
                }
                let mut pushers: Vec<P> = bank.into_pushers();
                std::mem::swap(&mut self.pushers, &mut pushers);
                proof {
                    assert forall|target: int| 0 <= target < old(self).peers() implies full_messages(
                        #[trigger] self.outputs()[target],
                        settled(
                            old(self).outputs()[target].len(),
                            old(self).current(),
                            time,
                            old(self).waiting()[target].len(),
                        ),
                        time,
                        spec_default_capacity(size_of::<D>()),
                    ) by {
                        let start = flushed_outputs[target];
                        let sent = handed(handed_over, target, time);
                        lemma_handed_full(
                            handed_over,
                            target,
                            time,
                            spec_default_capacity(size_of::<D>()),
                        );
                        assert(self.outputs()[target] == start + sent);
                        assert(start.len() == settled(
                            old(self).outputs()[target].len(),
                            old(self).current(),
                            time,
                            old(self).waiting()[target].len(),
                        ));
                        assert forall|k: int| start.len() <= k < (start + sent).len() implies (
                        #[trigger] (start + sent)[k] matches Some(sent_message)
                            && sent_message.time == time && sent_message.data@.len()
                            >= spec_default_capacity(size_of::<D>())) by {
                            assert((start + sent)[k] == sent[k - start.len()]);
                        }
                    }
                    if !stale && old(self).buffered() + message.data@.len() < spec_default_capacity(
                        size_of::<D>(),
                    ) {
                        assert(nothing_sent);
                        assert forall|target: int| 0 <= target < self.outputs().len() implies self.outputs()[target]
                            == flushed_outputs[target] by {
                            assert(flushed_outputs[target] + handed(handed_over, target, time)
                                =~= flushed_outputs[target]);
                        }
                        assert(self.outputs() =~= old(self).outputs());
                    }
                }
                assert(self.total() == total_before + message.data@.len());
                *allocation = Some(crate::channels::MessageAllocation { data });
                proof {
                    assert forall|hash: spec_fn(D) -> u64, target: int, at: T|
                        hashes(old(self).hash_func(), hash) && 0 <= target < old(self).peers()
                        implies reached(
                        self.outputs()[target],
                        self.current(),
                        self.waiting()[target],
                        at,
                    ) == reached(
                        old(self).outputs()[target],
                        old(self).current(),
                        old(self).waiting()[target],
                        at,
                    ) + #[trigger] arriving(message, hash, old(self).peers(), target, at) by {
                        let route = target_of(hash, old(self).peers());
                        assert(crate::partition::computes(index, route)) by {
                            assert forall|x: D, r: usize|
                                call_ensures(index, (&x,), r) implies r == route(x) by {
                                let value = choose|value: u64| #[trigger]
                                    call_ensures(hash_func, (&x,), value) && r == (value as nat
                                        % peers as nat) as usize;
                                assert(value == hash(x));
                            }
                        }
                        let sent = handed(handed_over, target, time);
                        let start = flushed_outputs[target];
                        lemma_records_at_concat(start, sent, at);
                        lemma_records_at_handed(handed_over, target as usize, time, at);
                        assert(self.outputs()[target] == start + sent);
                        let old_reached = reached(
                            old(self).outputs()[target],
                            old(self).current(),
                            old(self).waiting()[target],
                            at,
                        );
                        assert(records_at(start, at) + (if Some(time) == old(self).current() && at
                            == time {
                            flushed_waiting[target]
                        } else {
                            Seq::<D>::empty()
                        }) =~= old_reached) by {
                            if stale {
                                assert(flushed_waiting[target] =~= Seq::<D>::empty());
                                assert(old_reached + Seq::<D>::empty() =~= old_reached);
                            } else {
                                if old(self).current() is None {
                                    assert(old(self).waiting()[target] =~= Seq::<D>::empty());
                                }
                            }
                        }
                        assert(flushed_waiting[target] == buffers_before[target]@);
                        assert(self.waiting()[target] == self.buffers@[target]@);
                        if at == time {
                            let routed_here = crate::partition::routed(
                                message.data@,
                                route,
                                target as usize,
                            );
                            assert(crate::partition::received::<D, Vec<D>>(
                                handed_over,
                                self.buffers@,
                                target as usize,
                            ) == crate::partition::received::<D, Vec<D>>(
                                Seq::empty(),
                                buffers_before,
                                target as usize,
                            ) + routed_here);
                            assert(delivered::<D, Vec<D>>(Seq::empty(), target as usize)
                                =~= Seq::<D>::empty());
                            assert(records_at(start, at) + delivered::<D, Vec<D>>(
                                handed_over,
                                target as usize,
                            ) + self.buffers@[target]@ =~= records_at(start, at) + (Seq::<
                                D,
                            >::empty() + buffers_before[target]@ + routed_here));
                            if stale || old(self).current() is None {
                                assert(buffers_before[target]@ =~= Seq::<D>::empty());
                            }
                            assert(reached(
                                self.outputs()[target],
                                self.current(),
                                self.waiting()[target],
                                at,
                            ) =~= old_reached + routed_here);
                        } else {
                            assert(records_at(start + sent, at) =~= records_at(start, at));
                            assert(reached(
                                self.outputs()[target],
                                self.current(),
                                self.waiting()[target],
                                at,
                            ) =~= old_reached + Seq::<D>::empty());
                        }
                    }
                }
                proof {
                    self.seen@ = old(self).seen@.push(given);
                    assert(self.seen@.drop_last() =~= old(self).seen@);
                }
            },
            None => {
                // flush
                self.flush_all(true);
                *allocation = None;
                let ghost outputs = self.outputs();
                proof {
                    self.seen@ = old(self).seen@.push(given);
                    assert(self.seen@.drop_last() =~= old(self).seen@);
                    assert(self.outputs() == outputs);
                }
            },
        }
    }
}

} // verus!
