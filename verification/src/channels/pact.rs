//! Parallelization contracts, describing requirements for data movement
//! along dataflow edges.
//!
//! The only requirement of a pact is that it not alter the number of records
//! at each time.

use vstd::prelude::*;
use crate::allocator::{Generic, Puller, Pusher};
use crate::channels::pushers::exchange::{total_records, Exchange as ExchangePusher};
use crate::channels::Message;
use crate::communication::{Pull, Push};
use crate::container::Container;
use crate::logging::{buffer_limit, flushed_at, logged, LogContainer, Logger, MessagesEvent};
use crate::progress::Timestamp;

verus! {

/// The element as a logging pusher hands it on: a message with its sequence
/// number and source stamped, a flush as it is.
pub open spec fn stamp<T, D>(element: Option<Message<T, D>>, seq: usize, from: usize) -> Option<
    Message<T, D>,
> {
    match element {
        Some(message) => Some(Message { seq, from, ..message }),
        None => None,
    }
}

/// The number of messages in `history`, flushes not counted.
pub open spec fn bundles<T, D>(history: Seq<Option<Message<T, D>>>) -> nat
    decreases history.len(),
{
    if history.len() == 0 {
        0
    } else {
        bundles(history.drop_last()) + if history.last() is Some {
            1nat
        } else {
            0nat
        }
    }
}

/// The sequence number of the message that follows `count` others: the
/// count itself, as far as the machine's word holds it.
pub open spec fn sequence_number(count: nat) -> usize {
    (count % (usize::MAX as nat + 1)) as usize
}

/// What a logging pusher of worker `from` hands on for `history`: each
/// message stamped with the number of messages before it, and with `from`.
pub open spec fn stamped<T, D>(history: Seq<Option<Message<T, D>>>, from: usize) -> Seq<
    Option<Message<T, D>>,
>
    decreases history.len(),
{
    if history.len() == 0 {
        Seq::empty()
    } else {
        stamped(history.drop_last(), from).push(
            stamp(history.last(), sequence_number(bundles(history.drop_last())), from),
        )
    }
}

/// The event that a logging pusher logs for `message`.
pub open spec fn send_event<T, D: Container>(
    message: Message<T, D>,
    channel: usize,
    source: usize,
    target: usize,
    seq_no: usize,
) -> MessagesEvent {
    MessagesEvent {
        is_send: true,
        channel,
        source,
        target,
        seq_no,
        length: message.data.spec_len() as usize,
    }
}

/// The event that a logging puller of worker `target` logs for `message`.
pub open spec fn receive_event<T, D: Container>(
    message: Message<T, D>,
    channel: usize,
    target: usize,
) -> MessagesEvent {
    MessagesEvent {
        is_send: false,
        channel,
        source: message.from,
        target,
        seq_no: message.seq,
        length: message.data.spec_len() as usize,
    }
}

/// Whether `after` is `before` with `event` logged, at whatever time.
pub open spec fn logged_one<A: Fn(&u128, &mut LogContainer<MessagesEvent, usize>)>(
    before: Logger<MessagesEvent, usize, A>,
    after: Logger<MessagesEvent, usize, A>,
    event: MessagesEvent,
) -> bool {
    exists|elapsed: u128|
        after.state() == logged(
            before.state(),
            buffer_limit::<MessagesEvent>(),
            elapsed,
            seq![event],
        )
}

/// Whether `after` is `before` with its buffer flushed, at whatever time.
pub open spec fn flushed_log<A: Fn(&u128, &mut LogContainer<MessagesEvent, usize>)>(
    before: Option<Logger<MessagesEvent, usize, A>>,
    after: Option<Logger<MessagesEvent, usize, A>>,
) -> bool {
    match (before, after) {
        (Some(before), Some(after)) => exists|elapsed: u128|
            after.state() == flushed_at(before.state(), elapsed),
        (None, None) => true,
        _ => false,
    }
}

/// Wraps a pusher of messages: stamps each message with its sequence number
/// and source, and logs its passing.
pub struct LogPusher<T, D, P, A> {
    pusher: P,
    channel: usize,
    counter: usize,
    source: usize,
    target: usize,
    logging: Option<Logger<MessagesEvent, usize, A>>,
    seen: Ghost<Seq<Option<Message<T, D>>>>,
    start: Ghost<Seq<Option<Message<T, D>>>>,
}

impl<T, D: Container, P: Push<Message<T, D>>, A: Fn(&u128, &mut LogContainer<MessagesEvent, usize>)> LogPusher<T, D, P, A> {
    /// The wrapped pusher.
    pub closed spec fn pusher(&self) -> P {
        self.pusher
    }

    /// What the wrapped pusher has been handed so far.
    pub open spec fn delivered(&self) -> Seq<Option<Message<T, D>>> {
        self.pusher().pushed()
    }

    /// What the wrapped pusher had been handed when it was wrapped.
    pub closed spec fn start(&self) -> Seq<Option<Message<T, D>>> {
        self.start@
    }

    /// The sequence number of the next message.
    pub closed spec fn counter(&self) -> usize {
        self.counter
    }

    /// The channel, the source worker and the target worker.
    pub closed spec fn route(&self) -> (usize, usize, usize) {
        (self.channel, self.source, self.target)
    }

    /// The logger that the passing of messages is logged to.
    pub closed spec fn logger(&self) -> Option<Logger<MessagesEvent, usize, A>> {
        self.logging
    }

    /// What the wrapped pusher has been handed is what it had at the start,
    /// then every element pushed, in order, each message stamped with the
    /// number of messages before it and with the source worker.
    pub proof fn lemma_delivered(&self)
        requires
            self.inv(),
        ensures
            self.delivered() == self.start() + stamped(self.pushed(), self.route().1),
            self.counter() == sequence_number(bundles(self.pushed())),
    {
    }

    /// Flushes the logger, where there is one. Nothing else changes.
    pub fn flush_log(&mut self)
        requires
            old(self).inv(),
        ensures
            final(self).inv(),
            final(self).pushed() == old(self).pushed(),
            final(self).delivered() == old(self).delivered(),
            final(self).start() == old(self).start(),
            final(self).counter() == old(self).counter(),
            final(self).route() == old(self).route(),
            flushed_log(old(self).logger(), final(self).logger()),
    {
        match &mut self.logging {
            Some(logger) => {
                let ghost before = logger.state();
                logger.flush();
                proof {
                    let elapsed = choose|elapsed: u128|
                        logger.state() == flushed_at(before, elapsed);
                    assert(logger.state() == flushed_at(before, elapsed));
                }
            },
            None => {},
        }
    }

    /// Allocates a new pusher.
    pub fn new(
        pusher: P,
        source: usize,
        target: usize,
        channel: usize,
        logging: Option<Logger<MessagesEvent, usize, A>>,
    ) -> (wrapped: Self)
        requires
            pusher.inv(),
            logging matches Some(logger) ==> logger.inv(),
        ensures
            wrapped.inv(),
            wrapped.pushed() == Seq::<Option<Message<T, D>>>::empty(),
            wrapped.delivered() == pusher.pushed(),
            wrapped.start() == pusher.pushed(),
            wrapped.counter() == 0,
            wrapped.route() == (channel, source, target),
            wrapped.logger() == logging,
    {
        let ghost start = pusher.pushed();
        let wrapped = LogPusher {
            pusher,
            channel,
            counter: 0,
            source,
            target,
            logging,
            seen: Ghost(Seq::empty()),
            start: Ghost(start),
        };
        assert(wrapped.pusher.pushed() =~= start + stamped(wrapped.seen@, source));
        assert(bundles(wrapped.seen@) == 0);
        assert(sequence_number(0) == 0);
        wrapped
    }
}

impl<T, D: Container, P: Push<Message<T, D>>, A: Fn(&u128, &mut LogContainer<MessagesEvent, usize>)> Push<Message<T, D>> for LogPusher<T, D, P, A> {
    /// The wrapped pusher has been handed every element in its order, each
    /// message stamped with the number of messages before it.
    closed spec fn inv(&self) -> bool {
        &&& self.pusher.inv()
        &&& self.logging matches Some(logger) ==> logger.inv()
        &&& self.counter == sequence_number(bundles(self.seen@))
        &&& self.pusher.pushed() == self.start@ + stamped(self.seen@, self.source)
    }

    closed spec fn pushed(&self) -> Seq<Option<Message<T, D>>> {
        self.seen@
    }

    /// The element is stamped with the counter and the source and pushed on
    /// to the wrapped pusher; a message moves the counter on by one.
    open spec fn pushes(before: &Self, pair: Option<Message<T, D>>, after: &Self) -> bool {
        &&& after.route() == before.route()
        &&& after.start() == before.start()
        &&& after.counter() == if pair is Some {
            sequence_number(before.counter() as nat + 1)
        } else {
            before.counter()
        }
        &&& after.logger() is Some == before.logger() is Some
        &&& P::pushes(
            &before.pusher(),
            stamp(pair, before.counter(), before.route().1),
            &after.pusher(),
        )
    }

    /// Hands the element on. A message gets the sequence number
    /// `counter`, which then goes up by one, and the source worker; its
    /// passing is logged where there is a logger.
    fn push(&mut self, pair: Option<Message<T, D>>, allocation: &mut Option<<Message<T, D> as Container>::Allocation>)
        ensures
            final(self).delivered() == old(self).delivered().push(
                stamp(pair, old(self).counter(), old(self).route().1),
            ),
            final(self).start() == old(self).start(),
            final(self).route() == old(self).route(),
            final(self).counter() == if pair is Some {
                sequence_number(old(self).counter() as nat + 1)
            } else {
                old(self).counter()
            },
            final(self).logger() is Some == old(self).logger() is Some,
            match (pair, old(self).logger()) {
                (Some(message), Some(logger)) => logged_one(
                    logger,
                    final(self).logger().unwrap(),
                    send_event(
                        message,
                        old(self).route().0,
                        old(self).route().1,
                        old(self).route().2,
                        old(self).counter(),
                    ),
                ),
                _ => final(self).logger() == old(self).logger(),
            },
    {
        proof {
            let earlier = self.seen@;
            self.seen@ = earlier.push(pair);
            assert(self.seen@.drop_last() =~= earlier);
        }
        match pair {
            Some(bundle) => {
                let seq_no: usize = self.counter;
                self.counter = if seq_no == usize::MAX {
                    0
                } else {
                    seq_no + 1
                };
                let length: usize = bundle.data.len();
                let stamped_bundle = Message {
                    time: bundle.time,
                    data: bundle.data,
                    from: self.source,
                    seq: seq_no,
                };
                match &mut self.logging {
                    Some(logger) => {
                        logger.log(
                            MessagesEvent {
                                is_send: true,
                                channel: self.channel,
                                source: self.source,
                                target: self.target,
                                seq_no,
                                length,
                            },
                        );
                    },
                    None => {},
                }
                let ghost before = self.pusher.pushed();
                self.pusher.push(Some(stamped_bundle), allocation);
                proof {
                    lemma_next_number(bundles(old(self).seen@));
                    assert(self.pusher.pushed() =~= self.start@ + stamped(self.seen@, self.source));
                }
            },
            None => {
                self.pusher.push(None, allocation);
                proof {
                    assert(self.pusher.pushed() =~= self.start@ + stamped(self.seen@, self.source));
                }
            },
        }
    }
}

/// The sequence number after that of `count` is the number of `count + 1`.
pub proof fn lemma_next_number(count: nat)
    ensures
        sequence_number(sequence_number(count) as nat + 1) == sequence_number(count + 1),
        sequence_number(count + 1) == if sequence_number(count) == usize::MAX {
            0usize
        } else {
            (sequence_number(count) + 1) as usize
        },
{
    let modulus = usize::MAX as nat + 1;
    assert(sequence_number(sequence_number(count) as nat + 1) == sequence_number(count + 1)
        && sequence_number(count + 1) == if sequence_number(count) == usize::MAX {
        0usize
    } else {
        (sequence_number(count) + 1) as usize
    }) by (nonlinear_arith)
        requires
            modulus == usize::MAX as nat + 1,
            modulus > 0,
            forall|c: nat| #[trigger] sequence_number(c) == (c % modulus) as usize,
    ;
}

} // verus!

verus! {

/// The messages of `history` in their order, flushes left out.
pub open spec fn only_bundles<T, D>(history: Seq<Option<Message<T, D>>>) -> Seq<Message<T, D>>
    decreases history.len(),
{
    if history.len() == 0 {
        Seq::empty()
    } else {
        let rest = only_bundles(history.drop_last());
        match history.last() {
            Some(message) => rest.push(message),
            None => rest,
        }
    }
}

/// Per-source order: the messages that a logging pusher hands on carry the
/// sequence numbers 0, 1, 2, .. in the order they were pushed, without a
/// gap, and all name the pusher's worker as their source. Time, data and
/// count of the messages are those that were pushed.
pub proof fn lemma_sequence_numbers<T, D>(history: Seq<Option<Message<T, D>>>, from: usize)
    ensures
        stamped(history, from).len() == history.len(),
        only_bundles(stamped(history, from)).len() == only_bundles(history).len(),
        only_bundles(history).len() == bundles(history),
        forall|k: int|
            0 <= k < only_bundles(history).len() ==> {
                let handed = #[trigger] only_bundles(stamped(history, from))[k];
                &&& handed.seq == sequence_number(k as nat)
                &&& handed.from == from
                &&& handed.time == only_bundles(history)[k].time
                &&& handed.data == only_bundles(history)[k].data
            },
    decreases history.len(),
{
    if history.len() > 0 {
        let shorter = history.drop_last();
        lemma_sequence_numbers(shorter, from);
        assert(stamped(history, from).drop_last() =~= stamped(shorter, from));
    }
}

/// Wraps a puller of messages and logs the passing of each message.
pub struct LogPuller<T, D, P, A> {
    puller: P,
    channel: usize,
    index: usize,
    logging: Option<Logger<MessagesEvent, usize, A>>,
    phantom: core::marker::PhantomData<(T, D)>,
}

impl<T, D: Container, P: Pull<Message<T, D>>, A: Fn(&u128, &mut LogContainer<MessagesEvent, usize>)> LogPuller<T, D, P, A> {
    /// The channel and the worker that pulls.
    pub closed spec fn route(&self) -> (usize, usize) {
        (self.channel, self.index)
    }

    /// The logger that the passing of messages is logged to.
    pub closed spec fn logger(&self) -> Option<Logger<MessagesEvent, usize, A>> {
        self.logging
    }

    /// Flushes the logger, where there is one. Nothing else changes.
    pub fn flush_log(&mut self)
        requires
            old(self).inv(),
        ensures
            final(self).inv(),
            final(self).pulled() == old(self).pulled(),
            final(self).route() == old(self).route(),
            flushed_log(old(self).logger(), final(self).logger()),
    {
        match &mut self.logging {
            Some(logger) => {
                let ghost before = logger.state();
                logger.flush();
                proof {
                    let elapsed = choose|elapsed: u128|
                        logger.state() == flushed_at(before, elapsed);
                    assert(logger.state() == flushed_at(before, elapsed));
                }
            },
            None => {},
        }
    }

    /// Allocates a new `Puller`.
    pub fn new(
        puller: P,
        index: usize,
        channel: usize,
        logging: Option<Logger<MessagesEvent, usize, A>>,
    ) -> (wrapped: Self)
        requires
            puller.inv(),
            logging matches Some(logger) ==> logger.inv(),
        ensures
            wrapped.inv(),
            wrapped.pulled() == puller.pulled(),
            wrapped.route() == (channel, index),
            wrapped.logger() == logging,
    {
        LogPuller { puller, channel, index, logging, phantom: core::marker::PhantomData }
    }
}

impl<T, D: Container, P: Pull<Message<T, D>>, A: Fn(&u128, &mut LogContainer<MessagesEvent, usize>)> Pull<Message<T, D>> for LogPuller<T, D, P, A> {
    closed spec fn inv(&self) -> bool {
        &&& self.puller.inv()
        &&& self.logging matches Some(logger) ==> logger.inv()
    }

    closed spec fn pulled(&self) -> Seq<Option<Message<T, D>>> {
        self.puller.pulled()
    }

    /// Asks the wrapped puller once and hands out what it answers, as it
    /// is; the passing of a message is logged where there is a logger.
    fn pull(&mut self) -> (pulled: (Option<Message<T, D>>, &mut Option<<Message<T, D> as Container>::Allocation>))
        ensures
            final(self).route() == old(self).route(),
            final(self).logger() is Some == old(self).logger() is Some,
            match (pulled.0, old(self).logger()) {
                (Some(message), Some(logger)) => logged_one(
                    logger,
                    final(self).logger().unwrap(),
                    receive_event(message, old(self).route().0, old(self).route().1),
                ),
                _ => final(self).logger() == old(self).logger(),
            },
    {
        let (element, allocation) = self.puller.pull();
        match &element {
            Some(bundle) => {
                match &mut self.logging {
                    Some(logger) => {
                        logger.log(
                            MessagesEvent {
                                is_send: false,
                                channel: self.channel,
                                source: bundle.from,
                                target: self.index,
                                seq_no: bundle.seq,
                                length: bundle.data.len(),
                            },
                        );
                    },
                    None => {},
                }
            },
            None => {},
        }
        (element, allocation)
    }
}

} // verus!

verus! {

/// Whether every logger of `loggers` is ready to log.
pub open spec fn all_ready<A: Fn(&u128, &mut LogContainer<MessagesEvent, usize>)>(
    loggers: Seq<Logger<MessagesEvent, usize, A>>,
) -> bool {
    forall|i: int| 0 <= i < loggers.len() ==> (#[trigger] loggers[i]).inv()
}

/// The logger that the endpoint number `turn` of a pact takes from
/// `loggers`: the endpoints take from the end, one after the other, while
/// there is a logger.
pub open spec fn taken<L>(loggers: Seq<L>, turn: int) -> Option<L> {
    if 0 <= turn < loggers.len() {
        Some(loggers[loggers.len() - 1 - turn])
    } else {
        None
    }
}

/// The loggers that are left of `loggers` when `used` endpoints have taken
/// theirs.
pub open spec fn left<L>(loggers: Seq<L>, used: int) -> Seq<L> {
    if used >= loggers.len() {
        Seq::empty()
    } else {
        loggers.subrange(0, loggers.len() - used)
    }
}

/// A `ParallelizationContractCore` allocates paired `Push` and `Pull`
/// implementors.
pub trait ParallelizationContractCore<T, D: Container, A: Fn(&u128, &mut LogContainer<MessagesEvent, usize>)>: Sized {
    /// Type implementing `Push` produced by this pact.
    type Pusher: Push<Message<T, D>>;

    /// Type implementing `Pull` produced by this pact.
    type Puller: Pull<Message<T, D>>;

    /// Allocates a matched pair of push and pull endpoints implementing the
    /// pact, which nothing has passed yet. Each endpoint that the
    /// allocator hands out takes a logger from the end of `logging` while
    /// there is one.
    fn connect(
        self,
        allocator: &mut Generic<Message<T, D>>,
        identifier: usize,
        address: &[usize],
        logging: &mut Vec<Logger<MessagesEvent, usize, A>>,
    ) -> (ends: (Self::Pusher, Self::Puller))
        requires
            old(allocator).inv(),
            all_ready(old(logging)@),
            self.ready(),
        ensures
            final(allocator).inv(),
            final(allocator).spec_index() == old(allocator).spec_index(),
            final(allocator).spec_peers() == old(allocator).spec_peers(),
            all_ready(final(logging)@),
            final(logging)@.len() <= old(logging)@.len(),
            ends.0.inv(),
            ends.0.pushed() == Seq::<Option<Message<T, D>>>::empty(),
            ends.1.inv(),
            ends.1.pulled() == Seq::<Option<Message<T, D>>>::empty(),
    ;

    /// What the pact needs to hold to be connected.
    spec fn ready(&self) -> bool;
}

/// A `ParallelizationContractCore` specialized for `Vec` containers.
pub trait ParallelizationContract<T, D: Clone, A: Fn(&u128, &mut LogContainer<MessagesEvent, usize>)>: ParallelizationContractCore<T, Vec<D>, A> {

}

/// A direct connection
#[derive(Debug)]
pub struct Pipeline;

impl<T, D: Container, A: Fn(&u128, &mut LogContainer<MessagesEvent, usize>)> ParallelizationContractCore<T, D, A> for Pipeline {
    type Pusher = LogPusher<T, D, Pusher<Message<T, D>>, A>;

    type Puller = LogPuller<T, D, Puller<Message<T, D>>, A>;

    open spec fn ready(&self) -> bool {
        true
    }

    /// Allocates the two ends of a channel within the worker. The pusher
    /// names the worker as source and as target, and counts from 0. The
    /// pusher takes the last logger, the puller the one before it.
    fn connect(
        self,
        allocator: &mut Generic<Message<T, D>>,
        identifier: usize,
        address: &[usize],
        logging: &mut Vec<Logger<MessagesEvent, usize, A>>,
    ) -> (ends: (Self::Pusher, Self::Puller))
        ensures
            *final(allocator) == *old(allocator),
            ends.0.counter() == 0,
            ends.0.route() == (
                identifier,
                old(allocator).spec_index(),
                old(allocator).spec_index(),
            ),
            ends.0.delivered() == Seq::<Option<Message<T, D>>>::empty(),
            ends.0.logger() == taken(old(logging)@, 0),
            ends.1.route() == (identifier, old(allocator).spec_index()),
            ends.1.logger() == taken(old(logging)@, 1),
            final(logging)@ == left(old(logging)@, 2),
    {
        let (pusher, puller) = allocator.pipeline();
        let index: usize = allocator.index();
        let send_logger = logging.pop();
        let receive_logger = logging.pop();
        assert(logging@ =~= left(old(logging)@, 2));
        (
            LogPusher::new(pusher, index, index, identifier, send_logger),
            LogPuller::new(puller, index, identifier, receive_logger),
        )
    }
}

impl<T, D: Clone, A: Fn(&u128, &mut LogContainer<MessagesEvent, usize>)> ParallelizationContract<T, D, A> for Pipeline {

}

/// An exchange between multiple observers by data
pub struct Exchange<D, F> {
    hash_func: F,
    phantom: core::marker::PhantomData<D>,
}

impl<D, F: Fn(&D) -> u64> Exchange<D, F> {
    /// The distribution function.
    pub closed spec fn hash_func(&self) -> F {
        self.hash_func
    }

    /// Allocates a new `Exchange` pact from a distribution function.
    pub fn new(func: F) -> (pact: Exchange<D, F>)
        ensures
            pact.hash_func() == func,
    {
        Exchange { hash_func: func, phantom: core::marker::PhantomData }
    }
}

impl<T: Timestamp, D: Clone, F: Fn(&D) -> u64, A: Fn(&u128, &mut LogContainer<MessagesEvent, usize>)> ParallelizationContractCore<T, Vec<D>, A> for Exchange<D, F> {
    type Pusher = ExchangePusher<T, D, LogPusher<T, Vec<D>, Pusher<Message<T, Vec<D>>>, A>, F>;

    type Puller = LogPuller<T, Vec<D>, Puller<Message<T, Vec<D>>>, A>;

    /// The distribution function takes every record.
    open spec fn ready(&self) -> bool {
        forall|record: &D| call_requires(self.hash_func(), (record,))
    }

    /// Allocates the next channel between all workers and puts the pushers
    /// behind an exchange by the distribution function, one target for each
    /// worker. The pusher to each target names this worker as source and
    /// counts from 0. The pushers take their loggers first, by target, the
    /// puller takes the next.
    fn connect(
        self,
        allocator: &mut Generic<Message<T, Vec<D>>>,
        identifier: usize,
        address: &[usize],
        logging: &mut Vec<Logger<MessagesEvent, usize, A>>,
    ) -> (ends: (Self::Pusher, Self::Puller))
        ensures
            ends.0.peers() == old(allocator).spec_peers(),
            ends.0.hash_func() == self.hash_func(),
            ends.0.current() is None,
            ends.0.total() == 0,
            ends.0.outputs() == Seq::new(
                old(allocator).spec_peers() as nat,
                |i: int| Seq::<Option<Message<T, Vec<D>>>>::empty(),
            ),
            ends.0.targets().len() == old(allocator).spec_peers(),
            forall|target: int|
                0 <= target < old(allocator).spec_peers() ==> {
                    let pusher = #[trigger] ends.0.targets()[target];
                    &&& pusher.counter() == 0
                    &&& pusher.route() == (identifier, old(allocator).spec_index(), target as usize)
                    &&& pusher.logger() == taken(old(logging)@, target)
                },
            ends.1.route() == (identifier, old(allocator).spec_index()),
            ends.1.logger() == taken(old(logging)@, old(allocator).spec_peers() as int),
            final(logging)@ == left(old(logging)@, old(allocator).spec_peers() + 1),
    {
        let index: usize = allocator.index();
        let peers: usize = allocator.peers();
        let (senders, receiver, _) = allocator.allocate();
        let mut wrapped: Vec<LogPusher<T, Vec<D>, Pusher<Message<T, Vec<D>>>, A>> = Vec::new();
        let ghost all = senders@;
        proof {
            assert(logging@ =~= left(old(logging)@, 0));
        }
        for sender in it: senders
            invariant
                it.seq() == all,
                all.len() == peers,
                forall|i: int|
                    0 <= i < all.len() ==> (#[trigger] all[i]).pushed() == Seq::<
                        Option<Message<T, Vec<D>>>,
                    >::empty(),
                all_ready(old(logging)@),
                all_ready(logging@),
                logging@ == left(old(logging)@, it.index()),
                wrapped@.len() == it.index(),
                forall|i: int|
                    0 <= i < wrapped@.len() ==> {
                        let pusher = #[trigger] wrapped@[i];
                        &&& pusher.inv()
                        &&& pusher.pushed() == Seq::<Option<Message<T, Vec<D>>>>::empty()
                        &&& pusher.counter() == 0
                        &&& pusher.route() == (identifier, index, i as usize)
                        &&& pusher.logger() == taken(old(logging)@, i)
                    },
        {
            assert(sender == all[it.index()]);
            let target: usize = wrapped.len();
            let logger = logging.pop();
            assert(logger == taken(old(logging)@, target as int));
            assert(logging@ =~= left(old(logging)@, target + 1));
            wrapped.push(LogPusher::new(sender, index, target, identifier, logger));
        }
        let logger = logging.pop();
        assert(logging@ =~= left(old(logging)@, peers + 1));
        let puller = LogPuller::new(receiver, index, identifier, logger);
        assert(<Self as ParallelizationContractCore<T, Vec<D>, A>>::ready(&self));
        assert(forall|record: &D| call_requires(self.hash_func(), (record,)));
        assert(self.hash_func() == self.hash_func);
        let key = self.hash_func;
        assert(forall|record: &D| call_requires(key, (record,)));
        let pusher = ExchangePusher::new(wrapped, key);
        proof {
            assert(pusher.outputs() =~~= Seq::new(
                old(allocator).spec_peers() as nat,
                |i: int| Seq::<Option<Message<T, Vec<D>>>>::empty(),
            ));
            lemma_no_records::<T, D>(old(allocator).spec_peers() as nat);
        }
        (pusher, puller)
    }
}

impl<T: Timestamp, D: Clone, F: Fn(&D) -> u64, A: Fn(&u128, &mut LogContainer<MessagesEvent, usize>)> ParallelizationContract<T, D, A> for Exchange<D, F> {

}

/// Histories that hold nothing hold no records.
pub proof fn lemma_no_records<T, D>(count: nat)
    ensures
        total_records(Seq::new(count, |i: int| Seq::<Option<Message<T, Vec<D>>>>::empty())) == 0,
    decreases count,
{
    let empty = Seq::new(count, |i: int| Seq::<Option<Message<T, Vec<D>>>>::empty());
    if count > 0 {
        lemma_no_records::<T, D>((count - 1) as nat);
        assert(empty.drop_last() =~= Seq::new(
            (count - 1) as nat,
            |i: int| Seq::<Option<Message<T, Vec<D>>>>::empty(),
        ));
    }
}

} // verus!
