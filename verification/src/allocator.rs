//! Worker allocators: the endpoints of the channels between workers.
//!
//! The endpoints stand on unbounded queues. What the queues hold is shared
//! between threads and is not modelled: each endpoint keeps track of what it
//! has been handed and what it has handed out.

use vstd::prelude::*;
use crossbeam_channel::{Receiver, Sender, TryRecvError, TrySendError};
use crate::communication::{Pull, Push};
use crate::container::Container;

pub mod binary;
pub mod generic;
pub mod process;
pub mod thread;

pub use self::binary::{Binary, ProcessBinary, ProcessBinaryBuilder};
pub use self::generic::{Generic, GenericBuilder};
pub use self::process::{Meeting, Process};
pub use self::thread::Thread;

verus! {

/// The sending half of a queue of `crossbeam_channel`.
#[verifier::external_type_specification]
#[verifier::external_body]
#[verifier::reject_recursive_types(T)]
pub struct ExSender<T>(Sender<T>);

/// The receiving half of a queue of `crossbeam_channel`.
#[verifier::external_type_specification]
#[verifier::external_body]
#[verifier::reject_recursive_types(T)]
pub struct ExReceiver<T>(Receiver<T>);

/// `crossbeam_channel::unbounded`: the two halves of a new queue without a
/// bound. The halves are opaque, so nothing is claimed of them.
#[verifier::external_body]
pub(crate) fn unbounded<T>() -> (halves: (Sender<T>, Receiver<T>)) {
    crossbeam_channel::unbounded()
}

/// `Sender::try_send` of `crossbeam_channel`: puts `item` into the queue
/// without waiting, or hands it back where the queue does not take it. Which
/// of the two happens depends on the other half, so nothing is claimed.
#[verifier::external_body]
pub(crate) fn try_send<T>(sender: &Sender<T>, item: T) -> (refused: Option<T>) {
    match sender.try_send(item) {
        Ok(()) => None,
        Err(TrySendError::Full(item)) => Some(item),
        Err(TrySendError::Disconnected(item)) => Some(item),
    }
}

/// `Receiver::try_recv` of `crossbeam_channel`: takes the next item out of
/// the queue without waiting, if there is one. What comes depends on the
/// other half, so nothing is claimed.
#[verifier::external_body]
pub(crate) fn try_recv<T>(receiver: &Receiver<T>) -> (item: Option<T>) {
    match receiver.try_recv() {
        Ok(item) => Some(item),
        Err(TryRecvError::Empty) => None,
        Err(TryRecvError::Disconnected) => None,
    }
}

/// Allocate a matrix of send and receive changes to exchange items.
///
/// This method constructs channels for `sends` threads to create and send
/// items of type `T` to `recvs` receiver threads: the senders come in one
/// row for each sending thread, the receivers in one row for each receiving
/// thread.
pub fn promise_futures<T>(sends: usize, recvs: usize) -> (matrix: (Vec<Vec<Sender<T>>>, Vec<Vec<Receiver<T>>>))
    ensures
        matrix.0@.len() == sends,
        forall|sender: int| 0 <= sender < sends ==> (#[trigger] matrix.0@[sender])@.len() == recvs,
        matrix.1@.len() == recvs,
        forall|recver: int| 0 <= recver < recvs ==> (#[trigger] matrix.1@[recver])@.len() == sends,
{
    // each pair of workers has a sender and a receiver.
    let mut senders: Vec<Vec<Sender<T>>> = Vec::new();
    let mut recvers: Vec<Vec<Receiver<T>>> = Vec::new();
    let mut recver: usize = 0;
    while recver < recvs
        invariant
            recver <= recvs,
            recvers@.len() == recver,
            forall|i: int| 0 <= i < recver ==> (#[trigger] recvers@[i])@.len() == 0,
        decreases recvs - recver,
    {
        recvers.push(Vec::with_capacity(sends));
        recver += 1;
    }
    let mut sender: usize = 0;
    while sender < sends
        invariant
            sender <= sends,
            senders@.len() == sender,
            recvers@.len() == recvs,
            forall|i: int| 0 <= i < sender ==> (#[trigger] senders@[i])@.len() == recvs,
            forall|i: int| 0 <= i < recvs ==> (#[trigger] recvers@[i])@.len() == sender,
        decreases sends - sender,
    {
        let mut row: Vec<Sender<T>> = Vec::with_capacity(recvs);
        let mut recver: usize = 0;
        while recver < recvs
            invariant
                sender < sends,
                recver <= recvs,
                row@.len() == recver,
                recvers@.len() == recvs,
                forall|i: int| 0 <= i < recver ==> (#[trigger] recvers@[i])@.len() == sender + 1,
                forall|i: int| recver <= i < recvs ==> (#[trigger] recvers@[i])@.len() == sender,
            decreases recvs - recver,
        {
            let (send, recv) = unbounded();
            row.push(send);
            recvers[recver].push(recv);
            recver += 1;
        }
        senders.push(row);
        sender += 1;
    }
    (senders, recvers)
}

/// The push endpoint of a channel from this worker to one worker.
#[verifier::reject_recursive_types(T)]
pub struct Pusher<T: Container> {
    target: Sender<T>,
    shells: Receiver<T::Allocation>,
    sent: Ghost<Seq<Option<T>>>,
}

impl<T: Container> Pusher<T> {
    /// An endpoint that has been handed nothing: it puts elements into
    /// `target` and takes allocations that came back out of `shells`.
    pub fn new(target: Sender<T>, shells: Receiver<T::Allocation>) -> (pusher: Self)
        ensures
            pusher.inv(),
            pusher.pushed() == Seq::<Option<T>>::empty(),
    {
        Pusher { target, shells, sent: Ghost(Seq::empty()) }
    }
}

impl<T: Container> Push<T> for Pusher<T> {
    open spec fn inv(&self) -> bool {
        true
    }

    closed spec fn pushed(&self) -> Seq<Option<T>> {
        self.sent@
    }

    /// The element is the next that the endpoint has been handed; where it
    /// goes from there is the queue's.
    open spec fn pushes(before: &Self, element: Option<T>, after: &Self) -> bool {
        after.pushed() == before.pushed().push(element)
    }

    /// Puts an element into the queue to the target worker; a flush puts
    /// nothing. Where the caller's slot is empty it is filled with an
    /// allocation that has come back, if there is one.
    fn push(&mut self, element: Option<T>, allocation: &mut Option<T::Allocation>)
        ensures
            *old(allocation) is Some ==> *final(allocation) == *old(allocation),
    {
        proof {
            self.sent@ = self.sent@.push(element);
        }
        match element {
            Some(element) => {
                let _ = try_send(&self.target, element);
            },
            None => {},
        }
        if allocation.is_none() {
            *allocation = try_recv(&self.shells);
        }
    }
}

/// What a worker hands to a worker it will push to: the receiving half of
/// a new queue of elements, and the sending half of the queue on which the
/// allocations of the elements go back.
#[verifier::reject_recursive_types(T)]
pub struct Link<T: Container> {
    data: Receiver<T>,
    shells: Sender<T::Allocation>,
}

impl<T: Container> Link<T> {
    /// The two halves that the link is made of.
    pub closed spec fn ends(&self) -> (Receiver<T>, Sender<T::Allocation>) {
        (self.data, self.shells)
    }

    /// A link of the two halves.
    pub fn new(data: Receiver<T>, shells: Sender<T::Allocation>) -> (link: Self)
        ensures
            link.ends() == (data, shells),
    {
        Link { data, shells }
    }
}

/// The way from one source worker into a puller.
///
/// The links of a source arrive on one queue, in the order in which the
/// source makes its channels. The pullers of a worker take their links from
/// it one after the other: a puller waits for the queue to come from the
/// puller before it, takes its own link, and passes the queue on.
#[verifier::reject_recursive_types(T)]
pub struct Inlet<T: Container> {
    link: Option<Link<T>>,
    supply: Option<Receiver<Link<T>>>,
    turn: Option<Receiver<Receiver<Link<T>>>>,
    next: Option<Sender<Receiver<Link<T>>>>,
}

impl<T: Container> Inlet<T> {
    /// Whether the inlet has its link.
    pub closed spec fn is_open(&self) -> bool {
        self.link is Some
    }

    /// An inlet that has its link.
    pub fn open(link: Link<T>) -> (inlet: Self)
        ensures
            inlet.is_open(),
    {
        Inlet { link: Some(link), supply: None, turn: None, next: None }
    }

    /// An inlet that waits for the queue of links to come on `turn` and
    /// passes it on to `next` when it has taken its own link.
    pub fn waiting(turn: Receiver<Receiver<Link<T>>>, next: Sender<Receiver<Link<T>>>) -> (inlet:
        Self)
        ensures
            !inlet.is_open(),
    {
        Inlet { link: None, supply: None, turn: Some(turn), next: Some(next) }
    }

    /// Takes the link if it has arrived, and passes the queue of links on.
    /// An inlet that has its link stays as it is.
    pub fn connect(&mut self)
        ensures
            old(self).is_open() ==> *final(self) == *old(self),
    {
        if self.link.is_none() {
            if self.supply.is_none() {
                self.supply = match &self.turn {
                    Some(turn) => try_recv(turn),
                    None => None,
                };
            }
            let arrived: Option<Link<T>> = match &self.supply {
                Some(supply) => try_recv(supply),
                None => None,
            };
            if arrived.is_some() {
                self.link = arrived;
                match (self.supply.take(), &self.next) {
                    (Some(supply), Some(next)) => {
                        let _ = try_send(next, supply);
                    },
                    _ => {},
                }
            }
        }
    }

    /// Takes the next element of the source, if the inlet has its link and
    /// an element waits.
    pub fn poll(&self) -> (element: Option<T>)
        ensures
            !self.is_open() ==> element is None,
    {
        match &self.link {
            Some(link) => try_recv(&link.data),
            None => None,
        }
    }

    /// Sends an allocation back to the source, if the inlet has its link.
    pub fn give_back(&self, shell: T::Allocation) {
        match &self.link {
            Some(link) => {
                let _ = try_send(&link.shells, shell);
            },
            None => {},
        }
    }
}

/// The source that a puller asks as number `tried` of a round, where the
/// last element came from source `last` of `count`: the round starts behind
/// that source and goes through all sources once.
pub open spec fn spec_turn(last: usize, count: usize, tried: usize) -> usize {
    let start = if last < count {
        last
    } else {
        0
    };
    let behind = count - 1 - start;
    if tried < behind {
        (start + 1 + tried) as usize
    } else {
        (tried - behind) as usize
    }
}

/// The source that a puller asks as number `tried` of a round.
pub fn turn_of(last: usize, count: usize, tried: usize) -> (source: usize)
    requires
        tried < count,
    ensures
        source == spec_turn(last, count, tried),
        source < count,
{
    let start: usize = if last < count {
        last
    } else {
        0
    };
    let behind: usize = count - 1 - start;
    if tried < behind {
        start + 1 + tried
    } else {
        tried - behind
    }
}

/// The first `asked` sources of a round.
pub open spec fn round(last: usize, count: usize, asked: nat) -> Seq<usize> {
    Seq::new(asked, |i: int| spec_turn(last, count, i as usize))
}

/// The pull endpoint of a channel from all workers to this worker.
#[verifier::reject_recursive_types(T)]
pub struct Puller<T: Container> {
    inlets: Vec<Inlet<T>>,
    slot: Option<T::Allocation>,
    /// The source that the last element came from.
    last: usize,
    received: Ghost<Seq<Option<T>>>,
    asked: Ghost<Seq<usize>>,
}

impl<T: Container> Puller<T> {
    /// The number of sources.
    pub closed spec fn sources(&self) -> nat {
        self.inlets@.len()
    }

    /// The source that the last element came from.
    pub closed spec fn last(&self) -> usize {
        self.last
    }

    /// Every source that was asked for an element, oldest first.
    pub closed spec fn asked(&self) -> Seq<usize> {
        self.asked@
    }

    /// An endpoint that has handed out nothing: it takes elements out of
    /// `sources`, one queue for each source worker, and sends the allocation
    /// of an element back into the queue of `shells` at the same position.
    pub fn new(sources: Vec<Receiver<T>>, shells: Vec<Sender<T::Allocation>>) -> (puller: Self)
        requires
            sources@.len() == shells@.len(),
        ensures
            puller.inv(),
            puller.sources() == sources@.len(),
            puller.pulled() == Seq::<Option<T>>::empty(),
            puller.asked() == Seq::<usize>::empty(),
    {
        let ghost width = sources@.len();
        let mut sources = sources;
        let mut shells = shells;
        let mut backwards: Vec<Inlet<T>> = Vec::new();
        while sources.len() > 0
            invariant
                sources@.len() == shells@.len(),
                backwards@.len() + sources@.len() == width,
            decreases sources@.len(),
        {
            match (sources.pop(), shells.pop()) {
                (Some(data), Some(back)) => {
                    backwards.push(Inlet::open(Link::new(data, back)));
                },
                _ => {},
            }
        }
        Puller::from_inlets(reversed(backwards))
    }

    /// An endpoint that has handed out nothing and takes its elements
    /// through `inlets`, one for each source worker.
    pub fn from_inlets(inlets: Vec<Inlet<T>>) -> (puller: Self)
        ensures
            puller.inv(),
            puller.sources() == inlets@.len(),
            puller.pulled() == Seq::<Option<T>>::empty(),
            puller.asked() == Seq::<usize>::empty(),
    {
        Puller {
            inlets,
            slot: None,
            last: 0,
            received: Ghost(Seq::empty()),
            asked: Ghost(Seq::empty()),
        }
    }
}

impl<T: Container> Pull<T> for Puller<T> {
    open spec fn inv(&self) -> bool {
        true
    }

    closed spec fn pulled(&self) -> Seq<Option<T>> {
        self.received@
    }

    /// Sends the allocation that the caller left in the slot back to the
    /// source of the last element, and takes the next element from the
    /// sources. The sources are asked in a round that starts behind the
    /// source of the last element and ends with the first source that has
    /// an element, or when every source was asked once. The slot that is
    /// handed out is empty.
    fn pull(&mut self) -> (pulled: (Option<T>, &mut Option<T::Allocation>))
        ensures
            *pulled.1 == None::<T::Allocation>,
            final(self).sources() == old(self).sources(),
            final(self).asked().len() <= old(self).asked().len() + old(self).sources(),
            final(self).asked() == old(self).asked() + round(
                old(self).last(),
                old(self).sources() as usize,
                (final(self).asked().len() - old(self).asked().len()) as nat,
            ),
            match pulled.0 {
                Some(_) => final(self).asked().len() > old(self).asked().len() && final(self).last() == final(self).asked().last(),
                None => final(self).asked().len() == old(self).asked().len() + old(self).sources() && final(self).last() == old(self).last(),
            },
    {
        let count: usize = self.inlets.len();
        match self.slot.take() {
            Some(shell) => {
                if self.last < count {
                    self.inlets[self.last].give_back(shell);
                }
            },
            None => {},
        }
        let mut found: Option<T> = None;
        let mut tried: usize = 0;
        proof {
            assert(self.asked@ + round(self.last, count, 0) =~= self.asked@);
        }
        while tried < count && found.is_none()
            invariant
                tried <= count,
                count == self.inlets@.len(),
                count == old(self).inlets@.len(),
                self.slot is None,
                self.received@ == old(self).received@,
                self.asked@ == old(self).asked@ + round(old(self).last, count, tried as nat),
                found is None ==> self.last == old(self).last,
                found is Some ==> tried > 0 && self.last == self.asked@.last(),
            decreases count - tried,
        {
            let source: usize = turn_of(self.last, count, tried);
            self.inlets[source].connect();
            found = self.inlets[source].poll();
            if found.is_some() {
                self.last = source;
            }
            proof {
                let earlier = self.asked@;
                self.asked@ = earlier.push(source);
                assert(self.asked@ =~= old(self).asked@ + round(
                    old(self).last,
                    count,
                    (tried + 1) as nat,
                ));
            }
            tried += 1;
        }
        proof {
            self.received@ = self.received@.push(found);
        }
        (found, &mut self.slot)
    }
}

/// The endpoints of one channel that belong to one worker: a pusher to
/// every worker, and the puller.
#[verifier::reject_recursive_types(T)]
pub struct Endpoints<T: Container> {
    /// The pushers, by target worker.
    pub pushers: Vec<Pusher<T>>,
    /// The puller.
    pub puller: Puller<T>,
}

impl<T: Container> Endpoints<T> {
    /// The endpoints are those of a channel between `peers` workers that
    /// nothing has passed yet.
    pub open spec fn fresh(&self, peers: nat) -> bool {
        &&& self.pushers@.len() == peers
        &&& forall|target: int|
            0 <= target < peers ==> (#[trigger] self.pushers@[target]).pushed() == Seq::<
                Option<T>,
            >::empty()
        &&& self.puller.inv()
        &&& self.puller.sources() == peers
        &&& self.puller.pulled() == Seq::<Option<T>>::empty()
        &&& self.puller.asked() == Seq::<usize>::empty()
    }
}

/// The items of `items` from the last to the first.
pub(crate) fn reversed<X>(items: Vec<X>) -> (turned: Vec<X>)
    ensures
        turned@ == items@.reverse(),
{
    let ghost given = items@;
    let mut items = items;
    let mut turned: Vec<X> = Vec::new();
    while items.len() > 0
        invariant
            turned@.len() + items@.len() == given.len(),
            forall|i: int| 0 <= i < items@.len() ==> items@[i] == given[i],
            forall|i: int| 0 <= i < turned@.len() ==> turned@[i] == given[given.len() - 1 - i],
        decreases items@.len(),
    {
        match items.pop() {
            Some(item) => {
                turned.push(item);
            },
            None => {},
        }
    }
    assert(turned@ =~= given.reverse());
    turned
}

/// Makes the pushers of one worker from its row of senders and the row of
/// receivers on which allocations come back.
fn pair_up<T: Container>(row: Vec<Sender<T>>, shells: Vec<Receiver<T::Allocation>>) -> (pushers: Vec<Pusher<T>>)
    requires
        row@.len() == shells@.len(),
    ensures
        pushers@.len() == row@.len(),
        forall|target: int|
            0 <= target < pushers@.len() ==> (#[trigger] pushers@[target]).pushed() == Seq::<
                Option<T>,
            >::empty(),
{
    let ghost width = row@.len();
    let mut row = row;
    let mut shells = shells;
    let mut backwards: Vec<Pusher<T>> = Vec::new();
    while row.len() > 0
        invariant
            row@.len() == shells@.len(),
            backwards@.len() + row@.len() == width,
            forall|target: int|
                0 <= target < backwards@.len() ==> (#[trigger] backwards@[target]).pushed()
                    == Seq::<Option<T>>::empty(),
        decreases row@.len(),
    {
        match (row.pop(), shells.pop()) {
            (Some(target), Some(shell)) => {
                backwards.push(Pusher::new(target, shell));
            },
            _ => {},
        }
    }
    reversed(backwards)
}

/// Makes the endpoints of one channel between `peers` workers, for each
/// worker its own: a queue for every pair of workers, and one more for the
/// allocations that go back.
pub fn wire<T: Container>(peers: usize) -> (endpoints: Vec<Endpoints<T>>)
    ensures
        endpoints@.len() == peers,
        forall|worker: int| 0 <= worker < peers ==> (#[trigger] endpoints@[worker]).fresh(peers as nat),
{
    let (mut senders, mut recvers) = promise_futures::<T>(peers, peers);
    let (mut shell_senders, mut shell_recvers) = promise_futures::<T::Allocation>(peers, peers);
    let mut backwards: Vec<Endpoints<T>> = Vec::new();
    while senders.len() > 0
        invariant
            senders@.len() == recvers@.len(),
            senders@.len() == shell_senders@.len(),
            senders@.len() == shell_recvers@.len(),
            backwards@.len() + senders@.len() == peers,
            forall|i: int| 0 <= i < senders@.len() ==> (#[trigger] senders@[i])@.len() == peers,
            forall|i: int| 0 <= i < recvers@.len() ==> (#[trigger] recvers@[i])@.len() == peers,
            forall|i: int|
                0 <= i < shell_senders@.len() ==> (#[trigger] shell_senders@[i])@.len() == peers,
            forall|i: int|
                0 <= i < shell_recvers@.len() ==> (#[trigger] shell_recvers@[i])@.len() == peers,
            forall|worker: int|
                0 <= worker < backwards@.len() ==> (#[trigger] backwards@[worker]).fresh(
                    peers as nat,
                ),
        decreases senders@.len(),
    {
        match (senders.pop(), shell_recvers.pop(), recvers.pop(), shell_senders.pop()) {
            (Some(row), Some(returning), Some(sources), Some(shells)) => {
                let pushers = pair_up::<T>(row, returning);
                let puller = Puller::new(sources, shells);
                backwards.push(Endpoints { pushers, puller });
            },
            _ => {},
        }
    }
    let endpoints = reversed(backwards);
    endpoints
}

} // verus!
