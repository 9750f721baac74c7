//! A handle to a typed stream of timely data.
//!
//! A stream is a handle to an operator output: it keeps the list of the
//! recipients that should be presented with the data the source produces.

use vstd::prelude::*;
use crate::channels::pushers::tee::{TeeCore, TeeHelper};
use crate::channels::pushers::PushOwned;
use crate::channels::Message;
use crate::communication::Push;
use crate::container::{Container, IntoAllocated};
use crate::logging::{buffer_limit, logged, ChannelsEvent, LogContainer, Logger};
use crate::progress::{Source, Target, Timestamp};
use crate::scope::Scope;

verus! {

/// Whether `after` is `before` with the making of a channel logged, at
/// whatever time: the channel `identifier` in the scope at `address`, from
/// `source` to `target`.
pub open spec fn logged_channel<A: Fn(&u128, &mut LogContainer<ChannelsEvent, usize>)>(
    before: Option<Logger<ChannelsEvent, usize, A>>,
    after: Option<Logger<ChannelsEvent, usize, A>>,
    identifier: usize,
    address: Seq<usize>,
    source: Source,
    target: Target,
) -> bool {
    match (before, after) {
        (Some(before), Some(after)) => after.inv() && exists|elapsed: u128, event: ChannelsEvent|
            {
                &&& #[trigger] logged(
                    before.state(),
                    buffer_limit::<ChannelsEvent>(),
                    elapsed,
                    seq![event],
                ) == after.state()
                &&& event.id == identifier
                &&& event.scope_addr@ == address
                &&& event.source == (source.node, source.port)
                &&& event.target == (target.node, target.port)
            },
        (None, None) => true,
        _ => false,
    }
}

/// Logs the making of a channel where there is a logger.
fn log_channel<A: Fn(&u128, &mut LogContainer<ChannelsEvent, usize>)>(
    logging: &mut Option<Logger<ChannelsEvent, usize, A>>,
    identifier: usize,
    address: Vec<usize>,
    source: Source,
    target: Target,
)
    requires
        *old(logging) matches Some(logger) ==> logger.inv(),
    ensures
        logged_channel(*old(logging), *final(logging), identifier, address@, source, target),
{
    match logging {
        Some(logger) => {
            let ghost before = logger.state();
            let event = ChannelsEvent {
                id: identifier,
                scope_addr: address,
                source: (source.node, source.port),
                target: (target.node, target.port),
            };
            logger.log(event);
            proof {
                let elapsed = choose|elapsed: u128|
                    logger.state() == logged(
                        before,
                        buffer_limit::<ChannelsEvent>(),
                        elapsed,
                        seq![event],
                    );
                assert(logged(before, buffer_limit::<ChannelsEvent>(), elapsed, seq![event])
                    == logger.state());
            }
        },
        None => {},
    }
}

/// Abstraction of a stream of `D: Container` records timestamped with `T`.
///
/// Internally `Stream` maintains a list of data recipients who should be
/// presented with data produced by the source of the stream.
pub struct StreamCore<T, D, P> {
    /// The progress identifier of the stream's data source.
    name: Source,
    /// Maintains a list of pushers interested in the stream's output.
    ports: TeeHelper<T, D, P>,
}

/// A stream batching data in vectors.
pub type Stream<T, D, P> = StreamCore<T, Vec<D>, P>;

impl<T, D: Container, P: Push<Message<T, D>>> StreamCore<T, D, P> {
    /// The name of the stream's source operator.
    pub closed spec fn source(&self) -> Source {
        self.name
    }

    /// The recipients that wait to be connected.
    pub closed spec fn ports(&self) -> TeeHelper<T, D, P> {
        self.ports
    }

    /// Allocates a `Stream` from a supplied `Source` name and rendezvous
    /// point.
    pub fn new(source: Source, output: TeeHelper<T, D, P>) -> (stream: Self)
        ensures
            stream.source() == source,
            stream.ports() == output,
    {
        StreamCore { name: source, ports: output }
    }

    /// The name of the stream's source operator.
    pub fn name(&self) -> (name: &Source)
        ensures
            *name == self.source(),
    {
        &self.name
    }

    /// Gives access to the recipients that wait to be connected.
    pub fn ports_mut(&mut self) -> (ports: &mut TeeHelper<T, D, P>)
        ensures
            *ports == old(self).ports(),
            final(self).ports() == *final(ports),
            final(self).source() == old(self).source(),
    {
        &mut self.ports
    }

    /// Connects the stream to a destination.
    ///
    /// The destination is described both by a `Target`, for progress
    /// tracking information, and a pusher where the records should actually
    /// be sent. The identifier is unique to the edge and is used only for
    /// logging purposes.
    pub fn connect_to<A: Fn(&u128, &mut LogContainer<ChannelsEvent, usize>)>(
        &mut self,
        scope: &mut Scope,
        target: Target,
        pusher: P,
        identifier: usize,
        logging: &mut Option<Logger<ChannelsEvent, usize, A>>,
    )
        requires
            old(self).ports().inv(),
            pusher.inv(),
            *old(logging) matches Some(logger) ==> logger.inv(),
        ensures
            final(self).source() == old(self).source(),
            final(self).ports().inv(),
            final(self).ports().outputs() == old(self).ports().outputs().push(pusher.pushed()),
            final(scope).edges() == old(scope).edges().push((old(self).source(), target)),
            final(scope).operators() == old(scope).operators(),
            final(scope).spec_addr() == old(scope).spec_addr(),
            final(scope).spec_index() == old(scope).spec_index(),
            final(scope).spec_peers() == old(scope).spec_peers(),
            logged_channel(
                *old(logging),
                *final(logging),
                identifier,
                old(scope).spec_addr(),
                old(self).source(),
                target,
            ),
    {
        log_channel(logging, identifier, scope.addr(), self.name, target);
        scope.add_edge(self.name, target);
        self.ports.add_pusher(pusher);
    }
}

/// A stream that owns a single pusher.
pub struct OwnedStream<T, D, P> {
    /// The progress identifier of the stream's data source.
    name: Source,
    /// The single pusher interested in the stream's output, if any.
    port: PushOwned<T, D, P>,
}

impl<T, D: Container, P: Push<Message<T, D>>> OwnedStream<T, D, P> {
    /// The name of the stream's source operator.
    pub closed spec fn source(&self) -> Source {
        self.name
    }

    /// The port of the stream.
    pub closed spec fn port(&self) -> PushOwned<T, D, P> {
        self.port
    }

    /// Allocates an `OwnedStream` from a supplied `Source` name and
    /// rendezvous point.
    pub fn new(name: Source, port: PushOwned<T, D, P>) -> (stream: Self)
        ensures
            stream.source() == name,
            stream.port() == port,
    {
        OwnedStream { name, port }
    }

    /// Connects the stream to its one destination, and returns the port
    /// that leads there.
    pub fn connect_to<A: Fn(&u128, &mut LogContainer<ChannelsEvent, usize>)>(
        self,
        scope: &mut Scope,
        target: Target,
        pusher: P,
        identifier: usize,
        logging: &mut Option<Logger<ChannelsEvent, usize, A>>,
    ) -> (port: PushOwned<T, D, P>)
        requires
            self.port().inv(),
            pusher.inv(),
            *old(logging) matches Some(logger) ==> logger.inv(),
        ensures
            port.inv(),
            port.pushed() == self.port().pushed(),
            port.delivered() == Some(pusher.pushed()),
            final(scope).edges() == old(scope).edges().push((self.source(), target)),
            final(scope).operators() == old(scope).operators(),
            final(scope).spec_addr() == old(scope).spec_addr(),
            final(scope).spec_index() == old(scope).spec_index(),
            final(scope).spec_peers() == old(scope).spec_peers(),
            logged_channel(
                *old(logging),
                *final(logging),
                identifier,
                old(scope).spec_addr(),
                self.source(),
                target,
            ),
    {
        log_channel(logging, identifier, scope.addr(), self.name, target);
        scope.add_edge(self.name, target);
        let mut port = self.port;
        port.set(pusher);
        port
    }
}

impl<T: Timestamp, D: Container, P: Push<Message<T, D>>> OwnedStream<T, D, TeeCore<T, D, P>> where
    D::Allocation: IntoAllocated<D>,
 {
    /// Convert the stream into a `StreamCore` that can take many
    /// recipients. Consumes this stream, and returns the port, which leads
    /// to a tee without recipients, and the stream, which collects them.
    pub fn tee(self) -> (pair: (PushOwned<T, D, TeeCore<T, D, P>>, StreamCore<T, D, P>))
        requires
            self.port().inv(),
        ensures
            pair.0.inv(),
            pair.0.pushed() == self.port().pushed(),
            pair.0.delivered() == Some(Seq::<Option<Message<T, D>>>::empty()),
            pair.1.source() == self.source(),
            pair.1.ports().inv(),
            pair.1.ports().outputs() == Seq::<Seq<Option<Message<T, D>>>>::empty(),
    {
        let (target, registrar) = TeeCore::new();
        let mut port = self.port;
        port.set(target);
        (port, StreamCore::new(self.name, registrar))
    }
}

/// Common behavior for all streams: they are the output of an operator.
pub trait StreamLike {
    /// The name of the stream's source operator.
    spec fn spec_source(&self) -> Source;

    /// The name of the stream's source operator.
    fn source_name(&self) -> (name: Source)
        ensures
            name == self.spec_source(),
    ;
}

impl<T, D: Container, P: Push<Message<T, D>>> StreamLike for StreamCore<T, D, P> {
    open spec fn spec_source(&self) -> Source {
        self.source()
    }

    fn source_name(&self) -> (name: Source) {
        self.name
    }
}

impl<T, D: Container, P: Push<Message<T, D>>> StreamLike for OwnedStream<T, D, P> {
    open spec fn spec_source(&self) -> Source {
        self.source()
    }

    fn source_name(&self) -> (name: Source) {
        self.name
    }
}

} // verus!
