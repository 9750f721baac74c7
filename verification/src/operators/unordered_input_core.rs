//! Create new `Streams` connected to external inputs.

use vstd::prelude::*;
use crate::channels::pushers::buffer::{
    flushed_out, AutoflushSessionCore, BufferCore as PushBuffer,
};
use crate::channels::pushers::counter::CounterCore as PushCounter;
use crate::channels::pushers::tee::TeeCore;
use crate::channels::Message;
use crate::communication::Push;
use crate::operators::capability::{ActivateCapability, Capability};
use crate::progress::{drain_scaled_into, scaled, unit_changes, ChangeBatch, SharedProgress, Source, Timestamp};
use crate::scope::Scope;
use crate::stream::StreamCore;

verus! {

/// The pusher that the records of an unordered input go to: a counter in
/// front of a tee.
pub type InputPusher<T, D, P> = PushCounter<T, Vec<D>, TeeCore<T, Vec<D>, P>>;

/// The parts of an unordered input.
pub struct UnorderedInput<T, D: Clone, P> {
    /// The handle through which data is introduced.
    pub handle: UnorderedHandleCore<T, D, P>,
    /// The capability for the least timestamp.
    pub capability: ActivateCapability<T>,
    /// The stream of the data.
    pub stream: StreamCore<T, Vec<D>, P>,
    /// The operator that reports the progress of the input.
    pub operator: UnorderedOperator<T>,
}

/// Create a new `Stream` and `Handle` through which to supply input.
pub trait UnorderedInputCore {
    /// Create a new capability-based `Stream` and `Handle` through which to
    /// supply input. This input supports multiple open epochs (timestamps)
    /// at the same time.
    ///
    /// The method makes the handle and a capability for the least
    /// timestamp, which are later used to introduce data into the
    /// computation, the stream, which can be used immediately for dataflow
    /// construction, and the operator, which reports the progress of the
    /// input when it is scheduled.
    ///
    /// The capability can be given up to inform the system that the input
    /// has advanced beyond the capability's timestamp. To retain the
    /// ability to send, a new capability at a later timestamp should be
    /// obtained first, via `delayed`. To communicate the end-of-input give
    /// up all capabilities.
    fn new_unordered_input_core<T: Timestamp, D: Clone, P: Push<Message<T, Vec<D>>>>(&mut self) -> (made: UnorderedInput<T, D, P>)
        requires
            old(self).spec_peers() <= i64::MAX,
        ensures
            final(self).operators() == if old(self).operators() == usize::MAX {
                usize::MAX
            } else {
                (old(self).operators() + 1) as usize
            },
            final(self).spec_addr() == old(self).spec_addr(),
            final(self).spec_peers() == old(self).spec_peers(),
            final(self).spec_index() == old(self).spec_index(),
            final(self).edges() == old(self).edges(),
            made.handle.inv(),
            made.handle.internal() == seq![(T::spec_minimum(), 1i64)],
            made.handle.buffer().waiting() == Seq::<D>::empty(),
            made.handle.buffer().time() is None,
            made.handle.buffer().pusher().counts() == Seq::<(T, i64)>::empty(),
            made.handle.buffer().pusher().pushee().outputs().len() == 0,
            made.capability.capability.spec_time() == T::spec_minimum(),
            made.capability.address@ == old(self).spec_addr().push(old(self).operators()),
            made.stream.source() == (Source { node: old(self).operators(), port: 0 }),
            made.stream.ports().inv(),
            made.stream.ports().outputs().len() == 0,
            made.operator.inv(),
            made.operator.spec_name() == "UnorderedInput"@,
            made.operator.peers() == old(self).spec_peers(),
            made.operator.address() == old(self).spec_addr().push(old(self).operators()),
            made.operator.internals() == Seq::<(T, i64)>::empty(),
            made.operator.produceds() == Seq::<(T, i64)>::empty(),
    ;

    /// The number of workers.
    spec fn spec_peers(&self) -> usize;

    /// The number of operators numbered so far.
    spec fn operators(&self) -> usize;

    /// The path from the root of the graph to this scope.
    spec fn spec_addr(&self) -> Seq<usize>;

    /// The index of the worker.
    spec fn spec_index(&self) -> usize;

    /// The edges added so far.
    spec fn edges(&self) -> Seq<(Source, crate::progress::Target)>;
}

impl UnorderedInputCore for Scope {
    open spec fn spec_peers(&self) -> usize {
        Scope::spec_peers(self)
    }

    open spec fn operators(&self) -> usize {
        Scope::operators(self)
    }

    open spec fn spec_addr(&self) -> Seq<usize> {
        Scope::spec_addr(self)
    }

    open spec fn spec_index(&self) -> usize {
        Scope::spec_index(self)
    }

    open spec fn edges(&self) -> Seq<(Source, crate::progress::Target)> {
        Scope::edges(self)
    }

    fn new_unordered_input_core<T: Timestamp, D: Clone, P: Push<Message<T, Vec<D>>>>(&mut self) -> (made: UnorderedInput<T, D, P>) {
        let (output, registrar) = TeeCore::<T, Vec<D>, P>::new();
        let mut internal: ChangeBatch<T> = ChangeBatch::new();
        let cap = Capability::new(T::minimum(), &mut internal);
        let counter = PushCounter::new(output);
        let peers: usize = self.peers();

        let index: usize = self.allocate_operator_index();
        let mut address: Vec<usize> = self.addr();
        address.push(index);

        let cap = ActivateCapability::new(cap, &address);

        let helper = UnorderedHandleCore::new(counter, internal);

        let operator = UnorderedOperator {
            name: "UnorderedInput".to_owned(),
            address,
            shared_progress: SharedProgress::new(0, 1),
            peers,
        };
        proof {
            assert(helper.internal() =~= seq![(T::spec_minimum(), 1i64)]);
            assert(operator.internals() =~= Seq::<(T, i64)>::empty());
            assert(operator.produceds() =~= Seq::<(T, i64)>::empty());
        }
        UnorderedInput {
            handle: helper,
            capability: cap,
            stream: StreamCore::new(Source::new(index, 0), registrar),
            operator,
        }
    }
}

/// The operator behind an unordered input: no input, one output.
pub struct UnorderedOperator<T> {
    name: String,
    address: Vec<usize>,
    shared_progress: SharedProgress<T>,
    peers: usize,
}

impl<T: Timestamp> UnorderedOperator<T> {
    /// The number of workers.
    pub closed spec fn peers(&self) -> usize {
        self.peers
    }

    /// The path to the operator.
    pub closed spec fn address(&self) -> Seq<usize> {
        self.address@
    }

    /// The changes to capabilities reported for the output and not yet
    /// taken, counted for all workers.
    pub closed spec fn internals(&self) -> Seq<(T, i64)> {
        self.shared_progress.internals@[0]@
    }

    /// The counts of records reported for the output and not yet taken.
    pub closed spec fn produceds(&self) -> Seq<(T, i64)> {
        self.shared_progress.produceds@[0]@
    }

    /// The operator reports for one output and no input, and the number of
    /// workers fits a count.
    pub closed spec fn inv(&self) -> bool {
        &&& self.shared_progress.internals@.len() == 1
        &&& self.shared_progress.produceds@.len() == 1
        &&& self.peers <= i64::MAX
    }

    /// The name of the operator.
    pub closed spec fn spec_name(&self) -> Seq<char> {
        self.name@
    }

    /// The name of the operator.
    pub fn name(&self) -> (name: &str)
        ensures
            name@ == self.spec_name(),
    {
        self.name.as_str()
    }

    /// The path to the operator.
    pub fn path(&self) -> (path: &[usize])
        ensures
            path@ == self.address(),
    {
        self.address.as_slice()
    }

    /// The number of inputs.
    pub fn inputs(&self) -> (inputs: usize)
        ensures
            inputs == 0,
    {
        0
    }

    /// The number of outputs.
    pub fn outputs(&self) -> (outputs: usize)
        ensures
            outputs == 1,
    {
        1
    }

    /// Whether the operator wants to hear of changes to its frontier: never.
    pub fn notify_me(&self) -> (notify: bool)
        ensures
            !notify,
    {
        false
    }

    /// The progress reported and not yet taken.
    pub fn shared_progress(&mut self) -> (progress: &mut SharedProgress<T>)
        ensures
            *progress == old(self).shared_progress_value(),
            final(self).shared_progress_value() == *final(progress),
            final(self).peers() == old(self).peers(),
            final(self).address() == old(self).address(),
    {
        &mut self.shared_progress
    }

    /// The progress reported and not yet taken.
    pub closed spec fn shared_progress_value(&self) -> SharedProgress<T> {
        self.shared_progress
    }

    /// One scheduling step: the changes that `handle` has made to its
    /// capabilities are reported once for every worker, and the counts of
    /// the records it has sent as they are. The operator never asks to be
    /// scheduled again.
    pub fn schedule<D: Clone, P: Push<Message<T, Vec<D>>>>(&mut self, handle: &mut UnorderedHandleCore<T, D, P>) -> (again: bool)
        requires
            old(self).inv(),
            old(handle).inv(),
        ensures
            !again,
            final(self).inv(),
            final(self).peers() == old(self).peers(),
            final(self).address() == old(self).address(),
            final(self).internals() == old(self).internals() + scaled(
                old(handle).internal(),
                old(self).peers() as int,
            ),
            final(self).produceds() == old(self).produceds() + old(handle).buffer().pusher().counts(),
            final(handle).inv(),
            final(handle).internal() == Seq::<(T, i64)>::empty(),
            final(handle).buffer().pusher().counts() == Seq::<(T, i64)>::empty(),
            final(handle).buffer().waiting() == old(handle).buffer().waiting(),
            final(handle).buffer().time() == old(handle).buffer().time(),
            final(handle).buffer().delivered() == old(handle).buffer().delivered(),
            final(handle).buffer().pusher().delivered() == old(handle).buffer().pusher().delivered(),
    {
        drain_scaled_into(&mut handle.internal, &mut self.shared_progress.internals[0], self.peers);
        let counter = handle.buffer.inner();
        counter.drain_produced_into(&mut self.shared_progress.produceds[0]);
        false
    }

    /// The summary of the operator: it has no input, so no path leads
    /// through it. The changes that `handle` has made to its capabilities
    /// so far are reported once for every worker.
    pub fn get_internal_summary<D: Clone, P: Push<Message<T, Vec<D>>>>(&mut self, handle: &mut UnorderedHandleCore<T, D, P>) -> (summary: Vec<Vec<usize>>)
        requires
            old(self).inv(),
            old(handle).inv(),
        ensures
            summary@.len() == 0,
            final(self).inv(),
            final(self).peers() == old(self).peers(),
            final(self).address() == old(self).address(),
            final(self).internals() == old(self).internals() + scaled(
                old(handle).internal(),
                old(self).peers() as int,
            ),
            final(self).produceds() == old(self).produceds(),
            final(handle).inv(),
            final(handle).internal() == Seq::<(T, i64)>::empty(),
            final(handle).buffer() == old(handle).buffer(),
    {
        drain_scaled_into(&mut handle.internal, &mut self.shared_progress.internals[0], self.peers);
        Vec::new()
    }
}

/// A handle to an input `Stream`, used to introduce data to a timely
/// dataflow computation.
pub struct UnorderedHandleCore<T, D: Clone, P> {
    buffer: PushBuffer<T, D, InputPusher<T, D, P>>,
    internal: ChangeBatch<T>,
}

impl<T: Timestamp, D: Clone, P: Push<Message<T, Vec<D>>>> UnorderedHandleCore<T, D, P> {
    /// The buffer that sessions fill.
    pub closed spec fn buffer(&self) -> PushBuffer<T, D, InputPusher<T, D, P>> {
        self.buffer
    }

    /// The changes made to the capabilities of the input and not yet
    /// reported.
    pub closed spec fn internal(&self) -> Seq<(T, i64)> {
        self.internal@
    }

    /// The buffer is ready, and every change to the capabilities is one
    /// claim made or given up.
    pub open spec fn inv(&self) -> bool {
        &&& self.buffer().inv()
        &&& unit_changes(self.internal())
    }

    fn new(pusher: InputPusher<T, D, P>, internal: ChangeBatch<T>) -> (handle: Self)
        requires
            pusher.inv(),
            unit_changes(internal@),
        ensures
            handle.inv(),
            handle.internal() == internal@,
            handle.buffer().pusher() == pusher,
            handle.buffer().waiting() == Seq::<D>::empty(),
            handle.buffer().time() is None,
    {
        let buffer = PushBuffer::new(pusher);
        UnorderedHandleCore { buffer, internal }
    }

    /// Allocates a new automatically flushing session based on the supplied
    /// capability: records given to the session are sent at the time of the
    /// capability.
    pub fn session(&mut self, cap: &ActivateCapability<T>) -> (session: AutoflushSessionCore<'_, T, D, InputPusher<T, D, P>>)
        requires
            old(self).inv(),
        ensures
            session.buffer.inv(),
            session.buffer.time() == Some(cap.capability.spec_time()),
            old(self).buffer().time() == Some(cap.capability.spec_time())
                ==> session.buffer.pusher() == old(self).buffer().pusher()
                && session.buffer.waiting() == old(self).buffer().waiting(),
            old(self).buffer().time() != Some(cap.capability.spec_time())
                ==> session.buffer.waiting() == Seq::<D>::empty() && flushed_out(
                old(self).buffer().pusher(),
                session.buffer.pusher(),
                old(self).buffer().time(),
                old(self).buffer().waiting(),
            ),
            final(self).buffer() == *final(session.buffer),
            final(self).internal() == old(self).internal(),
    {
        self.buffer.autoflush_session(*cap.time())
    }

    /// Makes a capability for `time`, which is not before the time of
    /// `cap`.
    pub fn delayed(&mut self, cap: &ActivateCapability<T>, time: &T) -> (later: ActivateCapability<T>)
        requires
            old(self).inv(),
            cap.capability.spec_time().spec_less_equal(time),
        ensures
            final(self).inv(),
            final(self).buffer() == old(self).buffer(),
            final(self).internal() == old(self).internal().push((*time, 1i64)),
            later.capability.spec_time() == *time,
            later.address@ == cap.address@,
    {
        cap.delayed(time, &mut self.internal)
    }

    /// Gives the capability up.
    pub fn release(&mut self, cap: ActivateCapability<T>)
        requires
            old(self).inv(),
        ensures
            final(self).inv(),
            final(self).buffer() == old(self).buffer(),
            final(self).internal() == old(self).internal().push(
                (cap.capability.spec_time(), -1i64),
            ),
    {
        cap.release(&mut self.internal);
    }

    /// Moves the recipients that `stream` has collected behind those that
    /// the records of the input go to.
    pub fn connect(&mut self, stream: &mut StreamCore<T, Vec<D>, P>)
        requires
            old(self).inv(),
            old(stream).ports().inv(),
        ensures
            final(self).inv(),
            final(self).internal() == old(self).internal(),
            final(self).buffer().waiting() == old(self).buffer().waiting(),
            final(self).buffer().time() == old(self).buffer().time(),
            final(self).buffer().pusher().counts() == old(self).buffer().pusher().counts(),
            final(self).buffer().pusher().pushee().outputs() == old(self).buffer().pusher().pushee().outputs() + old(stream).ports().outputs(),
            final(stream).source() == old(stream).source(),
            final(stream).ports().inv(),
            final(stream).ports().outputs() == Seq::<Seq<Option<Message<T, Vec<D>>>>>::empty(),
    {
        let counter = self.buffer.inner();
        let tee = counter.inner();
        tee.connect(stream.ports_mut());
    }
}

} // verus!
