use std::cell::RefCell;
use std::time::Instant;

use timely_dataplane::allocator::binary::Relay;
use timely_dataplane::allocator::process::Meeting;
use timely_dataplane::initialize::AllocatorInitError;
use timely_dataplane::allocator::{
    promise_futures, Binary, Generic, GenericBuilder, Link, Process, ProcessBinaryBuilder, Pusher,
    Thread,
};
use timely_dataplane::channels::Message;
use timely_dataplane::communication::{Pull, Push};
use timely_dataplane::logging::{ChannelsEvent, LogContainer, Logger};
use timely_dataplane::operators::capability::{ActivateCapability, Capability};
use timely_dataplane::operators::unordered_input_core::{UnorderedInput, UnorderedInputCore};
use timely_dataplane::progress::{
    drain_scaled_into, ChangeBatch, SharedProgress, Source, Target, Timestamp,
};
use timely_dataplane::scope::Scope;
use timely_dataplane::stream::{OwnedStream, StreamCore, StreamLike};
use timely_dataplane::channels::pushers::{PushOwned, TeeCore};

type Bundle = Message<u64, Vec<u64>>;
type Quiet = fn(&u128, &mut LogContainer<ChannelsEvent, usize>);

#[test]
fn change_batches_keep_updates_in_order() {
    let mut batch = ChangeBatch::new();
    assert!(batch.is_empty());
    batch.update(3u64, 2);
    batch.update(4, 0);
    batch.update(3, -2);
    assert_eq!(batch.len(), 2);
    assert!(!batch.is_empty());
    assert_eq!(*batch.get(1), (3, -2));
    let mut other = ChangeBatch::new();
    other.update(1, 1);
    batch.drain_into(&mut other);
    assert!(batch.is_empty());
    assert_eq!(other.drain(), vec![(1, 1), (3, 2), (3, -2)]);
    assert!(other.is_empty());
}

#[test]
fn timestamps_have_a_least_and_an_order() {
    assert_eq!(<u64 as Timestamp>::minimum(), 0);
    assert_eq!(<u32 as Timestamp>::minimum(), 0);
    assert_eq!(<usize as Timestamp>::minimum(), 0);
    assert!(3u64.same(&3));
    assert!(!3u64.same(&4));
    assert!(Timestamp::less_equal(&3u32, &3));
    assert!(Timestamp::less_equal(&3usize, &4));
    assert!(!Timestamp::less_equal(&5u64, &4));
}

#[test]
fn claims_are_counted_once_for_every_worker() {
    let mut claims = ChangeBatch::new();
    claims.update(0u64, 1);
    claims.update(1, 1);
    claims.update(0, -1);
    let mut reported = ChangeBatch::new();
    reported.update(9, 5);
    drain_scaled_into(&mut claims, &mut reported, 4);
    assert!(claims.is_empty());
    assert_eq!(reported.drain(), vec![(9, 5), (0, 4), (1, 4), (0, -4)]);
    claims.update(2, -1);
    drain_scaled_into(&mut claims, &mut reported, 0);
    assert!(reported.is_empty());
}

#[test]
fn capabilities_record_their_claims() {
    let mut internal = ChangeBatch::new();
    let first = Capability::new(2u64, &mut internal);
    assert_eq!(*first.time(), 2);
    let mut second = first.delayed(&5, &mut internal);
    second.downgrade(&7, &mut internal);
    assert_eq!(*second.time(), 7);
    first.release(&mut internal);
    let activating = ActivateCapability::new(second, &vec![0, 3]);
    assert_eq!(*activating.time(), 7);
    assert_eq!(activating.address, vec![0, 3]);
    let later = activating.delayed(&8, &mut internal);
    assert_eq!(later.address, vec![0, 3]);
    activating.release(&mut internal);
    later.release(&mut internal);
    assert_eq!(
        internal.drain(),
        vec![(2, 1), (5, 1), (7, 1), (5, -1), (2, -1), (8, 1), (7, -1), (8, -1)]
    );
}

#[test]
fn shared_progress_starts_without_changes() {
    let progress: SharedProgress<u64> = SharedProgress::new(2, 3);
    assert_eq!(progress.frontiers.len(), 2);
    assert_eq!(progress.consumeds.len(), 2);
    assert_eq!(progress.internals.len(), 3);
    assert_eq!(progress.produceds.len(), 3);
    assert!(progress.internals.iter().all(|batch| batch.is_empty()));
}

#[test]
fn a_scope_numbers_operators_and_keeps_edges() {
    let mut scope = Scope::new(1, 4, vec![0, 2]);
    assert_eq!((scope.index(), scope.peers()), (1, 4));
    assert_eq!(scope.addr(), vec![0, 2]);
    assert_eq!(scope.allocate_operator_index(), 0);
    assert_eq!(scope.allocate_operator_index(), 1);
    scope.add_edge(Source::new(0, 0), Target::new(1, 0));
    assert_eq!(Source::new(3, 1), Source { node: 3, port: 1 });
    assert_eq!(Target::new(3, 1), Target { node: 3, port: 1 });
}

#[test]
fn unordered_input_reports_claims_for_all_workers() {
    let mut scope = Scope::new(0, 4, vec![0]);
    assert_eq!(scope.allocate_operator_index(), 0);
    let UnorderedInput { mut handle, capability, mut stream, mut operator } =
        scope.new_unordered_input_core::<u64, u64, Pusher<Bundle>>();
    assert_eq!(operator.name(), "UnorderedInput");
    assert_eq!(operator.path(), &[0, 1]);
    assert_eq!((operator.inputs(), operator.outputs(), operator.notify_me()), (0, 1, false));
    assert_eq!(*stream.name(), Source::new(1, 0));
    assert_eq!(stream.source_name(), Source::new(1, 0));
    assert_eq!(capability.address, vec![0, 1]);
    assert_eq!(*capability.time(), 0);

    let (pusher, mut puller) = Thread::new().pipeline::<Bundle>();
    let mut logging: Option<Logger<ChannelsEvent, usize, Quiet>> = None;
    stream.connect_to(&mut scope, Target::new(2, 0), pusher, 5, &mut logging);
    handle.connect(&mut stream);

    assert!(operator.get_internal_summary(&mut handle).is_empty());
    assert_eq!(operator.shared_progress().internals[0].drain(), vec![(0, 4)]);

    let mut session = handle.session(&capability);
    session.give(1);
    session.end();
    let later = handle.delayed(&capability, &1);
    handle.release(capability);
    let mut session = handle.session(&later);
    session.give(2);
    session.end();
    handle.release(later);

    assert!(!operator.schedule(&mut handle));
    let progress = operator.shared_progress();
    let internals = progress.internals[0].drain();
    assert_eq!(internals, vec![(1, 4), (0, -4), (1, -4)]);
    assert_eq!(progress.produceds[0].drain(), vec![(0, 1), (1, 1)]);
    assert!(!operator.schedule(&mut handle));
    assert!(operator.shared_progress().internals[0].is_empty());
    assert!(operator.shared_progress().produceds[0].is_empty());

    let first = puller.recv().expect("the record of time 0");
    assert_eq!((first.time, first.data.clone()), (0, vec![1]));
    let second = puller.recv().expect("the record of time 1");
    assert_eq!((second.time, second.data.clone()), (1, vec![2]));
    assert!(puller.recv().is_none());
}

#[test]
fn connecting_a_stream_logs_the_channel() {
    let seen = RefCell::new(Vec::new());
    let action = |_: &u128, batch: &mut LogContainer<ChannelsEvent, usize>| {
        for (_, event) in batch.entries.iter() {
            seen.borrow_mut().push((event.id, event.scope_addr.clone(), event.source, event.target));
        }
    };
    let mut logging = Some(Logger::new(Instant::now(), 0, 0usize, action));
    let mut scope = Scope::new(0, 1, vec![0, 7]);
    let (mut tee, helper) = TeeCore::<u64, Vec<u64>, Pusher<Bundle>>::new();
    let mut stream = StreamCore::new(Source::new(3, 1), helper);
    let (pusher, mut puller) = Thread::new().pipeline::<Bundle>();
    stream.connect_to(&mut scope, Target::new(4, 2), pusher, 12, &mut logging);
    tee.connect(stream.ports_mut());
    tee.send(Message::new(0, vec![1], 0, 0));
    assert_eq!(puller.recv().map(|bundle| bundle.data), Some(vec![1]));
    logging.as_mut().unwrap().flush();
    assert_eq!(*seen.borrow(), vec![(12, vec![0, 7], (3, 1), (4, 2))]);
}

#[test]
fn an_owned_stream_has_one_recipient() {
    let mut scope = Scope::new(0, 1, vec![0]);
    let mut logging: Option<Logger<ChannelsEvent, usize, Quiet>> = None;
    let stream = OwnedStream::new(Source::new(1, 0), PushOwned::<u64, Vec<u64>, Pusher<Bundle>>::new());
    assert_eq!(stream.source_name(), Source::new(1, 0));
    let (pusher, mut puller) = Thread::new().pipeline::<Bundle>();
    let mut port = stream.connect_to(&mut scope, Target::new(2, 0), pusher, 0, &mut logging);
    port.send(Message::new(4, vec![1, 2], 0, 0));
    assert_eq!(puller.recv().map(|bundle| bundle.data), Some(vec![1, 2]));

    let stream = OwnedStream::new(Source::new(1, 0), PushOwned::new());
    let (mut port, mut stream) = stream.tee();
    let (pusher, mut puller) = Thread::new().pipeline::<Bundle>();
    stream.connect_to(&mut scope, Target::new(3, 0), pusher, 1, &mut logging);
    // the recipients reach the tee when they are moved over
    port.send(Message::new(5, vec![3], 0, 0));
    assert!(puller.recv().is_none());
}

#[test]
fn allocators_know_index_and_peers() {
    let mut thread: Generic<Bundle> = GenericBuilder::Thread(Thread::new()).build();
    assert_eq!((thread.index(), thread.peers()), (0, 1));
    thread.pre_work();
    thread.post_work();
    for _ in 0..3 {
        let (pushers, _puller, identifier) = thread.allocate();
        assert_eq!(pushers.len(), 1);
        assert_eq!(identifier, None);
    }
    let mut workers: Vec<Process<Bundle>> = Process::new_vector(3);
    assert_eq!(workers.len(), 3);
    let mut last = GenericBuilder::Process(workers.pop().unwrap()).build();
    assert_eq!((last.index(), last.peers()), (2, 3));
    for number in 0..5 {
        let (pushers, _, identifier) = last.allocate();
        assert_eq!((pushers.len(), identifier), (3, Some(number)));
    }
    last.pre_work();
    last.post_work();
    let (mut pusher, mut puller) = last.pipeline();
    pusher.send(Message::new(0, vec![5], 0, 0));
    assert_eq!(puller.recv().map(|bundle| bundle.data), Some(vec![5]));
}

#[test]
fn workers_meet_on_every_channel_they_make() {
    let mut workers: Vec<Process<Bundle>> = Process::new_vector(2);
    let mut second = workers.pop().unwrap();
    let mut first = workers.pop().unwrap();
    // the first worker makes its channels before the second has made any
    let (mut early_pushers, mut early_puller, _) = first.allocate();
    let (mut late_pushers, mut late_puller, _) = first.allocate();
    early_pushers[1].send(Message::new(0, vec![10], 0, 0));
    late_pushers[1].send(Message::new(0, vec![20], 0, 0));
    late_pushers[0].send(Message::new(0, vec![30], 0, 0));
    let (mut other_early_pushers, mut other_early_puller, _) = second.allocate();
    let (_, mut other_late_puller, _) = second.allocate();
    other_early_pushers[0].send(Message::new(1, vec![40], 1, 0));
    // the pullers of a worker take their links one after the other
    assert_eq!(other_early_puller.recv().map(|bundle| bundle.data), Some(vec![10]));
    assert!(other_early_puller.recv().is_none());
    assert_eq!(other_late_puller.recv().map(|bundle| bundle.data), Some(vec![20]));
    assert!(other_late_puller.recv().is_none());
    assert_eq!(early_puller.recv().map(|bundle| bundle.data), Some(vec![40]));
    assert!(early_puller.recv().is_none());
    assert_eq!(late_puller.recv().map(|bundle| bundle.data), Some(vec![30]));
    assert!(late_puller.recv().is_none());
}

#[test]
fn a_meeting_place_needs_a_queue_for_every_worker() {
    let (mut senders, mut receivers) = promise_futures::<Link<Bundle>>(2, 2);
    let (outgoing, incoming) = (senders.pop().unwrap(), receivers.pop().unwrap());
    assert_eq!(Meeting::new(2, 2, outgoing, incoming).err(), Some(AllocatorInitError::UnknownWorker));
    let (outgoing, mut incoming) = (senders.pop().unwrap(), receivers.pop().unwrap());
    incoming.pop();
    assert_eq!(Meeting::new(0, 2, outgoing, incoming).err(), Some(AllocatorInitError::WrongWidth));
}

#[test]
fn a_transport_holds_the_other_ends() {
    let (mut senders, mut receivers) = promise_futures::<Link<Bundle>>(2, 2);
    let far_outgoing = senders.pop().unwrap();
    let far_incoming = receivers.pop().unwrap();
    let meeting = Meeting::new(0, 2, senders.pop().unwrap(), receivers.pop().unwrap()).unwrap();
    let mut binary = Generic::Binary(Binary::new(meeting));
    assert_eq!((binary.index(), binary.peers()), (0, 2));
    let (mut pushers, mut puller, identifier) = binary.allocate();
    assert_eq!((pushers.len(), identifier), (2, Some(0)));
    pushers[1].send(Message::new(0, vec![1], 0, 0));
    assert!(puller.recv().is_none());
    // the other ends belong to worker 1
    assert!(Process::<Bundle>::new_vector(0).is_empty());
    let mut other = Meeting::new(1, 2, far_outgoing, far_incoming).unwrap();
    let (mut other_pushers, mut other_puller, _) = other.allocate();
    assert_eq!(other_puller.recv().map(|bundle| bundle.data), Some(vec![1]));
    other_pushers[0].send(Message::new(0, vec![2], 1, 0));
    assert_eq!(puller.recv().map(|bundle| bundle.data), Some(vec![2]));
}

#[test]
fn relays_work_at_the_boundaries_of_a_step() {
    let (to_worker, arriving) = crossbeam_channel::unbounded::<Bundle>();
    let (inbox_in, inbox_out) = crossbeam_channel::unbounded::<Bundle>();
    let (staged_in, staged_out) = crossbeam_channel::unbounded::<Bundle>();
    let (leaving, from_worker) = crossbeam_channel::unbounded::<Bundle>();
    let (mut senders, mut receivers) = promise_futures::<Link<Bundle>>(1, 1);
    let meeting = Meeting::new(0, 1, senders.pop().unwrap(), receivers.pop().unwrap()).unwrap();
    let builder = ProcessBinaryBuilder::new(
        meeting,
        vec![Relay::new(arriving, inbox_in)],
        vec![Relay::new(staged_out, leaving)],
        2,
    );
    let mut allocator = GenericBuilder::ProcessBinary(builder).build();
    assert_eq!((allocator.index(), allocator.peers()), (0, 1));
    let (mut pushers, mut puller, _) = allocator.allocate();
    pushers[0].send(Message::new(7, vec![], 0, 0));
    assert_eq!(puller.recv().map(|bundle| bundle.time), Some(7));
    for time in 0..3 {
        to_worker.send(Message::new(time, vec![], 1, 0)).unwrap();
        staged_in.send(Message::new(time, vec![], 0, 0)).unwrap();
    }
    assert!(inbox_out.try_recv().is_err());
    allocator.pre_work();
    // a relay moves two elements in one step at most
    assert_eq!(inbox_out.try_iter().map(|bundle| bundle.time).collect::<Vec<_>>(), vec![0, 1]);
    assert!(from_worker.try_recv().is_err());
    allocator.post_work();
    assert_eq!(from_worker.try_iter().map(|bundle| bundle.time).collect::<Vec<_>>(), vec![0, 1]);
    allocator.pre_work();
    allocator.post_work();
    assert_eq!(inbox_out.try_iter().count(), 1);
    assert_eq!(from_worker.try_iter().count(), 1);
    let relay = Relay::new(from_worker, to_worker);
    assert_eq!(relay.forward(10), 0);
}
