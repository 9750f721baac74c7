use std::cell::RefCell;
use std::time::Instant;

use timely_dataplane::allocator::{
    promise_futures, turn_of, wire, Generic, Process, Puller, Pusher, Thread,
};
use timely_dataplane::channels::pact::{
    Exchange, LogPuller, LogPusher, ParallelizationContractCore, Pipeline,
};
use timely_dataplane::channels::pullers::Counter as PullCounter;
use timely_dataplane::channels::pushers::buffer::BufferCore;
use timely_dataplane::channels::pushers::exchange::Exchange as ExchangePusher;
use timely_dataplane::channels::pushers::{CounterCore, PushOwned, TeeCore};
use timely_dataplane::channels::{Message, MessageAllocation};
use timely_dataplane::communication::{Pull, Push};
use timely_dataplane::container::Container;
use timely_dataplane::logging::{LogContainer, Logger, MessagesEvent};

type Bundle = Message<u64, Vec<u64>>;
type Quiet = fn(&u128, &mut LogContainer<MessagesEvent, usize>);
type Events = RefCell<Vec<MessagesEvent>>;

fn pipe() -> (Pusher<Bundle>, Puller<Bundle>) {
    Thread::new().pipeline()
}

fn collect(events: &Events) -> impl Fn(&u128, &mut LogContainer<MessagesEvent, usize>) + '_ {
    move |_, batch| events.borrow_mut().extend(batch.entries.iter().map(|entry| entry.1))
}

fn drain(puller: &mut impl Pull<Bundle>) -> Vec<Bundle> {
    let mut all = Vec::new();
    while let Some(bundle) = puller.recv() {
        all.push(bundle);
    }
    all
}

fn parts(bundle: &Bundle) -> (u64, Vec<u64>, usize, usize) {
    (bundle.time, bundle.data.clone(), bundle.from, bundle.seq)
}

#[test]
fn a_message_is_as_long_as_its_data() {
    let message = Message::new(3u64, vec![1u8, 2, 3], 1, 2);
    assert_eq!(message.len(), 3);
    assert!(!message.is_empty());
    assert_eq!((message.time, message.from, message.seq), (3, 1, 2));
    let MessageAllocation { data } = message.hollow();
    assert!(data.is_empty());
}

#[test]
fn a_pipeline_hands_over_in_order() {
    let (mut pusher, mut puller) = pipe();
    assert!(puller.recv().is_none());
    pusher.send(Message::new(0, vec![1, 2], 0, 0));
    pusher.send(Message::new(1, vec![3], 0, 1));
    pusher.done();
    let pulled = drain(&mut puller);
    assert_eq!(pulled.len(), 2);
    assert_eq!(parts(&pulled[0]), (0, vec![1, 2], 0, 0));
    assert_eq!(parts(&pulled[1]), (1, vec![3], 0, 1));
    assert!(puller.recv().is_none());
}

#[test]
fn an_allocation_travels_back_to_the_pusher() {
    let (mut pusher, mut puller) = pipe();
    let mut slot = None;
    pusher.push(Some(Message::new(0, Vec::with_capacity(1000), 0, 0)), &mut slot);
    assert!(slot.is_none());
    {
        let (bundle, back) = puller.pull();
        assert!(back.is_none());
        *back = Some(bundle.expect("the message pushed").hollow());
    }
    // the shell is sent back when the puller is asked again
    assert!(puller.pull().0.is_none());
    pusher.push(None, &mut slot);
    let shell = slot.take().expect("the shell of the first message");
    assert!(shell.data.is_empty());
    assert!(shell.data.capacity() >= 1000);
    // a slot that is filled is left alone
    let mut own = Some(MessageAllocation { data: vec![] });
    pusher.push(None, &mut own);
    assert!(own.is_some());
}

#[test]
fn logging_pusher_stamps_sequence_numbers_and_source() {
    let events: Events = RefCell::new(Vec::new());
    let (pusher, mut puller) = pipe();
    let logger = Logger::new(Instant::now(), 0, 0usize, collect(&events));
    let mut wrapped = LogPusher::new(pusher, 4, 9, 17, Some(logger));
    wrapped.send(Message::new(5, vec![1, 2, 3], 77, 77));
    wrapped.done();
    wrapped.send(Message::new(6, vec![], 77, 77));
    wrapped.send(Message::new(6, vec![4], 77, 77));
    let pulled = drain(&mut puller);
    assert_eq!(pulled.len(), 3);
    assert_eq!(parts(&pulled[0]), (5, vec![1, 2, 3], 4, 0));
    assert_eq!(parts(&pulled[1]), (6, vec![], 4, 1));
    assert_eq!(parts(&pulled[2]), (6, vec![4], 4, 2));
    wrapped.flush_log();
    let numbers: Vec<(usize, usize)> =
        events.borrow().iter().map(|event| (event.seq_no, event.length)).collect();
    assert_eq!(numbers, vec![(0, 3), (1, 0), (2, 1)]);
}

#[test]
fn logging_endpoints_log_what_passes() {
    let sent: Events = RefCell::new(Vec::new());
    let received: Events = RefCell::new(Vec::new());
    let (pusher, puller) = pipe();
    let mut sender = LogPusher::new(
        pusher,
        2,
        3,
        11,
        Some(Logger::new(Instant::now(), 0, 0usize, collect(&sent))),
    );
    let mut receiver = LogPuller::new(
        puller,
        3,
        11,
        Some(Logger::new(Instant::now(), 0, 0usize, collect(&received))),
    );
    sender.send(Message::new(1, vec![10, 20], 0, 0));
    sender.done();
    sender.send(Message::new(2, vec![30], 0, 0));
    assert_eq!(drain(&mut receiver).len(), 2);
    // the loggers hold the events until they are flushed
    assert!(sent.borrow().is_empty());
    assert!(received.borrow().is_empty());
    sender.flush_log();
    receiver.flush_log();
    let expected = |is_send| {
        vec![
            MessagesEvent { is_send, channel: 11, source: 2, target: 3, seq_no: 0, length: 2 },
            MessagesEvent { is_send, channel: 11, source: 2, target: 3, seq_no: 1, length: 1 },
        ]
    };
    assert_eq!(*sent.borrow(), expected(true));
    assert_eq!(*received.borrow(), expected(false));
}

#[test]
fn endpoints_without_a_logger_work_the_same() {
    let (pusher, puller) = pipe();
    let mut sender = LogPusher::new(pusher, 2, 3, 11, None::<Logger<MessagesEvent, usize, Quiet>>);
    let mut receiver = LogPuller::new(puller, 3, 11, None::<Logger<MessagesEvent, usize, Quiet>>);
    sender.send(Message::new(1, vec![10, 20], 0, 0));
    sender.flush_log();
    receiver.flush_log();
    let pulled = drain(&mut receiver);
    assert_eq!(pulled.len(), 1);
    assert_eq!(parts(&pulled[0]), (1, vec![10, 20], 2, 0));
}

#[test]
fn produce_side_counter_counts_records_at_their_time() {
    let (pusher, mut puller) = pipe();
    let mut counter = CounterCore::new(pusher);
    // a flush without counts pending is not handed on
    counter.done();
    counter.send(Message::new(3, vec![1, 2, 3], 0, 0));
    counter.send(Message::new(3, vec![], 0, 0));
    counter.send(Message::new(4, vec![9], 0, 0));
    counter.done();
    let produced = counter.produced();
    assert_eq!(produced.len(), 2);
    assert_eq!(*produced.get(0), (3, 3));
    assert_eq!(*produced.get(1), (4, 1));
    let mut taken = timely_dataplane::progress::ChangeBatch::new();
    counter.drain_produced_into(&mut taken);
    assert!(counter.produced().is_empty());
    assert_eq!(taken.drain(), vec![(3, 3), (4, 1)]);
    assert_eq!(drain(&mut puller).len(), 3);
}

#[test]
fn consume_side_counter_counts_and_drops_empty_messages() {
    let (mut pusher, puller) = pipe();
    let mut counter = PullCounter::new(puller);
    assert!(counter.next().is_none());
    pusher.send(Message::new(7, vec![1, 2], 0, 0));
    pusher.send(Message::new(8, vec![], 0, 1));
    pusher.send(Message::new(9, vec![3], 0, 2));
    {
        let (message, slot) = counter.next().expect("the first message");
        assert_eq!(parts(&message), (7, vec![1, 2], 0, 0));
        *slot = Some(message.hollow());
    }
    assert!(counter.next().is_none());
    assert_eq!(counter.next().map(|(message, _)| message.time), Some(9));
    assert!(counter.next().is_none());
    let consumed = counter.consumed();
    assert_eq!(consumed.len(), 2);
    assert_eq!(*consumed.get(0), (7, 2));
    assert_eq!(*consumed.get(1), (9, 1));
    let mut taken = timely_dataplane::progress::ChangeBatch::new();
    counter.drain_consumed_into(&mut taken);
    assert_eq!(taken.len(), 2);
    assert!(counter.consumed().is_empty());
}

#[test]
fn tee_copies_for_all_but_the_last() {
    let (mut tee, mut helper) = TeeCore::<u64, Vec<u64>, Pusher<Bundle>>::new();
    let mut pullers = Vec::new();
    for _ in 0..3 {
        let (pusher, puller) = pipe();
        helper.add_pusher(pusher);
        pullers.push(puller);
    }
    tee.connect(&mut helper);
    let original = vec![1, 2, 3, 4, 5];
    let address = original.as_ptr();
    tee.send(Message::new(2, original, 1, 8));
    tee.done();
    for (index, puller) in pullers.iter_mut().enumerate() {
        let pulled = drain(puller);
        assert_eq!(pulled.len(), 1);
        assert_eq!(parts(&pulled[0]), (2, vec![1, 2, 3, 4, 5], 1, 8));
        assert_eq!(pulled[0].data.as_ptr() == address, index == 2);
        assert!(puller.recv().is_none());
    }
}

#[test]
fn tee_without_recipients_drops() {
    let (mut tee, _helper) = TeeCore::<u64, Vec<u64>, Pusher<Bundle>>::new();
    tee.send(Message::new(0, vec![1], 0, 0));
    tee.done();
}

#[test]
fn owned_pusher_forwards_to_its_target() {
    let mut owned = PushOwned::<u64, Vec<u64>, Pusher<Bundle>>::new();
    owned.send(Message::new(0, vec![1], 0, 0));
    let (pusher, mut puller) = pipe();
    owned.set(pusher);
    owned.send(Message::new(1, vec![2], 0, 0));
    owned.done();
    let pulled = drain(&mut puller);
    assert_eq!(pulled.len(), 1);
    assert_eq!(parts(&pulled[0]), (1, vec![2], 0, 0));
}

fn exchange_of(peers: usize) -> (ExchangePusher<u64, u64, Pusher<Bundle>, fn(&u64) -> u64>, Vec<Puller<Bundle>>) {
    let mut pushers = Vec::new();
    let mut pullers = Vec::new();
    for _ in 0..peers {
        let (pusher, puller) = pipe();
        pushers.push(pusher);
        pullers.push(puller);
    }
    fn identity(record: &u64) -> u64 {
        *record
    }
    (ExchangePusher::new(pushers, identity as fn(&u64) -> u64), pullers)
}

#[test]
fn exchange_routes_by_hash_and_keeps_order() {
    let (mut exchange, mut pullers) = exchange_of(3);
    let mut slot = None;
    exchange.push(Some(Message::new(0, (0..10).collect(), 0, 0)), &mut slot);
    assert!(slot.expect("the emptied batch").data.is_empty());
    // nothing is sent before a buffer is full or a flush comes
    assert!(pullers.iter_mut().all(|puller| puller.recv().is_none()));
    exchange.done();
    let received: Vec<Vec<Bundle>> = pullers.iter_mut().map(|puller| drain(puller)).collect();
    assert_eq!(received[0].len(), 1);
    assert_eq!(received[0][0].data, vec![0, 3, 6, 9]);
    assert_eq!(received[1][0].data, vec![1, 4, 7]);
    assert_eq!(received[2][0].data, vec![2, 5, 8]);
    let total: usize = received.iter().flatten().map(|bundle| bundle.data.len()).sum();
    assert_eq!(total, 10);
    assert!(received.iter().flatten().all(|bundle| bundle.time == 0));
}

#[test]
fn exchange_flushes_when_the_time_changes() {
    let (mut exchange, mut pullers) = exchange_of(2);
    exchange.send(Message::new(1, vec![1, 2, 3], 0, 0));
    exchange.send(Message::new(1, vec![5], 0, 0));
    assert!(pullers[1].recv().is_none());
    exchange.send(Message::new(2, vec![7, 8], 0, 0));
    let early = drain(&mut pullers[1]);
    assert_eq!(early.len(), 1);
    assert_eq!((early[0].time, early[0].data.clone()), (1, vec![1, 3, 5]));
    let early = drain(&mut pullers[0]);
    assert_eq!((early[0].time, early[0].data.clone()), (1, vec![2]));
    exchange.done();
    let late = drain(&mut pullers[1]);
    assert_eq!((late[0].time, late[0].data.clone()), (2, vec![7]));
    let late = drain(&mut pullers[0]);
    assert_eq!((late[0].time, late[0].data.clone()), (2, vec![8]));
    // a flush with nothing waiting sends nothing
    exchange.done();
    assert!(pullers.iter_mut().all(|puller| puller.recv().is_none()));
}

#[test]
fn exchange_sends_full_buffers_at_once() {
    let (mut exchange, mut pullers) = exchange_of(2);
    // 1024 records of eight bytes fill a buffer
    let records: Vec<u64> = (0..4096).collect();
    exchange.send(Message::new(0, records, 0, 0));
    for (target, puller) in pullers.iter_mut().enumerate() {
        let full = drain(puller);
        assert_eq!(full.len(), 2);
        assert!(full.iter().all(|bundle| bundle.data.len() == 1024));
        assert!(full.iter().flat_map(|bundle| &bundle.data).all(|record| *record % 2 == target as u64));
        let all: Vec<u64> = full.iter().flat_map(|bundle| bundle.data.clone()).collect();
        assert!(all.windows(2).all(|pair| pair[0] < pair[1]));
    }
}

#[test]
fn buffer_sends_full_batches_and_the_rest_at_the_end() {
    let (pusher, mut puller) = Thread::new().pipeline::<Message<u64, Vec<u8>>>();
    let mut buffer = BufferCore::new(pusher);
    {
        let mut session = buffer.autoflush_session(0);
        for record in 0..8192u32 {
            session.give(record as u8);
        }
        session.end();
    }
    let first = puller.recv().expect("one full batch");
    assert_eq!(first.data.len(), 8192);
    assert_eq!((first.time, first.from, first.seq), (0, 0, 0));
    assert!(puller.recv().is_none());
    {
        let mut session = buffer.session(&1);
        session.give(1);
        session.give(2);
        let mut more = vec![3, 4, 5];
        session.give_vec(&mut more);
        assert!(more.is_empty());
    }
    let second = puller.recv().expect("the records that waited");
    assert_eq!((second.time, second.data.clone()), (1, vec![1, 2]));
    let third = puller.recv().expect("the batch given whole");
    assert_eq!((third.time, third.data.clone()), (1, vec![3, 4, 5]));
    {
        let mut session = buffer.session(&1);
        session.give(6);
    }
    assert!(puller.recv().is_none());
    {
        // another time sends what waits for the time before
        let mut session = buffer.session(&2);
        session.give(7);
    }
    let fourth = puller.recv().expect("the record of the time before");
    assert_eq!((fourth.time, fourth.data.clone()), (1, vec![6]));
    buffer.cease();
    let fifth = puller.recv().expect("the last record");
    assert_eq!((fifth.time, fifth.data.clone()), (2, vec![7]));
    buffer.flush();
    assert!(puller.recv().is_none());
}

#[test]
fn a_pipeline_recycles_the_allocation_of_a_full_batch() {
    let mut allocator: Generic<Message<u64, Vec<u8>>> = Generic::Thread(Thread::new());
    let mut loggers: Vec<Logger<MessagesEvent, usize, Quiet>> = Vec::new();
    let (pusher, mut puller) = <Pipeline as ParallelizationContractCore<u64, Vec<u8>, Quiet>>::connect(
        Pipeline,
        &mut allocator,
        0,
        &[0],
        &mut loggers,
    );
    let mut buffer = BufferCore::new(pusher);
    for record in 0..8192u32 {
        buffer.autoflush_session(0).give(record as u8);
    }
    buffer.cease();
    let mut addresses = Vec::new();
    {
        let (bundle, slot) = puller.pull();
        let bundle = bundle.expect("exactly one container");
        assert_eq!(bundle.data.len(), 8192);
        assert_eq!((bundle.from, bundle.seq), (0, 0));
        addresses.push(bundle.data.as_ptr());
        *slot = Some(bundle.hollow());
    }
    assert!(puller.pull().0.is_none());
    // in the steady state the batches are built in allocations that came back
    for round in 1..=200u64 {
        for record in 0..8192u32 {
            buffer.autoflush_session(round).give(record as u8);
        }
        let (bundle, slot) = puller.pull();
        let bundle = bundle.expect("the batch of the round");
        assert_eq!(bundle.data.len(), 8192);
        assert_eq!(bundle.seq, round as usize);
        addresses.push(bundle.data.as_ptr());
        *slot = Some(bundle.hollow());
        assert!(puller.pull().0.is_none());
    }
    addresses.sort();
    addresses.dedup();
    assert!(addresses.len() <= 2);
}

#[test]
fn exchange_between_two_workers_of_a_process() {
    let mut workers: Vec<Process<Message<u64, Vec<String>>>> = Process::new_vector(2);
    let mut second = Generic::Process(workers.pop().expect("worker 1"));
    let mut first = Generic::Process(workers.pop().expect("worker 0"));
    assert_eq!((first.index(), first.peers()), (0, 2));
    assert_eq!((second.index(), second.peers()), (1, 2));
    let by_length = |text: &String| text.len() as u64;
    let mut loggers: Vec<Logger<MessagesEvent, usize, Quiet>> = Vec::new();
    let (mut pusher, mut puller_0) =
        Exchange::new(by_length).connect(&mut first, 0, &[0], &mut loggers);
    let (_pusher_1, mut puller_1) =
        Exchange::new(by_length).connect(&mut second, 0, &[0], &mut loggers);
    for text in ["a", "b", "c"] {
        pusher.send(Message::new(0, vec![text.to_string()], 9, 9));
        pusher.done();
    }
    assert!(puller_0.recv().is_none());
    let mut received = Vec::new();
    while let Some(bundle) = puller_1.recv() {
        received.push((bundle.data, bundle.seq, bundle.from));
    }
    assert_eq!(
        received,
        vec![
            (vec!["a".to_string()], 0, 0),
            (vec!["b".to_string()], 1, 0),
            (vec!["c".to_string()], 2, 0),
        ]
    );
    // every call gives a channel
    let (mut again, _) = Exchange::new(by_length).connect(&mut first, 1, &[0], &mut loggers);
    again.send(Message::new(0, vec!["d".to_string()], 0, 0));
    again.done();
    assert!(puller_1.recv().is_none());
}

#[test]
fn a_matrix_has_a_queue_for_every_pair() {
    let (senders, receivers) = promise_futures::<u8>(2, 3);
    assert_eq!(senders.len(), 2);
    assert!(senders.iter().all(|row| row.len() == 3));
    assert_eq!(receivers.len(), 3);
    assert!(receivers.iter().all(|row| row.len() == 2));
    for (sender, row) in senders.iter().enumerate() {
        for (receiver, queue) in row.iter().enumerate() {
            queue.send((10 * sender + receiver) as u8).unwrap();
        }
    }
    for (receiver, row) in receivers.iter().enumerate() {
        for (sender, queue) in row.iter().enumerate() {
            assert_eq!(queue.try_recv(), Ok((10 * sender + receiver) as u8));
            assert!(queue.try_recv().is_err());
        }
    }
    let (senders, receivers) = promise_futures::<u8>(0, 2);
    assert!(senders.is_empty());
    assert_eq!(receivers.len(), 2);
}

#[test]
fn wired_endpoints_reach_their_targets() {
    let mut endpoints = wire::<Bundle>(3);
    assert_eq!(endpoints.len(), 3);
    for (source, ends) in endpoints.iter_mut().enumerate() {
        assert_eq!(ends.pushers.len(), 3);
        for (target, pusher) in ends.pushers.iter_mut().enumerate() {
            pusher.send(Message::new(0, vec![(10 * source + target) as u64], source, 0));
        }
    }
    for (target, ends) in endpoints.iter_mut().enumerate() {
        let mut pulled: Vec<(usize, Vec<u64>)> =
            drain(&mut ends.puller).iter().map(|bundle| (bundle.from, bundle.data.clone())).collect();
        pulled.sort();
        let expected: Vec<(usize, Vec<u64>)> =
            (0..3).map(|source| (source, vec![(10 * source + target) as u64])).collect();
        assert_eq!(pulled, expected);
    }
}

#[test]
fn a_puller_asks_its_sources_in_turn() {
    let mut endpoints = wire::<Bundle>(2);
    for round in 0..2 {
        for source in 0..2 {
            endpoints[source].pushers[0].send(Message::new(round, vec![], source, 0));
        }
    }
    let order: Vec<(u64, usize)> =
        drain(&mut endpoints[0].puller).iter().map(|bundle| (bundle.time, bundle.from)).collect();
    assert_eq!(order, vec![(0, 1), (0, 0), (1, 1), (1, 0)]);
}

#[test]
fn a_round_starts_behind_the_last_source() {
    let round = |last, count| (0..count).map(|tried| turn_of(last, count, tried)).collect::<Vec<_>>();
    assert_eq!(round(0, 4), vec![1, 2, 3, 0]);
    assert_eq!(round(2, 4), vec![3, 0, 1, 2]);
    assert_eq!(round(3, 4), vec![0, 1, 2, 3]);
    assert_eq!(round(0, 1), vec![0]);
    // a last source that is not among the sources counts as the first
    assert_eq!(round(9, 3), vec![1, 2, 0]);
}
