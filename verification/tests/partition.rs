use timely_dataplane::allocator::{Puller, Pusher, Thread};
use timely_dataplane::channels::pushers::exchange::Bank;
use timely_dataplane::channels::Message;
use timely_dataplane::communication::Pull;
use timely_dataplane::initialize::{AllocatorInitError, Config};
use timely_dataplane::container::Container;
use timely_dataplane::partition::{FlushBuffer, PushPartitioned};
use timely_dataplane::zero_copy::{ZeroCopyBuilder, ZeroCopyWrapper};
use timely_dataplane::allocator::GenericBuilder;

type Bundle = Message<u64, Vec<u32>>;

fn bank_of(targets: usize, time: u64) -> (Bank<u64, u32, Pusher<Bundle>>, Vec<Puller<Bundle>>) {
    let mut pushers = Vec::new();
    let mut pullers = Vec::new();
    for _ in 0..targets {
        let (pusher, puller) = Thread::new().pipeline::<Bundle>();
        pushers.push(pusher);
        pullers.push(puller);
    }
    (Bank::new(pushers, time), pullers)
}

#[test]
fn partition_fills_the_buffers_in_order() {
    let (mut bank, mut pullers) = bank_of(3, 0);
    let mut items: Vec<u32> = (0..10).collect();
    let mut buffers = vec![vec![100], vec![], vec![]];
    items.push_partitioned(&mut buffers, |record: &u32| (*record % 3) as usize, &mut bank);
    assert!(items.is_empty());
    assert_eq!(buffers, vec![vec![100, 0, 3, 6, 9], vec![1, 4, 7], vec![2, 5, 8]]);
    assert!(pullers.iter_mut().all(|puller| puller.recv().is_none()));
    assert_eq!(bank.into_pushers().len(), 3);
}

#[test]
fn partition_hands_over_full_buffers() {
    // 2048 records of four bytes fill a buffer
    let (mut bank, mut pullers) = bank_of(2, 9);
    let mut items: Vec<u32> = (0..5000).collect();
    let mut buffers = vec![vec![], vec![]];
    items.push_partitioned(&mut buffers, |record: &u32| (*record % 2) as usize, &mut bank);
    assert_eq!(buffers[0].len(), 2500 - 2048);
    assert_eq!(buffers[1].len(), 2500 - 2048);
    let mut total = buffers[0].len() + buffers[1].len();
    for (target, puller) in pullers.iter_mut().enumerate() {
        let full = puller.recv().expect("one full buffer");
        assert_eq!(full.time, 9);
        assert_eq!(full.data.len(), 2048);
        assert!(full.data.iter().all(|record| *record as usize % 2 == target));
        assert_eq!(full.data[0] as usize, target);
        assert_eq!(buffers[target][0] as usize, 4096 + target);
        total += full.data.len();
        assert!(puller.recv().is_none());
    }
    assert_eq!(total, 5000);
}

#[test]
fn a_bank_sends_what_it_is_handed() {
    let (mut bank, mut pullers) = bank_of(2, 4);
    let mut buffer = vec![1, 2, 3];
    bank.flush(1, &mut buffer);
    assert!(buffer.is_empty());
    assert!(pullers[0].recv().is_none());
    let sent = pullers[1].recv().expect("the buffer");
    assert_eq!((sent.time, sent.data.clone(), sent.from, sent.seq), (4, vec![1, 2, 3], 0, 0));
}

#[test]
fn builder_closes_a_buffer_above_the_limit() {
    let mut builder = ZeroCopyBuilder::default();
    assert!(builder.extract().is_none());
    builder.push_into(&[1; 1000]);
    assert!(builder.extract().is_none());
    builder.push_into(&[2; 24]);
    assert!(builder.extract().is_none());
    builder.push_into(&[3]);
    builder.push_into(&[4; 2000]);
    builder.push_into(&[5; 5]);
    {
        let first = builder.extract().expect("the first buffer");
        assert_eq!(first.len(), 1025);
        assert_eq!(first.bytes()[999..], [1, 2, 2, 2, 2, 2, 2, 2, 2, 2, 2, 2, 2, 2, 2, 2, 2, 2, 2, 2, 2, 2, 2, 2, 2, 3]);
        let shared = first.clone();
        assert_eq!(shared.bytes().as_ptr(), first.bytes().as_ptr());
    }
    assert_eq!(builder.extract().map(|wrapper| wrapper.len()), Some(2000));
    assert!(builder.extract().is_none());
    assert_eq!(builder.finish().map(|wrapper| wrapper.bytes().to_vec()), Some(vec![5; 5]));
    assert!(builder.finish().is_none());
}

#[test]
fn wrappers_count_their_bytes() {
    let empty = ZeroCopyWrapper::default();
    assert!(empty.is_empty());
    assert_eq!(empty.len(), 0);
    let wrapper = ZeroCopyWrapper::new(vec![1, 2, 3]);
    assert_eq!(wrapper.len(), 3);
    assert!(!wrapper.is_empty());
    assert_eq!(wrapper.bytes(), &[1, 2, 3]);
    wrapper.hollow();
}

#[test]
fn configurations_count_their_workers() {
    assert_eq!(Config::Thread.peers(), Ok(1));
    assert_eq!(Config::Thread.first_index(), Ok(0));
    assert_eq!(Config::Process(4).peers(), Ok(4));
    assert_eq!(Config::Process(0).peers(), Err(AllocatorInitError::NoWorkers));
    let cluster = |threads, process, count: usize| Config::Cluster {
        threads,
        process,
        addresses: (0..count).map(|index| format!("host{}:2101", index)).collect(),
    };
    assert_eq!(cluster(3, 1, 2).peers(), Ok(6));
    assert_eq!(cluster(3, 1, 2).first_index(), Ok(3));
    assert_eq!(cluster(0, 0, 2).peers(), Err(AllocatorInitError::NoWorkers));
    assert_eq!(cluster(1, 0, 0).peers(), Err(AllocatorInitError::NoWorkers));
    assert_eq!(cluster(2, 2, 2).peers(), Err(AllocatorInitError::UnknownProcess));
    assert_eq!(cluster(2, 2, 2).first_index(), Err(AllocatorInitError::UnknownProcess));
    assert_eq!(cluster(usize::MAX, 0, 2).peers(), Err(AllocatorInitError::TooManyWorkers));
}

#[test]
fn configurations_build_their_allocators() {
    let built = Config::Thread.try_build::<Bundle>().expect("one allocator");
    assert_eq!(built.len(), 1);
    assert!(matches!(built[0], GenericBuilder::Thread(_)));
    let built = Config::Process(3).try_build::<Bundle>().expect("three allocators");
    assert_eq!(built.len(), 3);
    for (worker, builder) in built.into_iter().enumerate() {
        let mut allocator = builder.build();
        assert_eq!((allocator.index(), allocator.peers()), (worker, 3));
        assert_eq!(allocator.allocate().2, Some(0));
        assert_eq!(allocator.allocate().0.len(), 3);
    }
    assert_eq!(
        Config::Process(0).try_build::<Bundle>().err(),
        Some(AllocatorInitError::NoWorkers)
    );
    let cluster = Config::Cluster { threads: 2, process: 0, addresses: vec!["a".to_string()] };
    assert_eq!(cluster.try_build::<Bundle>().err(), Some(AllocatorInitError::TransportRequired));
    let cluster = Config::Cluster { threads: 2, process: 1, addresses: vec!["a".to_string()] };
    assert_eq!(cluster.try_build::<Bundle>().err(), Some(AllocatorInitError::UnknownProcess));
}
