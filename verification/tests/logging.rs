use std::cell::RefCell;
use std::time::Instant;

use timely_dataplane::container::{Container, IntoAllocated};
use timely_dataplane::logging::{LogContainer, Logger, LoggerInner};
use timely_dataplane::message::RefOrMut;
use timely_dataplane::registry::Registry;

type Seen = RefCell<Vec<(u128, u128, Vec<(u32, u64)>)>>;

fn record(seen: &Seen) -> impl Fn(&u128, &mut LogContainer<u64, usize>) + '_ {
    move |time, batch| seen.borrow_mut().push((*time, batch.time, batch.entries.clone()))
}

#[test]
fn container_appends_with_the_distance_from_the_base() {
    let mut batch: LogContainer<&str, usize> = LogContainer::new(100, 3);
    let calls = RefCell::new(0);
    batch.push(100, "a", |_| *calls.borrow_mut() += 1);
    batch.push(150, "b", |_| *calls.borrow_mut() += 1);
    batch.push(100 + u32::MAX as u128, "c", |_| *calls.borrow_mut() += 1);
    assert_eq!(*calls.borrow(), 0);
    assert_eq!(batch.time, 100);
    assert_eq!(batch.worker, 3);
    assert_eq!(batch.entries, vec![(0, "a"), (50, "b"), (u32::MAX, "c")]);
}

#[test]
fn container_starts_again_when_the_time_is_out_of_range() {
    let mut batch: LogContainer<&str, usize> = LogContainer::new(100, 0);
    batch.push(120, "a", |_| {});
    let seen = RefCell::new(Vec::new());
    batch.push(120 + u32::MAX as u128 + 1, "late", |full| seen.borrow_mut().push(full.entries.clone()));
    assert_eq!(*seen.borrow(), vec![vec![(20, "a")]]);
    assert_eq!(batch.time, 120 + u32::MAX as u128 + 1);
    assert_eq!(batch.entries, vec![(0, "late")]);
    batch.push(5, "early", |full| seen.borrow_mut().push(full.entries.clone()));
    assert_eq!(seen.borrow().len(), 2);
    assert_eq!(batch.time, 5);
    assert_eq!(batch.entries, vec![(0, "early")]);
}

#[test]
fn container_flushes_when_full() {
    // (u32, u64) takes 16 bytes, so a buffer holds 512 events.
    let mut batch: LogContainer<u64, usize> = LogContainer::new(0, 0);
    let flushed = RefCell::new(Vec::new());
    for event in 0..512u64 {
        batch.push(event as u128, event, |full| flushed.borrow_mut().push(full.entries.len()));
    }
    assert!(flushed.borrow().is_empty());
    assert_eq!(batch.entries.len(), 512);
    batch.push(600, 512, |full| flushed.borrow_mut().push(full.entries.len()));
    assert_eq!(*flushed.borrow(), vec![512]);
    assert_eq!(batch.time, 600);
    assert_eq!(batch.entries, vec![(0, 512)]);
}

#[test]
fn container_take_iter_and_drain() {
    let mut batch: LogContainer<char, u8> = LogContainer::new(1000, 7);
    batch.push(1000, 'a', |_| {});
    batch.push(1010, 'b', |_| {});
    batch.push(1020, 'c', |_| {});
    batch.push(1030, 'd', |_| {});
    assert_eq!(
        batch.iter(),
        vec![(1000, 7, &'a'), (1010, 7, &'b'), (1020, 7, &'c'), (1030, 7, &'d')]
    );
    assert_eq!(batch.drain(1, 3), vec![(1010, 7, 'b'), (1020, 7, 'c')]);
    assert_eq!(batch.entries, vec![(0, 'a'), (30, 'd')]);
    assert_eq!(batch.drain(2, 2), vec![]);
    let taken = batch.take();
    assert_eq!(taken.time, 1000);
    assert_eq!(taken.worker, 7);
    assert_eq!(taken.entries, vec![(0, 'a'), (30, 'd')]);
    assert_eq!(batch.time, 1000);
    assert!(batch.entries.is_empty());
}

#[test]
fn container_is_a_container() {
    let mut batch: LogContainer<u8, usize> = LogContainer::new(5, 1);
    assert!(Container::is_empty(&batch));
    batch.push(5, 1, |_| {});
    batch.push(6, 2, |_| {});
    assert_eq!(Container::len(&batch), 2);
    let copy = Vec::<(u32, u8)>::new().assemble(RefOrMut::Ref(&batch));
    assert_eq!(copy.time, 5);
    assert_eq!(copy.worker, 1);
    assert_eq!(copy.entries, vec![(0, 1), (1, 2)]);
    let moved = <Vec<(u32, u8)> as IntoAllocated<LogContainer<u8, usize>>>::assemble_new(RefOrMut::Mut(&mut batch));
    assert_eq!(moved.entries, vec![(0, 1), (1, 2)]);
    assert!(batch.entries.is_empty());
    assert!(moved.hollow().is_empty());
}

#[test]
fn logger_buffers_until_flushed() {
    let seen: Seen = RefCell::new(Vec::new());
    let mut logger = Logger::new(Instant::now(), 0, 0usize, record(&seen));
    logger.log_many_at(10, vec![1, 2]);
    logger.log_many_at(25, vec![3]);
    assert!(seen.borrow().is_empty());
    logger.flush_at(30);
    assert_eq!(*seen.borrow(), vec![(30, 10, vec![(0, 1), (0, 2), (15, 3)])]);
    logger.flush_at(40);
    assert_eq!(seen.borrow().len(), 2);
    assert_eq!(seen.borrow()[1], (40, 40, vec![]));
}

#[test]
fn logger_rebases_when_the_offset_does_not_fit() {
    let seen: Seen = RefCell::new(Vec::new());
    let mut logger = Logger::new(Instant::now(), 0, 0usize, record(&seen));
    logger.log_many_at(1_000, vec![1]);
    let far = 1_000 + u32::MAX as u128 + 1;
    logger.log_many_at(far, vec![2, 3]);
    assert_eq!(*seen.borrow(), vec![(far, 1_000, vec![(0, 1)])]);
    logger.flush_at(far + 1);
    assert_eq!(seen.borrow()[1], (far + 1, far, vec![(0, 2), (0, 3)]));
}

#[test]
fn logger_flushes_a_full_buffer_and_the_rest_at_the_end() {
    let seen: Seen = RefCell::new(Vec::new());
    let mut logger = Logger::new(Instant::now(), 0, 0usize, record(&seen));
    for event in 0..512u64 {
        logger.log_many_at(event as u128, vec![event]);
    }
    assert!(seen.borrow().is_empty());
    logger.log_many_at(512, vec![512]);
    assert_eq!(seen.borrow().len(), 1);
    assert_eq!(seen.borrow()[0].2.len(), 512);
    logger.finish();
    assert_eq!(seen.borrow().len(), 2);
    assert_eq!(seen.borrow()[1].2, vec![(0, 512)]);
    logger.finish();
    assert_eq!(seen.borrow().len(), 2);
}

#[test]
fn logger_stamps_with_the_clock() {
    let seen: Seen = RefCell::new(Vec::new());
    let mut logger = Logger::new(Instant::now(), 1_000_000_000_000, 0usize, record(&seen));
    logger.log(1);
    logger.log_many(vec![2, 3]);
    logger.flush();
    let seen = seen.borrow();
    assert_eq!(seen.len(), 1);
    let (at, base, entries) = &seen[0];
    assert!(*base >= 1_000_000_000_000);
    assert!(*at >= *base);
    assert_eq!(entries.len(), 3);
    assert_eq!(entries[0], (0, 1));
    assert!(entries[1].0 <= entries[2].0);
    assert_eq!(entries[1].0, entries[2].0);
    assert_eq!((entries[1].1, entries[2].1), (2, 3));
}

#[test]
fn times_never_decrease_while_the_clock_does_not_run_backwards() {
    let seen: Seen = RefCell::new(Vec::new());
    let mut inner = LoggerInner::new(Instant::now(), 0, 0usize, record(&seen));
    let mut now = 0u128;
    for round in 0..2000u64 {
        now += (round as u128 % 7) * 1_000_000_000;
        inner.log_many_at(now, vec![round, round]);
    }
    inner.flush_at(now);
    let mut stamps = Vec::new();
    for (_, base, entries) in seen.borrow().iter() {
        for (offset, _) in entries {
            stamps.push(base + *offset as u128);
        }
    }
    assert_eq!(stamps.len(), 4000);
    assert!(stamps.windows(2).all(|pair| pair[0] <= pair[1]));
    assert!(!inner.is_empty() || seen.borrow().len() > 1);
}

#[test]
fn registry_binds_names_to_loggers() {
    let seen: Seen = RefCell::new(Vec::new());
    let mut registry = Registry::new(Instant::now(), 3usize);
    assert!(registry.get("timely").is_none());
    assert!(registry.insert("timely", record(&seen)).is_none());
    assert!(registry.insert("other", record(&seen)).is_none());
    assert!(registry.get("timely").is_some());
    assert!(registry.get("missing").is_none());
    let mut first = registry.insert("timely", record(&seen)).expect("the logger bound before");
    first.log_many_at(5, vec![1]);
    first.flush_at(6);
    assert_eq!(*seen.borrow(), vec![(6, 5, vec![(0, 1)])]);
    assert!(registry.remove("missing").is_none());
    assert!(registry.remove("other").is_some());
    assert!(registry.get("other").is_none());
    assert!(registry.get("timely").is_some());
    registry.flush();
    assert_eq!(seen.borrow().len(), 2);
    assert!(seen.borrow()[1].2.is_empty());
    assert!(registry.remove("timely").is_some());
    registry.flush();
    assert_eq!(seen.borrow().len(), 2);
}

#[test]
fn registry_keeps_a_logger_that_is_put_in() {
    let seen: Seen = RefCell::new(Vec::new());
    let mut registry = Registry::new(Instant::now(), 0usize);
    let mut logger = Logger::new(Instant::now(), 0, 0usize, record(&seen));
    logger.log_many_at(0, vec![42]);
    assert!(registry.insert_logger("mine", logger).is_none());
    assert!(registry.log_many("mine", vec![43, 44]));
    assert!(!registry.log_many("yours", vec![45]));
    registry.flush();
    assert_eq!(seen.borrow().len(), 1);
    let events: Vec<u64> = seen.borrow()[0].2.iter().map(|entry| entry.1).collect();
    assert_eq!(events, vec![42, 43, 44]);
}
