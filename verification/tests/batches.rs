use timely_dataplane::operators::exchange::Exchange;
use timely_dataplane::operators::{Concat, Concatenate, Filter, MapInPlace, MapRecords};

#[test]
fn filter_keeps_the_records_that_satisfy() {
    let batch: Vec<u32> = (0..10).collect();
    assert_eq!(batch.filter(|record| *record % 2 == 0), vec![0, 2, 4, 6, 8]);
    assert_eq!(vec![1, 3, 5].filter(|record: &u32| *record % 2 == 0), Vec::<u32>::new());
    assert_eq!(Vec::<u32>::new().filter(|_| true), Vec::<u32>::new());
    assert_eq!(vec!["b", "a", "b"].filter(|record| *record == "b"), vec!["b", "b"]);
}

#[test]
fn map_yields_one_record_for_each() {
    let batch: Vec<u32> = (0..5).collect();
    assert_eq!(batch.map(|record| record + 1), vec![1, 2, 3, 4, 5]);
    assert_eq!(vec![1u8, 2].map(|record| record.to_string()), vec!["1", "2"]);
}

#[test]
fn flat_map_yields_the_records_of_each_in_turn() {
    let batch: Vec<u32> = (0..4).collect();
    assert_eq!(batch.flat_map(|record| (0..record).collect()), vec![0, 0, 1, 0, 1, 2]);
    assert_eq!(Vec::<u32>::new().flat_map(|record| vec![record]), Vec::<u32>::new());
}

#[test]
fn map_in_place_updates_each_record() {
    let mut batch: Vec<u32> = (0..5).collect();
    batch.map_in_place(|record| record * 10);
    assert_eq!(batch, vec![0, 10, 20, 30, 40]);
}

#[test]
fn concat_puts_one_batch_behind_the_other() {
    assert_eq!(vec![1, 2].concat(vec![3]), vec![1, 2, 3]);
    assert_eq!(Vec::<u8>::new().concat(vec![]), Vec::<u8>::new());
    assert_eq!(vec![1].concatenate(vec![vec![2, 3], vec![], vec![4]]), vec![1, 2, 3, 4]);
    assert_eq!(vec![1].concatenate(vec![]), vec![1]);
}

#[test]
fn exchange_splits_a_batch_by_worker() {
    let batch: Vec<u64> = (0..10).collect();
    assert_eq!(
        batch.exchange(|record| *record, 3),
        vec![vec![0, 3, 6, 9], vec![1, 4, 7], vec![2, 5, 8]]
    );
    let texts = vec!["a".to_string(), "b".to_string(), "c".to_string()];
    assert_eq!(
        texts.clone().exchange(|text| text.len() as u64, 2),
        vec![vec![], texts.clone()]
    );
    assert_eq!(texts.clone().exchange(|_| u64::MAX, 1), vec![texts]);
}
