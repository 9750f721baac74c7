//! Exchange records between workers.

use vstd::prelude::*;
use crate::channels::pushers::exchange::{hashes, target_of};
use crate::partition::routed;

verus! {

/// Exchange records between workers.
pub trait Exchange<D>: Sized {
    /// The records held, in order.
    spec fn records(&self) -> Seq<D>;

    /// Exchange records between workers.
    ///
    /// The closure supplied should map a reference to a record to a `u64`,
    /// whose value determines to which of `peers` workers the record will
    /// be routed. The records come back in one batch for each worker, in
    /// the order they had.
    fn exchange<F: Fn(&D) -> u64>(self, route: F, peers: usize) -> (batches: Vec<Vec<D>>)
        requires
            peers > 0,
            forall|record: &D| call_requires(route, (record,)),
        ensures
            batches@.len() == peers,
            forall|hash: spec_fn(D) -> u64, worker: int|
                hashes(route, hash) && 0 <= worker < peers ==> batches@[worker]@ == #[trigger] routed(
                    self.records(),
                    target_of(hash, peers as nat),
                    worker as usize,
                ),
    ;
}

impl<D> Exchange<D> for Vec<D> {
    open spec fn records(&self) -> Seq<D> {
        self@
    }

    fn exchange<F: Fn(&D) -> u64>(self, route: F, peers: usize) -> (batches: Vec<Vec<D>>) {
        let mut batches: Vec<Vec<D>> = Vec::new();
        let mut worker: usize = 0;
        while worker < peers
            invariant
                worker <= peers,
                batches@.len() == worker,
                forall|i: int| 0 <= i < worker ==> (#[trigger] batches@[i])@ == Seq::<D>::empty(),
            decreases peers - worker,
        {
            batches.push(Vec::new());
            worker += 1;
        }
        let ghost all = self@;
        proof {
            assert(all.take(0) =~= Seq::<D>::empty());
        }
        for record in it: self
            invariant
                it.seq() == all,
                peers > 0,
                batches@.len() == peers,
                forall|record: &D| call_requires(route, (record,)),
                forall|hash: spec_fn(D) -> u64, worker: int|
                    hashes(route, hash) && 0 <= worker < peers ==> batches@[worker]@
                        == #[trigger] routed(
                        all.take(it.index()),
                        target_of(hash, peers as nat),
                        worker as usize,
                    ),
        {
            let ghost position = it.index();
            let ghost before = batches@;
            assert(record == all[position]);
            let value: u64 = route(&record);
            let target: usize = (value % (peers as u64)) as usize;
            batches[target].push(record);
            proof {
                assert(all.take(position + 1).drop_last() =~= all.take(position));
                assert(all.take(position + 1).last() == record);
                assert forall|hash: spec_fn(D) -> u64, worker: int|
                    hashes(route, hash) && 0 <= worker < peers implies batches@[worker]@
                    == #[trigger] routed(
                    all.take(position + 1),
                    target_of(hash, peers as nat),
                    worker as usize,
                ) by {
                    assert(value == hash(record));
                    assert(target_of(hash, peers as nat)(record) == target);
                    assert(before[worker]@ == routed(
                        all.take(position),
                        target_of(hash, peers as nat),
                        worker as usize,
                    ));
                    if worker != target {
                        assert(batches@[worker] == before[worker]);
                    }
                }
            }
        }
        proof {
            assert(all.take(all.len() as int) =~= all);
        }
        batches
    }
}

} // verus!
