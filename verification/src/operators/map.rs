//! Record-by-record transformation of a batch.

use vstd::prelude::*;

verus! {

/// Extension trait for batches: record-by-record transformation into a new
/// batch.
pub trait MapRecords<D>: Sized {
    /// The records held, in order.
    spec fn records(&self) -> Seq<D>;

    /// Consumes each record of the batch and yields a new record.
    fn map<D2, L: Fn(D) -> D2>(self, logic: L) -> (mapped: Vec<D2>)
        requires
            forall|record: D| call_requires(logic, (record,)),
        ensures
            mapped@.len() == self.records().len(),
            forall|i: int|
                0 <= i < mapped@.len() ==> call_ensures(
                    logic,
                    (self.records()[i],),
                    #[trigger] mapped@[i],
                ),
    ;

    /// Consumes each record of the batch and yields some number of new
    /// records: those of the first record, then those of the second, and so
    /// on.
    fn flat_map<D2, L: Fn(D) -> Vec<D2>>(self, logic: L) -> (mapped: Vec<D2>)
        requires
            forall|record: D| call_requires(logic, (record,)),
        ensures
            exists|yields: Seq<Vec<D2>>|
                {
                    &&& yields.len() == self.records().len()
                    &&& forall|i: int|
                        0 <= i < yields.len() ==> call_ensures(
                            logic,
                            (self.records()[i],),
                            #[trigger] yields[i],
                        )
                    &&& mapped@ == #[trigger] flat(yields)
                },
    ;
}

/// The records of all `yields`, one after the other.
pub open spec fn flat<D>(yields: Seq<Vec<D>>) -> Seq<D>
    decreases yields.len(),
{
    if yields.len() == 0 {
        Seq::empty()
    } else {
        flat(yields.drop_last()) + yields.last()@
    }
}

impl<D> MapRecords<D> for Vec<D> {
    open spec fn records(&self) -> Seq<D> {
        self@
    }

    fn map<D2, L: Fn(D) -> D2>(self, logic: L) -> (mapped: Vec<D2>) {
        let mut mapped: Vec<D2> = Vec::new();
        let ghost all = self@;
        for record in it: self
            invariant
                it.seq() == all,
                forall|record: D| call_requires(logic, (record,)),
                mapped@.len() == it.index(),
                forall|i: int|
                    0 <= i < mapped@.len() ==> call_ensures(logic, (all[i],), #[trigger] mapped@[i]),
        {
            assert(record == all[it.index()]);
            mapped.push(logic(record));
        }
        mapped
    }

    fn flat_map<D2, L: Fn(D) -> Vec<D2>>(self, logic: L) -> (mapped: Vec<D2>) {
        let mut mapped: Vec<D2> = Vec::new();
        let ghost all = self@;
        let ghost yields: Seq<Vec<D2>> = Seq::empty();
        for record in it: self
            invariant
                it.seq() == all,
                forall|record: D| call_requires(logic, (record,)),
                yields.len() == it.index(),
                forall|i: int|
                    0 <= i < yields.len() ==> call_ensures(logic, (all[i],), #[trigger] yields[i]),
                mapped@ == flat(yields),
        {
            assert(record == all[it.index()]);
            let mut more: Vec<D2> = logic(record);
            proof {
                let earlier = yields;
                yields = earlier.push(more);
                assert(yields.drop_last() =~= earlier);
            }
            mapped.append(&mut more);
        }
        mapped
    }
}

/// Extension trait for batches: transformation of the records in place.
pub trait MapInPlace<D> {
    /// The records held, in order.
    spec fn spec_records(&self) -> Seq<D>;

    /// Updates each record of the batch and yields the record in its place.
    fn map_in_place<L: Fn(D) -> D>(&mut self, logic: L)
        requires
            forall|record: D| call_requires(logic, (record,)),
        ensures
            final(self).spec_records().len() == old(self).spec_records().len(),
            forall|i: int|
                0 <= i < old(self).spec_records().len() ==> call_ensures(
                    logic,
                    (old(self).spec_records()[i],),
                    #[trigger] final(self).spec_records()[i],
                ),
    ;
}

impl<D> MapInPlace<D> for Vec<D> {
    open spec fn spec_records(&self) -> Seq<D> {
        self@
    }

    fn map_in_place<L: Fn(D) -> D>(&mut self, logic: L) {
        let mut records: Vec<D> = Vec::new();
        std::mem::swap(self, &mut records);
        let mut mapped: Vec<D> = records.map(logic);
        std::mem::swap(self, &mut mapped);
    }
}

} // verus!
