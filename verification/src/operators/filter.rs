//! Filters the records of a batch by a predicate.

use vstd::prelude::*;

verus! {

/// The records of `items` that `keep` holds of, in their order.
pub open spec fn kept<D>(items: Seq<D>, keep: spec_fn(D) -> bool) -> Seq<D>
    decreases items.len(),
{
    if items.len() == 0 {
        Seq::empty()
    } else {
        let rest = kept(items.drop_last(), keep);
        if keep(items.last()) {
            rest.push(items.last())
        } else {
            rest
        }
    }
}

/// Whether the executable function `predicate` decides `keep`.
pub open spec fn decides<D, P: Fn(&D) -> bool>(predicate: P, keep: spec_fn(D) -> bool) -> bool {
    forall|record: D, answer: bool|
        call_ensures(predicate, (&record,), answer) ==> answer == keep(record)
}

/// Extension trait for filtering.
pub trait Filter<D>: Sized {
    /// The records held, in order.
    spec fn records(&self) -> Seq<D>;

    /// Returns a new instance of `self` containing only records satisfying
    /// `predicate`, in the order they had.
    fn filter<P: Fn(&D) -> bool>(self, predicate: P) -> (filtered: Self)
        requires
            forall|record: &D| call_requires(predicate, (record,)),
        ensures
            filtered.records().len() <= self.records().len(),
            forall|keep: spec_fn(D) -> bool|
                decides(predicate, keep) ==> filtered.records() == #[trigger] kept(
                    self.records(),
                    keep,
                ),
    ;
}

impl<D> Filter<D> for Vec<D> {
    open spec fn records(&self) -> Seq<D> {
        self@
    }

    fn filter<P: Fn(&D) -> bool>(self, predicate: P) -> (filtered: Self) {
        let mut filtered: Vec<D> = Vec::new();
        let ghost all = self@;
        proof {
            assert(all.take(0) =~= Seq::<D>::empty());
        }
        for record in it: self
            invariant
                it.seq() == all,
                forall|record: &D| call_requires(predicate, (record,)),
                filtered@.len() <= it.index(),
                forall|keep: spec_fn(D) -> bool|
                    decides(predicate, keep) ==> filtered@ == #[trigger] kept(
                        all.take(it.index()),
                        keep,
                    ),
        {
            let ghost position = it.index();
            let ghost before = filtered@;
            assert(record == all[position]);
            let answer: bool = predicate(&record);
            if answer {
                filtered.push(record);
            }
            proof {
                assert(all.take(position + 1).drop_last() =~= all.take(position));
                assert(all.take(position + 1).last() == record);
                assert forall|keep: spec_fn(D) -> bool| decides(predicate, keep) implies filtered@
                    == #[trigger] kept(all.take(position + 1), keep) by {
                    assert(answer == keep(record));
                    assert(before == kept(all.take(position), keep));
                }
            }
        }
        proof {
            assert(all.take(all.len() as int) =~= all);
        }
        filtered
    }
}

/// The records that are kept satisfy the predicate and are records of the
/// batch; every record of the batch that satisfies the predicate is kept.
pub proof fn lemma_kept_satisfy<D>(items: Seq<D>, keep: spec_fn(D) -> bool)
    ensures
        kept(items, keep).len() <= items.len(),
        forall|j: int|
            0 <= j < kept(items, keep).len() ==> keep(#[trigger] kept(items, keep)[j])
                && items.contains(kept(items, keep)[j]),
        forall|i: int|
            0 <= i < items.len() && keep(items[i]) ==> kept(items, keep).contains(
                #[trigger] items[i],
            ),
    decreases items.len(),
{
    if items.len() > 0 {
        let shorter = items.drop_last();
        lemma_kept_satisfy(shorter, keep);
        let rest = kept(shorter, keep);
        let all = kept(items, keep);
        assert forall|j: int| 0 <= j < all.len() implies keep(#[trigger] all[j]) && items.contains(
            all[j],
        ) by {
            if j < rest.len() {
                assert(all[j] == rest[j]);
                let i = choose|i: int| 0 <= i < shorter.len() && shorter[i] == rest[j];
                assert(items[i] == rest[j]);
            } else {
                assert(items[items.len() - 1] == all[j]);
            }
        }
        assert forall|i: int| 0 <= i < items.len() && keep(items[i]) implies all.contains(
            #[trigger] items[i],
        ) by {
            if i < shorter.len() {
                assert(shorter[i] == items[i]);
                let j = choose|j: int| 0 <= j < rest.len() && rest[j] == shorter[i];
                assert(all[j] == items[i]);
            } else {
                assert(all[all.len() - 1] == items[i]);
            }
        }
    }
}

} // verus!
