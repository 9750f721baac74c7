//! Merges the contents of multiple batches.

use vstd::prelude::*;

verus! {

/// The records of all `batches`, one batch after the other.
pub open spec fn joined<D>(batches: Seq<Vec<D>>) -> Seq<D>
    decreases batches.len(),
{
    if batches.len() == 0 {
        Seq::empty()
    } else {
        joined(batches.drop_last()) + batches.last()@
    }
}

/// Merge the contents of two batches.
pub trait Concat<D>: Sized {
    /// The records held, in order.
    spec fn records(&self) -> Seq<D>;

    /// Merge the contents of two batches: the records of `self`, then those
    /// of `other`.
    fn concat(self, other: Self) -> (merged: Self)
        ensures
            merged.records() == self.records() + other.records(),
    ;
}

impl<D> Concat<D> for Vec<D> {
    open spec fn records(&self) -> Seq<D> {
        self@
    }

    fn concat(self, other: Self) -> (merged: Self) {
        let mut merged = self;
        let mut other = other;
        merged.append(&mut other);
        merged
    }
}

/// Merge the contents of multiple batches.
pub trait Concatenate<D>: Sized {
    /// The records held, in order.
    spec fn spec_records(&self) -> Seq<D>;

    /// Merge the contents of multiple batches: the records of `self`, then
    /// those of each of `sources` in turn.
    fn concatenate(self, sources: Vec<Vec<D>>) -> (merged: Self)
        ensures
            merged.spec_records() == self.spec_records() + joined(sources@),
    ;
}

impl<D> Concatenate<D> for Vec<D> {
    open spec fn spec_records(&self) -> Seq<D> {
        self@
    }

    fn concatenate(self, sources: Vec<Vec<D>>) -> (merged: Self) {
        let mut merged = self;
        let ghost first = merged@;
        let ghost all = sources@;
        proof {
            assert(all.take(0) =~= Seq::<Vec<D>>::empty());
            assert(first + joined(all.take(0)) =~= first);
        }
        for source in it: sources
            invariant
                it.seq() == all,
                merged@ == first + joined(all.take(it.index())),
        {
            let ghost position = it.index();
            assert(source == all[position]);
            let mut source = source;
            let ghost records = source@;
            merged.append(&mut source);
            proof {
                assert(all.take(position + 1).drop_last() =~= all.take(position));
                assert(all.take(position + 1).last() == all[position]);
                assert(first + joined(all.take(position)) + records =~= first + (joined(
                    all.take(position),
                ) + records));
            }
        }
        proof {
            assert(all.take(all.len() as int) =~= all);
        }
        merged
    }
}

} // verus!
