//! The partition primitive: draining a container into per-target buffers.

use vstd::prelude::*;
use crate::container::{Container, PushContainer};

verus! {

/// The receiver of buffers that the partition primitive has filled.
pub trait FlushBuffer<C: Container> {
    /// What stays as it is about the receiver, whatever it is handed.
    type Setting;

    /// What stays as it is about the receiver, whatever it is handed.
    spec fn setting(&self) -> Self::Setting;

    /// What the receiver needs to hold between calls.
    spec fn inv(&self) -> bool;

    /// The number of targets the receiver serves.
    spec fn width(&self) -> nat;

    /// Every buffer handed over so far with its target, oldest first.
    spec fn flushed(&self) -> Seq<(usize, C)>;

    /// Takes the contents of `buffer` for target `index` and leaves the
    /// buffer empty.
    fn flush(&mut self, index: usize, buffer: &mut C)
        requires
            old(self).inv(),
            index < old(self).width(),
        ensures
            final(self).inv(),
            final(self).width() == old(self).width(),
            final(self).setting() == old(self).setting(),
            final(self).flushed() == old(self).flushed().push((index, *old(buffer))),
            final(buffer).spec_len() == 0,
    ;
}

/// The records of `items` that `route` sends to `target`, in their order.
pub open spec fn routed<T>(items: Seq<T>, route: spec_fn(T) -> usize, target: usize) -> Seq<T>
    decreases items.len(),
{
    if items.len() == 0 {
        Seq::empty()
    } else {
        let rest = routed(items.drop_last(), route, target);
        if route(items.last()) == target {
            rest.push(items.last())
        } else {
            rest
        }
    }
}

/// Whether the executable function `index` computes `route`.
pub open spec fn computes<T, I: Fn(&T) -> usize>(index: I, route: spec_fn(T) -> usize) -> bool {
    forall|x: T, r: usize| call_ensures(index, (&x,), r) ==> r == route(x)
}

/// The records handed over for `target`, in the order they were flushed.
pub open spec fn delivered<T, C: PushContainer<T>>(flushed: Seq<(usize, C)>, target: usize) -> Seq<T>
    decreases flushed.len(),
{
    if flushed.len() == 0 {
        Seq::empty()
    } else {
        let rest = delivered(flushed.drop_last(), target);
        if flushed.last().0 == target {
            rest + flushed.last().1.items()
        } else {
            rest
        }
    }
}

/// The records that have reached `target`: those handed over in flushed
/// buffers, then those still waiting in its buffer.
pub open spec fn received<T, C: PushContainer<T>>(
    flushed: Seq<(usize, C)>,
    buffers: Seq<C>,
    target: usize,
) -> Seq<T>
    recommends
        target < buffers.len(),
{
    delivered(flushed, target) + buffers[target as int].items()
}

/// The number of records in all buffers handed over.
pub open spec fn flushed_count<T, C: PushContainer<T>>(flushed: Seq<(usize, C)>) -> nat
    decreases flushed.len(),
{
    if flushed.len() == 0 {
        0
    } else {
        flushed_count(flushed.drop_last()) + flushed.last().1.items().len()
    }
}

/// The number of records waiting in `buffers`.
pub open spec fn buffered_count<T, C: PushContainer<T>>(buffers: Seq<C>) -> nat
    decreases buffers.len(),
{
    if buffers.len() == 0 {
        0
    } else {
        buffered_count(buffers.drop_last()) + buffers.last().items().len()
    }
}

/// Whether `batch` is a buffer that was handed over because it was full: it
/// is for one of the targets and holds the preferred capacity of records at
/// least, and exactly that many where the buffer of the target was short of
/// it at the start.
pub open spec fn full_batch<T, C: PushContainer<T>>(start: Seq<C>, batch: (usize, C)) -> bool {
    &&& batch.0 < start.len()
    &&& batch.1.items().len() >= C::spec_preferred_capacity()
    &&& start[batch.0 as int].items().len() < C::spec_preferred_capacity() ==> batch.1.items().len()
        == C::spec_preferred_capacity()
}

/// No buffer holds more records than all buffers together.
pub proof fn lemma_buffer_within_count<T, C: PushContainer<T>>(buffers: Seq<C>, index: int)
    requires
        0 <= index < buffers.len(),
    ensures
        buffers[index].items().len() <= buffered_count(buffers),
    decreases buffers.len(),
{
    if index < buffers.len() - 1 {
        lemma_buffer_within_count(buffers.drop_last(), index);
    }
}

/// A container that can partition itself into pieces.
pub trait PushPartitioned<T>: PushContainer<T> {
    /// Partition and push this container.
    ///
    /// Drains all records from `self` and appends each to the buffer that
    /// `index` names for it. A buffer is handed to `flush` when it has
    /// reached the preferred capacity, and only then: while all records that
    /// wait are fewer than that, nothing is handed over. No record is lost
    /// or made twice, and under an
    /// `index` that computes a function every record reaches the target the
    /// function names, behind the records that reached it before.
    fn push_partitioned<I, F>(&mut self, buffers: &mut Vec<Self>, index: I, flush: &mut F) where
        I: Fn(&T) -> usize,
        F: FlushBuffer<Self>,

        requires
            old(flush).inv(),
            old(flush).width() == old(buffers)@.len(),
            forall|i: int|
                0 <= i < old(self).items().len() ==> call_requires(
                    index,
                    (&#[trigger] old(self).items()[i],),
                ),
            forall|i: int, r: usize|
                0 <= i < old(self).items().len() && call_ensures(
                    index,
                    (&#[trigger] old(self).items()[i],),
                    r,
                ) ==> r < old(buffers)@.len(),
        ensures
            final(self).items().len() == 0,
            final(buffers)@.len() == old(buffers)@.len(),
            final(flush).inv(),
            final(flush).width() == old(flush).width(),
            final(flush).setting() == old(flush).setting(),
            old(flush).flushed().is_prefix_of(final(flush).flushed()),
            flushed_count(final(flush).flushed()) + buffered_count(final(buffers)@)
                == flushed_count(old(flush).flushed()) + buffered_count(old(buffers)@)
                + old(self).items().len(),
            forall|route: spec_fn(T) -> usize, target: usize|
                computes(index, route) && target < old(buffers)@.len() ==> received(
                    final(flush).flushed(),
                    final(buffers)@,
                    target,
                ) == received(old(flush).flushed(), old(buffers)@, target) + #[trigger] routed(
                    old(self).items(),
                    route,
                    target,
                ),
            forall|target: int|
                0 <= target < old(buffers)@.len() && old(buffers)@[target].items().len()
                    < <Self as PushContainer<T>>::spec_preferred_capacity()
                    ==> (#[trigger] final(buffers)@[target]).items().len()
                    < <Self as PushContainer<T>>::spec_preferred_capacity(),
            forall|k: int|
                old(flush).flushed().len() <= k < final(flush).flushed().len() ==> full_batch(
                    old(buffers)@,
                    #[trigger] final(flush).flushed()[k],
                ),
            buffered_count(old(buffers)@) + old(self).items().len()
                < <Self as PushContainer<T>>::spec_preferred_capacity() ==> final(flush).flushed()
                == old(flush).flushed(),
            buffered_count(old(buffers)@) + old(self).items().len()
                < <Self as PushContainer<T>>::spec_preferred_capacity() ==> forall|
                route: spec_fn(T) -> usize,
                target: usize,
            |
                computes(index, route) && target < old(buffers)@.len() ==> final(buffers)@[target as int].items() == old(buffers)@[target as int].items()
                    + #[trigger] routed(old(self).items(), route, target),
    ;
}

impl<T: Clone> PushPartitioned<T> for Vec<T> {
    fn push_partitioned<I, F>(&mut self, buffers: &mut Vec<Self>, index: I, flush: &mut F) where
        I: Fn(&T) -> usize,
        F: FlushBuffer<Self>,
    {
        let mut drained: Vec<T> = Vec::new();
        std::mem::swap(self, &mut drained);
        let desired: usize = <Vec<T> as PushContainer<T>>::preferred_capacity();
        let ghost all = drained@;
        proof {
            assert(all.take(0) =~= Seq::<T>::empty());
            assert(all == old(self).items());
            assert forall|i: int| 0 <= i < all.len() implies call_requires(
                index,
                (&#[trigger] all[i],),
            ) by {
                assert(all[i] == old(self).items()[i]);
            }
            assert forall|i: int, r: usize|
                0 <= i < all.len() && call_ensures(index, (&#[trigger] all[i],), r) implies r
                < buffers@.len() by {
                assert(all[i] == old(self).items()[i]);
            }
        }
        for datum in it: drained
            invariant
                it.seq() == all,
                all == old(self)@,
                self@.len() == 0,
                desired == <Vec<T> as PushContainer<T>>::spec_preferred_capacity(),
                buffers@.len() == old(buffers)@.len(),
                flush.inv(),
                flush.width() == old(flush).width(),
                flush.setting() == old(flush).setting(),
                flush.width() == buffers@.len(),
                forall|i: int| 0 <= i < all.len() ==> call_requires(index, (&#[trigger] all[i],)),
                forall|i: int, r: usize|
                    0 <= i < all.len() && call_ensures(index, (&#[trigger] all[i],), r) ==> r
                        < buffers@.len(),
                old(flush).flushed().is_prefix_of(flush.flushed()),
                forall|k: int|
                    old(flush).flushed().len() <= k < flush.flushed().len() ==> full_batch(
                        old(buffers)@,
                        #[trigger] flush.flushed()[k],
                    ),
                buffered_count(old(buffers)@) + all.len() < desired ==> flush.flushed() == old(flush).flushed(),
                flushed_count(flush.flushed()) + buffered_count(buffers@) == flushed_count(
                    old(flush).flushed(),
                ) + buffered_count(old(buffers)@) + it.index(),
                forall|route: spec_fn(T) -> usize, target: usize|
                    computes(index, route) && target < buffers@.len() ==> received(
                        flush.flushed(),
                        buffers@,
                        target,
                    ) == received(old(flush).flushed(), old(buffers)@, target)
                        + #[trigger] routed(all.take(it.index()), route, target),
                forall|target: int|
                    0 <= target < buffers@.len() && old(buffers)@[target]@.len() < desired ==> (
                    #[trigger] buffers@[target])@.len() < desired,
        {
            let ghost before = buffers@;
            let ghost handed = flush.flushed();
            let ghost position = it.index();
            assert(datum == all[position]);
            let target: usize = index(&datum);
            let capacity: usize = <Vec<T> as PushContainer<T>>::capacity(&buffers[target]);
            if capacity < desired {
                buffers[target].reserve(desired - capacity);
            }
            buffers[target].push(datum);
            let ghost filled = buffers@;
            assert(filled.len() == before.len());
            assert(filled[target as int]@ == before[target as int]@.push(datum));
            assert(forall|j: int| 0 <= j < before.len() && j != target ==> filled[j] == before[j]);
            if buffers[target].len() >= desired {
                proof {
                    lemma_buffer_within_count::<T, Vec<T>>(filled, target as int);
                    lemma_buffered_count_update::<T, Vec<T>>(
                        before,
                        target as int,
                        filled[target as int],
                    );
                    assert(filled =~= before.update(target as int, filled[target as int]));
                }
                flush.flush(target, &mut buffers[target]);
                assert(flush.flushed().drop_last() =~= handed);
                assert(flush.flushed().last() == (target, filled[target as int]));
                assert(forall|j: int|
                    0 <= j < before.len() && j != target ==> buffers@[j] == filled[j]);
            }
            proof {
                assert(stepped(handed, before, flush.flushed(), buffers@, target, datum));
                assert(all.take(position + 1).drop_last() =~= all.take(position));
                assert(all.take(position + 1).last() == datum);
                lemma_partition_count(handed, before, flush.flushed(), buffers@, target, datum);
                assert forall|route: spec_fn(T) -> usize, other: usize|
                    computes(index, route) && other < buffers@.len() implies received(
                    flush.flushed(),
                    buffers@,
                    other,
                ) == received(old(flush).flushed(), old(buffers)@, other) + #[trigger] routed(
                    all.take(position + 1),
                    route,
                    other,
                ) by {
                    assert(route(datum) == target);
                    lemma_partition_step(
                        handed,
                        before,
                        flush.flushed(),
                        buffers@,
                        target,
                        datum,
                        other,
                    );
                    let earlier = routed(all.take(position), route, other);
                    let start = received(old(flush).flushed(), old(buffers)@, other);
                    assert(received(handed, before, other) == start + earlier);
                    if other == target {
                        assert((start + earlier).push(datum) =~= start + earlier.push(datum));
                    }
                }
            }
        }
        proof {
            assert(all.take(all.len() as int) =~= all);
            if buffered_count(old(buffers)@) + all.len() < desired {
                assert forall|route: spec_fn(T) -> usize, target: usize|
                    computes(index, route) && target < old(buffers)@.len() implies buffers@[target as int]@
                    == old(buffers)@[target as int]@ + #[trigger] routed(all, route, target) by {
                    let sent = delivered::<T, Vec<T>>(flush.flushed(), target);
                    assert(received(flush.flushed(), buffers@, target) == received(
                        old(flush).flushed(),
                        old(buffers)@,
                        target,
                    ) + routed(all, route, target));
                    assert((sent + old(buffers)@[target as int]@) + routed(all, route, target)
                        =~= sent + (old(buffers)@[target as int]@ + routed(all, route, target)));
                    lemma_same_tail(
                        sent,
                        buffers@[target as int]@,
                        old(buffers)@[target as int]@ + routed(all, route, target),
                    );
                }
            }
        }
    }
}

/// Two sequences are the same where they are the same behind the same
/// start.
pub proof fn lemma_same_tail<T>(start: Seq<T>, first: Seq<T>, second: Seq<T>)
    requires
        start + first == start + second,
    ensures
        first == second,
{
    let whole = start + first;
    let other = start + second;
    assert(whole.len() == start.len() + first.len());
    assert(other.len() == start.len() + second.len());
    assert forall|i: int| 0 <= i < first.len() implies first[i] == second[i] by {
        assert(whole[start.len() + i] == first[i]);
        assert(other[start.len() + i] == second[i]);
    }
    assert(first =~= second);
}

/// One step of the partition primitive: `datum` is appended to the buffer of
/// `target`, and the buffer is then either kept or handed over whole.
pub open spec fn stepped<T, C: PushContainer<T>>(
    handed: Seq<(usize, C)>,
    before: Seq<C>,
    handed_after: Seq<(usize, C)>,
    after: Seq<C>,
    target: usize,
    datum: T,
) -> bool {
    &&& target < before.len()
    &&& after.len() == before.len()
    &&& forall|j: int| 0 <= j < before.len() && j != target ==> after[j] == before[j]
    &&& {
        ||| handed_after == handed && after[target as int].items()
            == before[target as int].items().push(datum)
        ||| handed_after.len() == handed.len() + 1 && handed_after.drop_last() == handed
            && handed_after.last().0 == target && handed_after.last().1.items()
            == before[target as int].items().push(datum) && after[target as int].items().len()
            == 0
    }
}

/// Replacing one buffer changes the number of waiting records by the
/// difference of the two lengths.
pub proof fn lemma_buffered_count_update<T, C: PushContainer<T>>(
    buffers: Seq<C>,
    index: int,
    buffer: C,
)
    requires
        0 <= index < buffers.len(),
    ensures
        buffered_count(buffers.update(index, buffer)) + buffers[index].items().len()
            == buffered_count(buffers) + buffer.items().len(),
    decreases buffers.len(),
{
    let updated = buffers.update(index, buffer);
    if index == buffers.len() - 1 {
        assert(updated.drop_last() =~= buffers.drop_last());
    } else {
        lemma_buffered_count_update(buffers.drop_last(), index, buffer);
        assert(updated.drop_last() =~= buffers.drop_last().update(index, buffer));
    }
}

/// What one step of the partition primitive does to the records that have
/// reached target `other`: the record is added where `other` is its target.
pub proof fn lemma_partition_step<T, C: PushContainer<T>>(
    handed: Seq<(usize, C)>,
    before: Seq<C>,
    handed_after: Seq<(usize, C)>,
    after: Seq<C>,
    target: usize,
    datum: T,
    other: usize,
)
    requires
        stepped(handed, before, handed_after, after, target, datum),
        other < before.len(),
    ensures
        received(handed_after, after, other) == if other == target {
            received(handed, before, other).push(datum)
        } else {
            received(handed, before, other)
        },
{
    if handed_after == handed {
        if other == target {
            assert(delivered(handed, other) + before[other as int].items().push(datum) =~= (
            delivered(handed, other) + before[other as int].items()).push(datum));
        }
    } else {
        let full = handed_after.last().1;
        assert(handed_after.drop_last() =~= handed);
        if other == target {
            assert(delivered(handed, other) + full.items() + after[other as int].items() =~= (
            delivered(handed, other) + before[other as int].items()).push(datum));
        }
    }
}

/// One step of the partition primitive adds one record to those flushed or
/// waiting.
pub proof fn lemma_partition_count<T, C: PushContainer<T>>(
    handed: Seq<(usize, C)>,
    before: Seq<C>,
    handed_after: Seq<(usize, C)>,
    after: Seq<C>,
    target: usize,
    datum: T,
)
    requires
        stepped(handed, before, handed_after, after, target, datum),
    ensures
        flushed_count(handed_after) + buffered_count(after) == flushed_count(handed)
            + buffered_count(before) + 1,
{
    assert(after =~= before.update(target as int, after[target as int]));
    lemma_buffered_count_update(before, target as int, after[target as int]);
    if handed_after != handed {
        assert(handed_after.drop_last() =~= handed);
    }
}

/// The number of records of `items` that `route` sends to the first
/// `targets` targets.
pub open spec fn routed_total<T>(items: Seq<T>, route: spec_fn(T) -> usize, targets: usize) -> nat
    decreases targets,
{
    if targets == 0 {
        0
    } else {
        routed_total(items, route, (targets - 1) as usize) + routed(
            items,
            route,
            (targets - 1) as usize,
        ).len()
    }
}

/// Partition correctness: the records that reach `target` are records of
/// `items` that `route` sends there, in the order they have in `items`; no
/// record that `route` sends elsewhere is among them.
pub proof fn lemma_routed_belong<T>(items: Seq<T>, route: spec_fn(T) -> usize, target: usize)
    ensures
        routed(items, route, target).len() <= items.len(),
        forall|j: int|
            0 <= j < routed(items, route, target).len() ==> route(
                #[trigger] routed(items, route, target)[j],
            ) == target && items.contains(routed(items, route, target)[j]),
        forall|i: int|
            0 <= i < items.len() && route(items[i]) == target ==> routed(
                items,
                route,
                target,
            ).contains(#[trigger] items[i]),
    decreases items.len(),
{
    if items.len() > 0 {
        let shorter = items.drop_last();
        lemma_routed_belong(shorter, route, target);
        let rest = routed(shorter, route, target);
        let all = routed(items, route, target);
        assert forall|j: int| 0 <= j < all.len() implies route(#[trigger] all[j]) == target
            && items.contains(all[j]) by {
            if j < rest.len() {
                assert(all[j] == rest[j]);
                let i = choose|i: int| 0 <= i < shorter.len() && shorter[i] == rest[j];
                assert(items[i] == rest[j]);
            } else {
                assert(all[j] == items.last());
                assert(items[items.len() - 1] == all[j]);
            }
        }
        assert forall|i: int| 0 <= i < items.len() && route(items[i]) == target implies all.contains(
            #[trigger] items[i],
        ) by {
            if i < shorter.len() {
                assert(shorter[i] == items[i]);
                let j = choose|j: int| 0 <= j < rest.len() && rest[j] == shorter[i];
                assert(all[j] == items[i]);
            } else {
                assert(all[all.len() - 1] == items[i]);
            }
        }
    }
}

/// One more record adds one to the count of the targets that include its
/// own, and nothing to the count of those that do not.
proof fn lemma_routed_total_push<T>(items: Seq<T>, route: spec_fn(T) -> usize, targets: usize)
    requires
        items.len() > 0,
    ensures
        routed_total(items, route, targets) == routed_total(items.drop_last(), route, targets)
            + if route(items.last()) < targets {
            1nat
        } else {
            0nat
        },
    decreases targets,
{
    if targets > 0 {
        lemma_routed_total_push(items, route, (targets - 1) as usize);
    }
}

/// Sum preservation: where every record has one of `targets` targets, the
/// records that reach the targets are as many as the records of `items`.
pub proof fn lemma_routed_total<T>(items: Seq<T>, route: spec_fn(T) -> usize, targets: usize)
    requires
        forall|i: int| 0 <= i < items.len() ==> route(#[trigger] items[i]) < targets,
    ensures
        routed_total(items, route, targets) == items.len(),
    decreases items.len(),
{
    if items.len() == 0 {
        lemma_routed_total_empty(items, route, targets);
    } else {
        let shorter = items.drop_last();
        assert forall|i: int| 0 <= i < shorter.len() implies route(#[trigger] shorter[i])
            < targets by {
            assert(shorter[i] == items[i]);
        }
        lemma_routed_total(shorter, route, targets);
        lemma_routed_total_push(items, route, targets);
        assert(items.last() == items[items.len() - 1]);
    }
}

/// No records reach any target where there are none.
proof fn lemma_routed_total_empty<T>(items: Seq<T>, route: spec_fn(T) -> usize, targets: usize)
    requires
        items.len() == 0,
    ensures
        routed_total(items, route, targets) == 0,
    decreases targets,
{
    if targets > 0 {
        lemma_routed_total_empty(items, route, (targets - 1) as usize);
    }
}

} // verus!
