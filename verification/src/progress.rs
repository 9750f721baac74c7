//! The progress state that the data plane writes its counts into.

use vstd::prelude::*;

verus! {

/// A point in the progress domain.
pub trait Timestamp: Copy {
    /// The least timestamp.
    spec fn spec_minimum() -> Self;

    /// The least timestamp.
    fn minimum() -> (least: Self)
        ensures
            least == Self::spec_minimum(),
    ;

    /// Whether two timestamps are the same.
    fn same(&self, other: &Self) -> (same: bool)
        ensures
            same == (*self == *other),
    ;

    /// Whether `self` comes before `other` or is the same.
    spec fn spec_less_equal(&self, other: &Self) -> bool;

    /// Whether `self` comes before `other` or is the same.
    fn less_equal(&self, other: &Self) -> (before: bool)
        ensures
            before == self.spec_less_equal(other),
    ;
}

impl Timestamp for u32 {
    open spec fn spec_minimum() -> Self {
        0
    }

    fn minimum() -> (least: Self) {
        0
    }

    fn same(&self, other: &Self) -> (same: bool) {
        *self == *other
    }

    open spec fn spec_less_equal(&self, other: &Self) -> bool {
        *self <= *other
    }

    fn less_equal(&self, other: &Self) -> (before: bool) {
        *self <= *other
    }
}

impl Timestamp for u64 {
    open spec fn spec_minimum() -> Self {
        0
    }

    fn minimum() -> (least: Self) {
        0
    }

    fn same(&self, other: &Self) -> (same: bool) {
        *self == *other
    }

    open spec fn spec_less_equal(&self, other: &Self) -> bool {
        *self <= *other
    }

    fn less_equal(&self, other: &Self) -> (before: bool) {
        *self <= *other
    }
}

impl Timestamp for usize {
    open spec fn spec_minimum() -> Self {
        0
    }

    fn minimum() -> (least: Self) {
        0
    }

    fn same(&self, other: &Self) -> (same: bool) {
        *self == *other
    }

    open spec fn spec_less_equal(&self, other: &Self) -> bool {
        *self <= *other
    }

    fn less_equal(&self, other: &Self) -> (before: bool) {
        *self <= *other
    }
}

/// A collection of updates of the form `(T, i64)`, in the order they were
/// made. An update that changes nothing is not kept.
pub struct ChangeBatch<T> {
    updates: Vec<(T, i64)>,
}

impl<T> View for ChangeBatch<T> {
    type V = Seq<(T, i64)>;

    closed spec fn view(&self) -> Seq<(T, i64)> {
        self.updates@
    }
}

impl<T> ChangeBatch<T> {
    /// Allocates a new empty `ChangeBatch`.
    pub fn new() -> (batch: Self)
        ensures
            batch@ == Seq::<(T, i64)>::empty(),
    {
        ChangeBatch { updates: Vec::new() }
    }

    /// Adds a new update, for `item` with `value`.
    pub fn update(&mut self, item: T, value: i64)
        ensures
            final(self)@ == if value == 0 {
                old(self)@
            } else {
                old(self)@.push((item, value))
            },
    {
        if value != 0 {
            self.updates.push((item, value));
        }
    }

    /// True iff no update is pending.
    pub fn is_empty(&self) -> (empty: bool)
        ensures
            empty == (self@.len() == 0),
    {
        self.updates.len() == 0
    }

    /// The number of pending updates.
    pub fn len(&self) -> (n: usize)
        ensures
            n == self@.len(),
    {
        self.updates.len()
    }

    /// The pending update at position `i`.
    pub fn get(&self, i: usize) -> (update: &(T, i64))
        requires
            i < self@.len(),
        ensures
            *update == self@[i as int],
    {
        &self.updates[i]
    }

    /// Takes all pending updates out, in order.
    pub fn drain(&mut self) -> (updates: Vec<(T, i64)>)
        ensures
            updates@ == old(self)@,
            final(self)@ == Seq::<(T, i64)>::empty(),
    {
        let mut updates: Vec<(T, i64)> = Vec::new();
        std::mem::swap(&mut self.updates, &mut updates);
        updates
    }

    /// Moves all pending updates behind those of `other`.
    pub fn drain_into(&mut self, other: &mut ChangeBatch<T>)
        ensures
            final(other)@ == old(other)@ + old(self)@,
            final(self)@ == Seq::<(T, i64)>::empty(),
    {
        other.updates.append(&mut self.updates);
    }
}

/// Names a source of a data stream: an output port of an operator.
#[derive(Clone, Copy, Debug, PartialEq, Eq, Structural)]
pub struct Source {
    /// Index of the source operator.
    pub node: usize,
    /// Number of the output port from the operator.
    pub port: usize,
}

impl Source {
    /// Creates a new source from node and port identifiers.
    pub fn new(node: usize, port: usize) -> (source: Self)
        ensures
            source.node == node,
            source.port == port,
    {
        Source { node, port }
    }
}

/// Names a target of a data stream: an input port of an operator.
#[derive(Clone, Copy, Debug, PartialEq, Eq, Structural)]
pub struct Target {
    /// Index of the target operator.
    pub node: usize,
    /// Number of the input port to the operator.
    pub port: usize,
}

impl Target {
    /// Creates a new target from node and port identifiers.
    pub fn new(node: usize, port: usize) -> (target: Self)
        ensures
            target.node == node,
            target.port == port,
    {
        Target { node, port }
    }
}

/// The progress that an operator reports: for each input the changes to
/// its frontier and the counts consumed, for each output the changes to the
/// capabilities held and the counts produced.
pub struct SharedProgress<T> {
    /// Frontier capability changes reported by the system.
    pub frontiers: Vec<ChangeBatch<T>>,
    /// Consumed message changes reported by the operator.
    pub consumeds: Vec<ChangeBatch<T>>,
    /// Internal capability changes reported by the operator.
    pub internals: Vec<ChangeBatch<T>>,
    /// Produced message changes reported by the operator.
    pub produceds: Vec<ChangeBatch<T>>,
}

impl<T> SharedProgress<T> {
    /// Allocates a new shared progress structure without changes.
    pub fn new(inputs: usize, outputs: usize) -> (progress: Self)
        ensures
            progress.frontiers@.len() == inputs,
            progress.consumeds@.len() == inputs,
            progress.internals@.len() == outputs,
            progress.produceds@.len() == outputs,
            forall|i: int| 0 <= i < inputs ==> (#[trigger] progress.frontiers@[i])@.len() == 0,
            forall|i: int| 0 <= i < inputs ==> (#[trigger] progress.consumeds@[i])@.len() == 0,
            forall|i: int| 0 <= i < outputs ==> (#[trigger] progress.internals@[i])@.len() == 0,
            forall|i: int| 0 <= i < outputs ==> (#[trigger] progress.produceds@[i])@.len() == 0,
    {
        SharedProgress {
            frontiers: empty_batches(inputs),
            consumeds: empty_batches(inputs),
            internals: empty_batches(outputs),
            produceds: empty_batches(outputs),
        }
    }
}

/// `count` batches without updates.
fn empty_batches<T>(count: usize) -> (batches: Vec<ChangeBatch<T>>)
    ensures
        batches@.len() == count,
        forall|i: int| 0 <= i < count ==> (#[trigger] batches@[i])@.len() == 0,
{
    let mut batches: Vec<ChangeBatch<T>> = Vec::new();
    let mut made: usize = 0;
    while made < count
        invariant
            made <= count,
            batches@.len() == made,
            forall|i: int| 0 <= i < made ==> (#[trigger] batches@[i])@.len() == 0,
        decreases count - made,
    {
        batches.push(ChangeBatch::new());
        made += 1;
    }
    batches
}

/// What `updates` amount to for `peers` workers: each change counted once
/// for every worker, and left out where that comes to nothing.
pub open spec fn scaled<T>(updates: Seq<(T, i64)>, peers: int) -> Seq<(T, i64)>
    decreases updates.len(),
{
    if updates.len() == 0 {
        Seq::empty()
    } else {
        let rest = scaled(updates.drop_last(), peers);
        let change = updates.last().1 * peers;
        if change == 0 {
            rest
        } else {
            rest.push((updates.last().0, change as i64))
        }
    }
}

/// Whether every change in `updates` is one claim made or one claim given
/// up.
pub open spec fn unit_changes<T>(updates: Seq<(T, i64)>) -> bool {
    forall|i: int| 0 <= i < updates.len() ==> (#[trigger] updates[i]).1 == 1 || updates[i].1 == -1
}

/// Moves the changes of `source` behind those of `target`, each counted
/// once for every one of `peers` workers.
pub fn drain_scaled_into<T>(source: &mut ChangeBatch<T>, target: &mut ChangeBatch<T>, peers: usize)
    requires
        unit_changes(old(source)@),
        peers <= i64::MAX,
    ensures
        final(source)@ == Seq::<(T, i64)>::empty(),
        final(target)@ == old(target)@ + scaled(old(source)@, peers as int),
{
    let factor: i64 = peers as i64;
    let changes: Vec<(T, i64)> = source.drain();
    let ghost all = changes@;
    proof {
        assert(all.take(0) =~= Seq::<(T, i64)>::empty());
        assert(old(target)@ + scaled(all.take(0), peers as int) =~= old(target)@);
    }
    for change in it: changes
        invariant
            it.seq() == all,
            unit_changes(all),
            factor == peers,
            target@ == old(target)@ + scaled(all.take(it.index()), peers as int),
    {
        let ghost position = it.index();
        let ghost before = target@;
        assert(change == all[position]);
        assert(change.1 == 1 || change.1 == -1);
        let amount: i64 = if change.1 == 1 {
            factor
        } else {
            -factor
        };
        assert(amount == change.1 * peers) by (nonlinear_arith)
            requires
                change.1 == 1 || change.1 == -1,
                amount == if change.1 == 1 {
                    peers as int
                } else {
                    -(peers as int)
                },
        ;
        target.update(change.0, amount);
        proof {
            assert(all.take(position + 1).drop_last() =~= all.take(position));
            assert(all.take(position + 1).last() == change);
            let earlier = scaled(all.take(position), peers as int);
            if amount != 0 {
                assert((old(target)@ + earlier).push((change.0, amount)) =~= old(target)@
                    + earlier.push((change.0, amount)));
            }
        }
    }
    proof {
        assert(all.take(all.len() as int) =~= all);
    }
}

/// Capability multiplication: among `peers` workers, with at least one,
/// every claim made or given up by one worker is reported as `peers` claims
/// made or given up, at the same time and in the same order.
pub proof fn lemma_scaled_units<T>(updates: Seq<(T, i64)>, peers: int)
    requires
        unit_changes(updates),
        0 < peers <= i64::MAX,
    ensures
        scaled(updates, peers).len() == updates.len(),
        forall|i: int|
            0 <= i < updates.len() ==> {
                let change = #[trigger] scaled(updates, peers)[i];
                &&& change.0 == updates[i].0
                &&& change.1 == if updates[i].1 == 1 {
                    peers
                } else {
                    -peers
                }
            },
    decreases updates.len(),
{
    if updates.len() > 0 {
        let shorter = updates.drop_last();
        assert(unit_changes(shorter)) by {
            assert forall|i: int| 0 <= i < shorter.len() implies (#[trigger] shorter[i]).1 == 1
                || shorter[i].1 == -1 by {
                assert(shorter[i] == updates[i]);
            }
        }
        lemma_scaled_units(shorter, peers);
        let last = updates.last();
        assert(last == updates[updates.len() - 1]);
        assert(last.1 * peers == if last.1 == 1 {
            peers
        } else {
            -peers
        }) by (nonlinear_arith)
            requires
                last.1 == 1 || last.1 == -1,
        ;
    }
}

} // verus!
