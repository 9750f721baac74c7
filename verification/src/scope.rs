//! The part of a dataflow graph that one worker builds: the operators it
//! has numbered and the edges between them.

use vstd::prelude::*;
use crate::progress::{Source, Target};

verus! {

/// A scope of a dataflow graph, as one worker sees it.
pub struct Scope {
    address: Vec<usize>,
    index: usize,
    peers: usize,
    operators: usize,
    edges: Vec<(Source, Target)>,
}

impl Scope {
    /// The path from the root of the graph to this scope.
    pub closed spec fn spec_addr(&self) -> Seq<usize> {
        self.address@
    }

    /// The index of the worker.
    pub closed spec fn spec_index(&self) -> usize {
        self.index
    }

    /// The number of workers.
    pub closed spec fn spec_peers(&self) -> usize {
        self.peers
    }

    /// The number of operators numbered so far.
    pub closed spec fn operators(&self) -> usize {
        self.operators
    }

    /// The edges added so far, oldest first.
    pub closed spec fn edges(&self) -> Seq<(Source, Target)> {
        self.edges@
    }

    /// An empty scope at `address`, for worker `index` of `peers`.
    pub fn new(index: usize, peers: usize, address: Vec<usize>) -> (scope: Self)
        ensures
            scope.spec_addr() == address@,
            scope.spec_index() == index,
            scope.spec_peers() == peers,
            scope.operators() == 0,
            scope.edges() == Seq::<(Source, Target)>::empty(),
    {
        Scope { address, index, peers, operators: 0, edges: Vec::new() }
    }

    /// The index of the worker.
    pub fn index(&self) -> (index: usize)
        ensures
            index == self.spec_index(),
    {
        self.index
    }

    /// The number of workers.
    pub fn peers(&self) -> (peers: usize)
        ensures
            peers == self.spec_peers(),
    {
        self.peers
    }

    /// A sequence of scope identifiers describing the path from the root to
    /// this scope.
    pub fn addr(&self) -> (address: Vec<usize>)
        ensures
            address@ == self.spec_addr(),
    {
        self.address.clone()
    }

    /// Allocates a new scope-local operator index: the number of operators
    /// numbered before, as far as the machine's word counts them.
    pub fn allocate_operator_index(&mut self) -> (index: usize)
        ensures
            index == old(self).operators(),
            final(self).operators() == if index == usize::MAX {
                index
            } else {
                (index + 1) as usize
            },
            final(self).spec_addr() == old(self).spec_addr(),
            final(self).spec_index() == old(self).spec_index(),
            final(self).spec_peers() == old(self).spec_peers(),
            final(self).edges() == old(self).edges(),
    {
        let index: usize = self.operators;
        if index < usize::MAX {
            self.operators = index + 1;
        }
        index
    }

    /// Connects a source of data with a target of the data.
    pub fn add_edge(&mut self, source: Source, target: Target)
        ensures
            final(self).edges() == old(self).edges().push((source, target)),
            final(self).operators() == old(self).operators(),
            final(self).spec_addr() == old(self).spec_addr(),
            final(self).spec_index() == old(self).spec_index(),
            final(self).spec_peers() == old(self).spec_peers(),
    {
        self.edges.push((source, target));
    }
}

} // verus!
