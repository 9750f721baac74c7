//! The configurations of a computation and the allocators they lead to.

use vstd::prelude::*;
use crate::allocator::{GenericBuilder, Process, Thread};
use crate::container::Container;

verus! {

/// Possible configurations for the communication infrastructure.
pub enum Config {
    /// Use one thread.
    Thread,
    /// Use one process with an indicated number of threads.
    Process(usize),
    /// Expect multiple processes.
    Cluster {
        /// Number of per-process worker threads
        threads: usize,
        /// Identity of this process
        process: usize,
        /// Addresses of all processes
        addresses: Vec<String>,
    },
}

/// Why no allocators come of a configuration.
#[derive(Debug, PartialEq, Eq, Clone, Copy)]
pub enum AllocatorInitError {
    /// The configuration asks for no worker at all.
    NoWorkers,
    /// The process is not among the addresses.
    UnknownProcess,
    /// The workers are more than the machine's word counts.
    TooManyWorkers,
    /// The workers of other processes are reached by a transport, which
    /// has to make their meeting places.
    TransportRequired,
    /// The worker is not among its peers.
    UnknownWorker,
    /// The queues to meet on are not one for every worker.
    WrongWidth,
}

impl Config {
    /// The number of workers that the configuration asks for, in all
    /// processes together, where they can be counted.
    pub open spec fn spec_peers(&self) -> Option<usize> {
        match self {
            Config::Thread => Some(1usize),
            Config::Process(threads) => Some(*threads),
            Config::Cluster { threads, process, addresses } => if *threads * addresses@.len()
                <= usize::MAX {
                Some((*threads * addresses@.len()) as usize)
            } else {
                None
            },
        }
    }

    /// What is wrong with the configuration, if anything: it has no worker,
    /// or names a process that has no address, or has more workers than can
    /// be counted.
    pub open spec fn flaw(&self) -> Option<AllocatorInitError> {
        match self {
            Config::Thread => None,
            Config::Process(threads) => if *threads == 0 {
                Some(AllocatorInitError::NoWorkers)
            } else {
                None
            },
            Config::Cluster { threads, process, addresses } => if *threads == 0
                || addresses@.len() == 0 {
                Some(AllocatorInitError::NoWorkers)
            } else if *process >= addresses@.len() {
                Some(AllocatorInitError::UnknownProcess)
            } else if *threads * addresses@.len() > usize::MAX {
                Some(AllocatorInitError::TooManyWorkers)
            } else {
                None
            },
        }
    }

    /// The number of workers in all processes together, or what is wrong
    /// with the configuration.
    pub fn peers(&self) -> (peers: Result<usize, AllocatorInitError>)
        ensures
            match peers {
                Ok(count) => self.flaw() is None && self.spec_peers() == Some(count) && count > 0,
                Err(error) => self.flaw() == Some(error),
            },
    {
        match self {
            Config::Thread => Ok(1),
            Config::Process(threads) => {
                if *threads == 0 {
                    Err(AllocatorInitError::NoWorkers)
                } else {
                    Ok(*threads)
                }
            },
            Config::Cluster { threads, process, addresses } => {
                if *threads == 0 || addresses.len() == 0 {
                    Err(AllocatorInitError::NoWorkers)
                } else if *process >= addresses.len() {
                    Err(AllocatorInitError::UnknownProcess)
                } else {
                    match threads.checked_mul(addresses.len()) {
                        Some(count) => {
                            assert(count > 0) by (nonlinear_arith)
                                requires
                                    count == *threads * addresses@.len(),
                                    *threads > 0,
                                    addresses@.len() > 0,
                            ;
                            Ok(count)
                        },
                        None => Err(AllocatorInitError::TooManyWorkers),
                    }
                }
            },
        }
    }

    /// The index of the first worker of this process.
    pub fn first_index(&self) -> (index: Result<usize, AllocatorInitError>)
        ensures
            match index {
                Ok(first) => self.flaw() is None && first == match self {
                    Config::Cluster { threads, process, addresses } => *threads * *process,
                    _ => 0,
                },
                Err(error) => self.flaw() == Some(error),
            },
    {
        match self.peers() {
            Ok(_) => match self {
                Config::Cluster { threads, process, addresses } => {
                    assert(*threads * *process <= *threads * addresses@.len()) by (nonlinear_arith)
                        requires
                            *process < addresses@.len(),
                    ;
                    Ok(*threads * *process)
                },
                _ => Ok(0),
            },
            Err(error) => Err(error),
        }
    }

    /// Attempts to assemble the described communication infrastructure:
    /// the builders of the allocators of the workers of this process. Workers
    /// of several processes need a transport to make their meeting places.
    pub fn try_build<T: Container>(&self) -> (built: Result<
        Vec<GenericBuilder<T>>,
        AllocatorInitError,
    >)
        ensures
            match built {
                Ok(builders) => {
                    &&& self.flaw() is None
                    &&& !(self is Cluster)
                    &&& Some(builders@.len() as usize) == self.spec_peers()
                    &&& forall|worker: int|
                        0 <= worker < builders@.len() ==> match #[trigger] builders@[worker] {
                            GenericBuilder::Thread(_) => self is Thread,
                            GenericBuilder::Process(allocator) => {
                                &&& self is Process
                                &&& allocator.inv()
                                &&& allocator.meeting().spec_index() == worker
                                &&& allocator.meeting().spec_peers() == builders@.len()
                                &&& allocator.meeting().allocated() == 0
                            },
                            _ => false,
                        }
                },
                Err(error) => if self.flaw() is Some {
                    self.flaw() == Some(error)
                } else {
                    self is Cluster && error == AllocatorInitError::TransportRequired
                },
            },
    {
        match self.peers() {
            Ok(peers) => match self {
                Config::Thread => {
                    let mut builders: Vec<GenericBuilder<T>> = Vec::new();
                    builders.push(GenericBuilder::Thread(Thread::new()));
                    Ok(builders)
                },
                Config::Process(_) => {
                    let workers: Vec<Process<T>> = Process::new_vector(peers);
                    let mut builders: Vec<GenericBuilder<T>> = Vec::new();
                    let ghost all = workers@;
                    for worker in it: workers
                        invariant
                            it.seq() == all,
                            all.len() == peers,
                            builders@.len() == it.index(),
                            forall|i: int|
                                0 <= i < peers ==> {
                                    let allocator = #[trigger] all[i];
                                    &&& allocator.inv()
                                    &&& allocator.meeting().spec_index() == i
                                    &&& allocator.meeting().spec_peers() == peers
                                    &&& allocator.meeting().allocated() == 0
                                },
                            forall|i: int|
                                0 <= i < builders@.len() ==> (#[trigger] builders@[i])
                                    == GenericBuilder::Process(all[i]),
                    {
                        assert(worker == all[it.index()]);
                        builders.push(GenericBuilder::Process(worker));
                    }
                    Ok(builders)
                },
                Config::Cluster { .. } => Err(AllocatorInitError::TransportRequired),
            },
            Err(error) => Err(error),
        }
    }
}

} // verus!
