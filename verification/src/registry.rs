//! A registry of named loggers.

use vstd::prelude::*;
use std::time::Instant;
use crate::logging::{buffer_limit, flushed_at, logged, LogContainer, LogState, Logger};

verus! {

/// A map from names to loggers, for one worker.
pub struct Registry<T, Id, A> {
    /// A worker-specific identifier.
    id: Id,
    /// The names that are bound, each once.
    names: Vec<String>,
    /// The logger bound to the name at the same position.
    loggers: Vec<Logger<T, Id, A>>,
    /// An instant common to all logging statements.
    time: Instant,
}

impl<T, Id: Clone, A: Fn(&u128, &mut LogContainer<T, Id>)> Registry<T, Id, A> {
    /// Whether `name` is bound at position `i`.
    spec fn at(&self, name: Seq<char>, i: int) -> bool {
        0 <= i < self.names@.len() && self.names@[i]@ == name
    }

    /// The loggers that are bound, by name.
    pub closed spec fn view(&self) -> Map<Seq<char>, Logger<T, Id, A>> {
        Map::new(
            |name: Seq<char>| exists|i: int| self.at(name, i),
            |name: Seq<char>| self.loggers@[choose|i: int| self.at(name, i)],
        )
    }

    /// Every name is bound once, to a logger that is ready to log.
    pub closed spec fn inv(&self) -> bool {
        &&& self.names@.len() == self.loggers@.len()
        &&& forall|i: int, j: int|
            0 <= i < j < self.names@.len() ==> self.names@[i]@ != self.names@[j]@
        &&& forall|i: int| 0 <= i < self.loggers@.len() ==> (#[trigger] self.loggers@[i]).inv()
    }

    /// Whether `after` is `before` after one flush, at whatever time.
    pub open spec fn flushed_once(before: Logger<T, Id, A>, after: Logger<T, Id, A>) -> bool {
        exists|elapsed: u128| after.state() == flushed_at(before.state(), elapsed)
    }

    /// Whether `after` is `before` with `events` logged, at whatever time.
    pub open spec fn logged_many(
        before: Logger<T, Id, A>,
        after: Logger<T, Id, A>,
        events: Seq<T>,
    ) -> bool {
        exists|elapsed: u128|
            after.state() == logged(before.state(), buffer_limit::<T>(), elapsed, events)
    }

    /// Creates a new logger registry.
    pub fn new(time: Instant, id: Id) -> (registry: Self)
        ensures
            registry.inv(),
            registry@ == Map::<Seq<char>, Logger<T, Id, A>>::empty(),
    {
        let registry = Registry { id, time, names: Vec::new(), loggers: Vec::new() };
        assert(registry@ =~= Map::<Seq<char>, Logger<T, Id, A>>::empty());
        registry
    }

    /// The position at which `name` is bound.
    fn find(&self, name: &str) -> (found: Option<usize>)
        requires
            self.inv(),
        ensures
            match found {
                Some(i) => self.at(name@, i as int),
                None => !self@.contains_key(name@),
            },
    {
        let key: String = name.to_owned();
        let mut i: usize = 0;
        while i < self.names.len()
            invariant
                key@ == name@,
                i <= self.names@.len(),
                forall|j: int| 0 <= j < i ==> !self.at(name@, j),
            decreases self.names@.len() - i,
        {
            if self.names[i] == key {
                return Some(i);
            }
            i += 1;
        }
        None
    }

    /// Where `name` is bound at position `i`, the registry holds the logger
    /// at that position under the name.
    proof fn lemma_bound(&self, name: Seq<char>, i: int)
        requires
            self.inv(),
            self.at(name, i),
        ensures
            self@.contains_key(name),
            self@[name] == self.loggers@[i],
    {
        let chosen = choose|j: int| self.at(name, j);
        assert(chosen == i);
    }

    /// Binds a log name to an action on log event batches.
    ///
    /// This method also returns any pre-installed logger, rather than
    /// overwriting it and pivoting the logging destination mid-stream.
    pub fn insert(&mut self, name: &str, action: A) -> (previous: Option<Logger<T, Id, A>>)
        requires
            old(self).inv(),
            forall|time: &u128, batch: &mut LogContainer<T, Id>| call_requires(action, (time, batch)),
        ensures
            final(self).inv(),
            final(self)@.dom() == old(self)@.dom().insert(name@),
            final(self)@[name@].state() == (LogState::<T> {
                flushed: Seq::empty(),
                base: 0,
                entries: Seq::empty(),
            }),
            forall|other: Seq<char>|
                other != name@ && old(self)@.contains_key(other) ==> final(self)@[other]
                    == old(self)@[other],
            previous == if old(self)@.contains_key(name@) {
                Some(old(self)@[name@])
            } else {
                None
            },
    {
        let logger = Logger::new(self.time, 0, self.id.clone(), action);
        self.insert_logger(name, logger)
    }

    /// Binds a log name to a logger, and returns the logger that was bound
    /// to the name before.
    pub fn insert_logger(&mut self, name: &str, logger: Logger<T, Id, A>) -> (previous: Option<
        Logger<T, Id, A>,
    >)
        requires
            old(self).inv(),
            logger.inv(),
        ensures
            final(self).inv(),
            final(self)@ == old(self)@.insert(name@, logger),
            previous == if old(self)@.contains_key(name@) {
                Some(old(self)@[name@])
            } else {
                None
            },
    {
        let ghost given = logger;
        let mut logger = logger;
        match self.find(name) {
            Some(i) => {
                proof {
                    self.lemma_bound(name@, i as int);
                }
                std::mem::swap(&mut self.loggers[i], &mut logger);
                proof {
                    assert(self.names@ == old(self).names@);
                    assert forall|other: Seq<char>| #[trigger]
                        self@.contains_key(other) == old(self)@.insert(
                            name@,
                            given,
                        ).contains_key(other) by {
                        if exists|j: int| self.at(other, j) {
                            let j = choose|j: int| self.at(other, j);
                            assert(old(self).at(other, j));
                        }
                        if exists|j: int| old(self).at(other, j) {
                            let j = choose|j: int| old(self).at(other, j);
                            assert(self.at(other, j));
                        }
                        assert(self.at(name@, i as int));
                    }
                    assert forall|other: Seq<char>| #[trigger]
                        self@.contains_key(other) implies self@[other] == old(self)@.insert(
                        name@,
                        given,
                    )[other] by {
                        let j = choose|j: int| self.at(other, j);
                        self.lemma_bound(other, j);
                        assert(old(self).at(other, j));
                        old(self).lemma_bound(other, j);
                    }
                    assert(self@ =~= old(self)@.insert(name@, given));
                }
                Some(logger)
            },
            None => {
                self.names.push(name.to_owned());
                self.loggers.push(logger);
                proof {
                    let last = self.names@.len() - 1;
                    assert(self.at(name@, last));
                    assert forall|i: int, j: int| 0 <= i < j < self.names@.len() implies self.names@[i]@
                        != self.names@[j]@ by {
                        if j == last {
                            assert(!old(self).at(name@, i));
                        }
                    }
                    assert forall|other: Seq<char>| #[trigger]
                        self@.contains_key(other) == old(self)@.insert(
                            name@,
                            logger,
                        ).contains_key(other) by {
                        if exists|j: int| self.at(other, j) {
                            let j = choose|j: int| self.at(other, j);
                            if j != last {
                                assert(old(self).at(other, j));
                            }
                        }
                        if exists|j: int| old(self).at(other, j) {
                            let j = choose|j: int| old(self).at(other, j);
                            assert(self.at(other, j));
                        }
                    }
                    assert forall|other: Seq<char>| #[trigger]
                        self@.contains_key(other) implies self@[other] == old(self)@.insert(
                        name@,
                        logger,
                    )[other] by {
                        let j = choose|j: int| self.at(other, j);
                        self.lemma_bound(other, j);
                        if j != last {
                            assert(old(self).at(other, j));
                            old(self).lemma_bound(other, j);
                        }
                    }
                    assert(self@ =~= old(self)@.insert(name@, logger));
                }
                None
            },
        }
    }

    /// Removes a bound logger and returns it.
    ///
    /// This is intended primarily to close a logging stream and let the
    /// associated writer communicate that the stream is closed to any
    /// consumers.
    pub fn remove(&mut self, name: &str) -> (removed: Option<Logger<T, Id, A>>)
        requires
            old(self).inv(),
        ensures
            final(self).inv(),
            final(self)@ == old(self)@.remove(name@),
            removed == if old(self)@.contains_key(name@) {
                Some(old(self)@[name@])
            } else {
                None
            },
    {
        match self.find(name) {
            Some(i) => {
                proof {
                    self.lemma_bound(name@, i as int);
                }
                let _ = self.names.remove(i);
                let logger = self.loggers.remove(i);
                proof {
                    assert forall|other: Seq<char>| #[trigger]
                        self@.contains_key(other) == old(self)@.remove(name@).contains_key(
                            other,
                        ) by {
                        if exists|j: int| self.at(other, j) {
                            let j = choose|j: int| self.at(other, j);
                            if j < i {
                                assert(old(self).at(other, j));
                            } else {
                                assert(old(self).at(other, j + 1));
                            }
                        }
                        if other != name@ && exists|j: int| old(self).at(other, j) {
                            let j = choose|j: int| old(self).at(other, j);
                            if j < i {
                                assert(self.at(other, j));
                            } else {
                                assert(self.at(other, j - 1));
                            }
                        }
                    }
                    assert forall|other: Seq<char>| #[trigger]
                        self@.contains_key(other) implies self@[other] == old(self)@.remove(
                        name@,
                    )[other] by {
                        let j = choose|j: int| self.at(other, j);
                        self.lemma_bound(other, j);
                        if j < i {
                            assert(old(self).at(other, j));
                            old(self).lemma_bound(other, j);
                        } else {
                            assert(old(self).at(other, j + 1));
                            old(self).lemma_bound(other, j + 1);
                        }
                    }
                    assert(self@ =~= old(self)@.remove(name@));
                }
                Some(logger)
            },
            None => {
                assert(self@ =~= old(self)@.remove(name@));
                None
            },
        }
    }

    /// Retrieves the logger bound to `name`, if one has been inserted.
    pub fn get(&self, name: &str) -> (logger: Option<&Logger<T, Id, A>>)
        requires
            self.inv(),
        ensures
            match logger {
                Some(found) => self@.contains_key(name@) && *found == self@[name@],
                None => !self@.contains_key(name@),
            },
    {
        match self.find(name) {
            Some(i) => {
                proof {
                    self.lemma_bound(name@, i as int);
                }
                Some(&self.loggers[i])
            },
            None => None,
        }
    }

    /// Logs `events` to the logger bound to `name`, at the time the clock
    /// shows, and tells whether there is such a logger. The other loggers
    /// stay as they are.
    pub fn log_many(&mut self, name: &str, events: Vec<T>) -> (bound: bool)
        requires
            old(self).inv(),
        ensures
            final(self).inv(),
            bound == old(self)@.contains_key(name@),
            final(self)@.dom() == old(self)@.dom(),
            forall|other: Seq<char>|
                other != name@ && old(self)@.contains_key(other) ==> #[trigger] final(self)@[other]
                    == old(self)@[other],
            bound ==> Self::logged_many(old(self)@[name@], final(self)@[name@], events@),
    {
        match self.find(name) {
            Some(i) => {
                proof {
                    self.lemma_bound(name@, i as int);
                }
                let ghost before = self.loggers@[i as int];
                self.loggers[i].log_many(events);
                proof {
                    assert(self.at(name@, i as int));
                    self.lemma_bound(name@, i as int);
                    assert forall|other: Seq<char>| #[trigger]
                        self@.contains_key(other) == old(self)@.contains_key(other) by {
                        if exists|j: int| self.at(other, j) {
                            let j = choose|j: int| self.at(other, j);
                            assert(old(self).at(other, j));
                        }
                        if exists|j: int| old(self).at(other, j) {
                            let j = choose|j: int| old(self).at(other, j);
                            assert(self.at(other, j));
                        }
                    }
                    assert(self@.dom() =~= old(self)@.dom());
                    assert forall|other: Seq<char>|
                        other != name@ && old(self)@.contains_key(other) implies #[trigger] self@[other]
                        == old(self)@[other] by {
                        let j = choose|j: int| old(self).at(other, j);
                        assert(self.at(other, j));
                        self.lemma_bound(other, j);
                        old(self).lemma_bound(other, j);
                    }
                }
                true
            },
            None => false,
        }
    }

    /// Flushes all registered logs.
    pub fn flush(&mut self)
        requires
            old(self).inv(),
        ensures
            final(self).inv(),
            final(self)@.dom() == old(self)@.dom(),
            forall|name: Seq<char>| #[trigger]
                old(self)@.contains_key(name) ==> Self::flushed_once(
                    old(self)@[name],
                    final(self)@[name],
                ),
    {
        let mut i: usize = 0;
        while i < self.loggers.len()
            invariant
                self.inv(),
                self.names@ == old(self).names@,
                i <= self.loggers@.len(),
                self.loggers@.len() == old(self).loggers@.len(),
                forall|j: int|
                    0 <= j < i ==> Self::flushed_once(
                        old(self).loggers@[j],
                        #[trigger] self.loggers@[j],
                    ),
                forall|j: int|
                    i <= j < self.loggers@.len() ==> #[trigger] self.loggers@[j] == old(self).loggers@[j],
            decreases self.loggers@.len() - i,
        {
            self.loggers[i].flush();
            i += 1;
        }
        proof {
            assert forall|name: Seq<char>| #[trigger]
                self@.contains_key(name) == old(self)@.contains_key(name) by {
                if exists|j: int| self.at(name, j) {
                    let j = choose|j: int| self.at(name, j);
                    assert(old(self).at(name, j));
                }
                if exists|j: int| old(self).at(name, j) {
                    let j = choose|j: int| old(self).at(name, j);
                    assert(self.at(name, j));
                }
            }
            assert(self@.dom() =~= old(self)@.dom());
            assert forall|name: Seq<char>| #[trigger]
                old(self)@.contains_key(name) implies Self::flushed_once(
                old(self)@[name],
                self@[name],
            ) by {
                let j = choose|j: int| old(self).at(name, j);
                assert(self.at(name, j));
                self.lemma_bound(name, j);
                old(self).lemma_bound(name, j);
                assert(Self::flushed_once(old(self).loggers@[j], self.loggers@[j]));
            }
        }
    }
}

} // verus!
