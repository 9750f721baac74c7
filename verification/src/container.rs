//! Containers, their hollow allocations, and the partition primitive.

use vstd::prelude::*;
use vstd::layout::size_of;
use crate::message::RefOrMut;

verus! {

/// The upper limit for buffers to allocate, size in bytes.
pub const BUFFER_SIZE_BYTES: usize = 8192;

/// The preferred capacity, in elements, of a buffer whose elements take
/// `size` bytes each: the byte budget divided by the element size, at least
/// one; elements without size get the whole budget.
pub open spec fn spec_default_capacity(size: nat) -> nat {
    if size == 0 {
        8192
    } else if size <= 8192 {
        8192nat / size
    } else {
        1
    }
}

/// The preferred capacity is at least one element and at most the byte
/// budget.
pub proof fn lemma_capacity_bounds(size: nat)
    ensures
        1 <= spec_default_capacity(size) <= 8192,
{
    if 0 < size <= 8192 {
        assert(1 <= 8192int / (size as int) <= 8192) by (nonlinear_arith)
            requires
                1 <= size <= 8192,
        ;
    }
}

/// The maximum buffer capacity in elements, between 1 and
/// [`BUFFER_SIZE_BYTES`] inclusively.
pub fn default_capacity<T>() -> (capacity: usize)
    ensures
        capacity == spec_default_capacity(size_of::<T>()),
        1 <= capacity <= BUFFER_SIZE_BYTES,
{
    let size: usize = core::mem::size_of::<T>();
    if size == 0 {
        BUFFER_SIZE_BYTES
    } else if size <= BUFFER_SIZE_BYTES {
        proof {
            lemma_capacity_bounds(size as nat);
        }
        BUFFER_SIZE_BYTES / size
    } else {
        1
    }
}

/// A batch of records that travels along a dataflow edge as a unit.
///
/// Every container names the type of its hollow form: the drained shell that
/// travels back along the channel and backs the next batch.
pub trait Container: Sized {
    /// The hollow form of this container.
    type Allocation;

    /// The number of records held.
    spec fn spec_len(&self) -> nat;

    /// Whether `copy` holds a record-for-record copy of `source`.
    spec fn replica(source: &Self, copy: &Self) -> bool;

    /// The number of records in this container.
    fn len(&self) -> (n: usize)
        ensures
            n == self.spec_len(),
    ;

    /// Whether the container holds no record.
    fn is_empty(&self) -> (empty: bool)
        ensures
            empty == (self.spec_len() == 0),
    ;

    /// Whether `shell` is the hollow form of this container: what is left
    /// of it when its records are gone.
    spec fn hollowed(&self, shell: &Self::Allocation) -> bool;

    /// Consumes the container and returns its empty shell.
    fn hollow(self) -> (shell: Self::Allocation)
        ensures
            self.hollowed(&shell),
    ;
}

/// An allocation from which a container of type `C` can be rebuilt.
pub trait IntoAllocated<C> {
    /// What a container rebuilt from `source` looks like.
    spec fn rebuilt(source: C, assembled: C) -> bool;

    /// Rebuilds a container from `source` inside this allocation. A mutable
    /// source hands its contents over and keeps the allocation in exchange;
    /// an immutable source is copied.
    fn assemble(self, source: RefOrMut<C>) -> (assembled: C) where Self: Sized
        ensures
            Self::rebuilt(source.value(), assembled),
            source matches RefOrMut::Mut(reference) ==> assembled == *reference,
    ;

    /// Rebuilds a container from `source` where no allocation came back. A
    /// mutable source is left with a fresh empty container.
    fn assemble_new(source: RefOrMut<C>) -> (assembled: C)
        ensures
            Self::rebuilt(source.value(), assembled),
            source matches RefOrMut::Mut(reference) ==> assembled == *reference,
    ;
}

impl Container for () {
    type Allocation = ();

    open spec fn spec_len(&self) -> nat {
        1
    }

    open spec fn replica(source: &Self, copy: &Self) -> bool {
        true
    }

    open spec fn hollowed(&self, shell: &Self::Allocation) -> bool {
        true
    }

    fn len(&self) -> (n: usize) {
        1
    }

    fn is_empty(&self) -> (empty: bool) {
        false
    }

    fn hollow(self) -> (shell: ()) {
        ()
    }
}

impl Container for usize {
    type Allocation = ();

    open spec fn spec_len(&self) -> nat {
        1
    }

    open spec fn replica(source: &Self, copy: &Self) -> bool {
        *source == *copy
    }

    open spec fn hollowed(&self, shell: &Self::Allocation) -> bool {
        true
    }

    fn len(&self) -> (n: usize) {
        1
    }

    fn is_empty(&self) -> (empty: bool) {
        false
    }

    fn hollow(self) -> (shell: ()) {
        ()
    }
}

impl<T: Clone> Container for Vec<T> {
    type Allocation = Vec<T>;

    open spec fn spec_len(&self) -> nat {
        self@.len()
    }

    open spec fn replica(source: &Self, copy: &Self) -> bool {
        &&& copy@.len() == source@.len()
        &&& forall|i: int| 0 <= i < source@.len() ==> cloned(#[trigger] source@[i], copy@[i])
    }

    /// The shell of a vector holds no record.
    open spec fn hollowed(&self, shell: &Vec<T>) -> bool {
        shell@.len() == 0
    }

    fn len(&self) -> (n: usize) {
        Vec::len(self)
    }

    fn is_empty(&self) -> (empty: bool) {
        Vec::len(self) == 0
    }

    fn hollow(self) -> (shell: Vec<T>)
        ensures
            shell@.len() == 0,
    {
        let mut shell = self;
        shell.clear();
        shell
    }
}

impl<T: Clone> IntoAllocated<Vec<T>> for Vec<T> {
    open spec fn rebuilt(source: Vec<T>, assembled: Vec<T>) -> bool {
        <Vec<T> as Container>::replica(&source, &assembled)
    }

    fn assemble(self, source: RefOrMut<Vec<T>>) -> (assembled: Vec<T>)
        ensures
            source matches RefOrMut::Mut(reference) ==> final(reference)@.len() == 0,
    {
        let mut assembled = self;
        assembled.clear();
        match source {
            RefOrMut::Ref(reference) => {
                assembled = reference.clone();
            },
            RefOrMut::Mut(reference) => {
                std::mem::swap(reference, &mut assembled);
            },
        }
        assembled
    }

    fn assemble_new(source: RefOrMut<Vec<T>>) -> (assembled: Vec<T>)
        ensures
            source matches RefOrMut::Mut(reference) ==> final(reference)@.len() == 0,
    {
        let mut assembled: Vec<T> = Vec::new();
        match source {
            RefOrMut::Ref(reference) => {
                assembled = reference.clone();
            },
            RefOrMut::Mut(reference) => {
                std::mem::swap(reference, &mut assembled);
            },
        }
        assembled
    }
}

} // verus!

verus! {

/// Items that can be appended to a container of type `C`.
pub trait PushInto<C> {
    /// Appends `self` to `target`.
    fn push_into(self, target: &mut C);
}

impl<T> PushInto<Vec<T>> for T {
    fn push_into(self, target: &mut Vec<T>)
        ensures
            final(target)@ == old(target)@.push(self),
    {
        target.push(self)
    }
}

/// Containers that grow towards a preferred capacity.
pub trait PushContainer<T>: Container {
    /// The records held, in order.
    spec fn items(&self) -> Seq<T>;

    /// The capacity that buffers of this type are filled to before they are
    /// sent on.
    spec fn spec_preferred_capacity() -> nat;

    /// The number of records the container can hold without reallocating.
    fn capacity(&self) -> (capacity: usize);

    /// The capacity that buffers of this type are filled to before they are
    /// sent on.
    fn preferred_capacity() -> (capacity: usize)
        ensures
            capacity == Self::spec_preferred_capacity(),
            capacity >= 1,
    ;

    /// Makes room for `additional` more records; the records stay as they are.
    fn reserve(&mut self, additional: usize)
        ensures
            final(self).items() == old(self).items(),
    ;
}

/// `Vec::capacity` of the standard library: the result depends on what the
/// allocator handed out, so nothing is claimed of it.
#[verifier::external_body]
fn vec_capacity<T>(vec: &Vec<T>) -> (capacity: usize) {
    vec.capacity()
}

impl<T: Clone> PushContainer<T> for Vec<T> {
    open spec fn items(&self) -> Seq<T> {
        self@
    }

    open spec fn spec_preferred_capacity() -> nat {
        spec_default_capacity(size_of::<T>())
    }

    fn capacity(&self) -> (capacity: usize) {
        vec_capacity(self)
    }

    fn preferred_capacity() -> (capacity: usize) {
        default_capacity::<T>()
    }

    fn reserve(&mut self, additional: usize) {
        Vec::reserve(self, additional);
    }
}

} // verus!

verus! {

/// `String::clear` of the standard library: truncates the string and
/// removes all contents; the capacity stays.
#[verifier::external_body]
fn string_clear(string: &mut String)
    ensures
        final(string)@ == Seq::<char>::empty(),
{
    string.clear()
}

impl Container for String {
    type Allocation = String;

    /// A string holds as many records as it has bytes, in the machine's
    /// word.
    open spec fn spec_len(&self) -> nat {
        (vstd::utf8::encode_utf8(self@).len() as usize) as nat
    }

    open spec fn replica(source: &Self, copy: &Self) -> bool {
        copy@ == source@
    }

    /// The shell of a string holds no character.
    open spec fn hollowed(&self, shell: &String) -> bool {
        shell@ == Seq::<char>::empty()
    }

    fn len(&self) -> (n: usize) {
        self.as_str().len()
    }

    fn is_empty(&self) -> (empty: bool) {
        self.as_str().len() == 0
    }

    fn hollow(self) -> (shell: String)
        ensures
            shell@ == Seq::<char>::empty(),
    {
        let mut shell = self;
        string_clear(&mut shell);
        shell
    }
}

impl IntoAllocated<String> for String {
    open spec fn rebuilt(source: String, assembled: String) -> bool {
        assembled@ == source@
    }

    fn assemble(self, source: RefOrMut<String>) -> (assembled: String) {
        let mut assembled = self;
        match source {
            RefOrMut::Ref(reference) => {
                assembled = reference.clone();
            },
            RefOrMut::Mut(reference) => {
                string_clear(&mut assembled);
                std::mem::swap(reference, &mut assembled);
            },
        }
        assembled
    }

    fn assemble_new(source: RefOrMut<String>) -> (assembled: String) {
        let mut assembled: String = String::new();
        match source {
            RefOrMut::Ref(reference) => {
                assembled = reference.clone();
            },
            RefOrMut::Mut(reference) => {
                std::mem::swap(reference, &mut assembled);
            },
        }
        assembled
    }
}

impl IntoAllocated<()> for () {
    open spec fn rebuilt(source: (), assembled: ()) -> bool {
        true
    }

    fn assemble(self, source: RefOrMut<()>) -> (assembled: ()) {
        ()
    }

    fn assemble_new(source: RefOrMut<()>) -> (assembled: ()) {
        ()
    }
}

impl IntoAllocated<usize> for () {
    open spec fn rebuilt(source: usize, assembled: usize) -> bool {
        assembled == source
    }

    fn assemble(self, source: RefOrMut<usize>) -> (assembled: usize) {
        *source.deref()
    }

    fn assemble_new(source: RefOrMut<usize>) -> (assembled: usize) {
        *source.deref()
    }
}

/// The count, as far as the machine's word holds it.
pub open spec fn capped(count: nat) -> nat {
    if count > usize::MAX {
        usize::MAX as nat
    } else {
        count
    }
}

impl<A: Container> Container for (A,) {
    type Allocation = (A::Allocation,);

    open spec fn spec_len(&self) -> nat {
        self.0.spec_len()
    }

    open spec fn replica(source: &Self, copy: &Self) -> bool {
        A::replica(&source.0, &copy.0)
    }

    /// The shell of a tuple is made of the shells of its parts.
    open spec fn hollowed(&self, shell: &Self::Allocation) -> bool {
        self.0.hollowed(&shell.0)
    }

    fn len(&self) -> (n: usize) {
        self.0.len()
    }

    fn is_empty(&self) -> (empty: bool) {
        self.0.is_empty()
    }

    fn hollow(self) -> (shell: (A::Allocation,)) {
        (self.0.hollow(),)
    }
}

impl<A: Container, B: Container> Container for (A, B) {
    type Allocation = (A::Allocation, B::Allocation);

    /// The records of both parts, as far as the machine's word counts them.
    open spec fn spec_len(&self) -> nat {
        capped(self.0.spec_len() + self.1.spec_len())
    }

    open spec fn replica(source: &Self, copy: &Self) -> bool {
        A::replica(&source.0, &copy.0) && B::replica(&source.1, &copy.1)
    }

    /// The shell of a tuple is made of the shells of its parts.
    open spec fn hollowed(&self, shell: &Self::Allocation) -> bool {
        self.0.hollowed(&shell.0) && self.1.hollowed(&shell.1)
    }

    fn len(&self) -> (n: usize) {
        self.0.len().saturating_add(self.1.len())
    }

    fn is_empty(&self) -> (empty: bool) {
        self.0.is_empty() && self.1.is_empty()
    }

    fn hollow(self) -> (shell: (A::Allocation, B::Allocation)) {
        (self.0.hollow(), self.1.hollow())
    }
}

impl<A: Container, B: Container, C: Container> Container for (A, B, C) {
    type Allocation = (A::Allocation, B::Allocation, C::Allocation);

    /// The records of all parts, as far as the machine's word counts them.
    open spec fn spec_len(&self) -> nat {
        capped(self.0.spec_len() + self.1.spec_len() + self.2.spec_len())
    }

    open spec fn replica(source: &Self, copy: &Self) -> bool {
        &&& A::replica(&source.0, &copy.0)
        &&& B::replica(&source.1, &copy.1)
        &&& C::replica(&source.2, &copy.2)
    }

    /// The shell of a tuple is made of the shells of its parts.
    open spec fn hollowed(&self, shell: &Self::Allocation) -> bool {
        &&& self.0.hollowed(&shell.0)
        &&& self.1.hollowed(&shell.1)
        &&& self.2.hollowed(&shell.2)
    }

    fn len(&self) -> (n: usize) {
        self.0.len().saturating_add(self.1.len()).saturating_add(self.2.len())
    }

    fn is_empty(&self) -> (empty: bool) {
        self.0.is_empty() && self.1.is_empty() && self.2.is_empty()
    }

    fn hollow(self) -> (shell: (A::Allocation, B::Allocation, C::Allocation)) {
        (self.0.hollow(), self.1.hollow(), self.2.hollow())
    }
}

impl<A: Container, B: Container, C: Container, D: Container> Container for (A, B, C, D) {
    type Allocation = (A::Allocation, B::Allocation, C::Allocation, D::Allocation);

    /// The records of all parts, as far as the machine's word counts them.
    open spec fn spec_len(&self) -> nat {
        capped(self.0.spec_len() + self.1.spec_len() + self.2.spec_len() + self.3.spec_len())
    }

    open spec fn replica(source: &Self, copy: &Self) -> bool {
        &&& A::replica(&source.0, &copy.0)
        &&& B::replica(&source.1, &copy.1)
        &&& C::replica(&source.2, &copy.2)
        &&& D::replica(&source.3, &copy.3)
    }

    /// The shell of a tuple is made of the shells of its parts.
    open spec fn hollowed(&self, shell: &Self::Allocation) -> bool {
        &&& self.0.hollowed(&shell.0)
        &&& self.1.hollowed(&shell.1)
        &&& self.2.hollowed(&shell.2)
        &&& self.3.hollowed(&shell.3)
    }

    fn len(&self) -> (n: usize) {
        self.0.len().saturating_add(self.1.len()).saturating_add(self.2.len()).saturating_add(
            self.3.len(),
        )
    }

    fn is_empty(&self) -> (empty: bool) {
        self.0.is_empty() && self.1.is_empty() && self.2.is_empty() && self.3.is_empty()
    }

    fn hollow(self) -> (shell: (A::Allocation, B::Allocation, C::Allocation, D::Allocation)) {
        (self.0.hollow(), self.1.hollow(), self.2.hollow(), self.3.hollow())
    }
}

impl<A: Container, B: Container, X: IntoAllocated<A>, Y: IntoAllocated<B>> IntoAllocated<(A, B)> for (X, Y) {
    open spec fn rebuilt(source: (A, B), assembled: (A, B)) -> bool {
        X::rebuilt(source.0, assembled.0) && Y::rebuilt(source.1, assembled.1)
    }

    fn assemble(self, source: RefOrMut<(A, B)>) -> (assembled: (A, B)) {
        match source {
            RefOrMut::Ref(reference) => (
                self.0.assemble(RefOrMut::Ref(&reference.0)),
                self.1.assemble(RefOrMut::Ref(&reference.1)),
            ),
            RefOrMut::Mut(reference) => (
                self.0.assemble(RefOrMut::Mut(&mut reference.0)),
                self.1.assemble(RefOrMut::Mut(&mut reference.1)),
            ),
        }
    }

    fn assemble_new(source: RefOrMut<(A, B)>) -> (assembled: (A, B)) {
        match source {
            RefOrMut::Ref(reference) => (
                X::assemble_new(RefOrMut::Ref(&reference.0)),
                Y::assemble_new(RefOrMut::Ref(&reference.1)),
            ),
            RefOrMut::Mut(reference) => (
                X::assemble_new(RefOrMut::Mut(&mut reference.0)),
                Y::assemble_new(RefOrMut::Mut(&mut reference.1)),
            ),
        }
    }
}

/// `Rc::clone` of the standard library: another pointer to the same
/// allocation, so to the same value.
#[verifier::external_body]
fn share<C>(shared: &std::rc::Rc<C>) -> (again: std::rc::Rc<C>)
    ensures
        again == *shared,
{
    std::rc::Rc::clone(shared)
}

impl<C: Container> IntoAllocated<std::rc::Rc<C>> for () {
    open spec fn rebuilt(source: std::rc::Rc<C>, assembled: std::rc::Rc<C>) -> bool {
        assembled == source
    }

    /// Shares the container of the source: nothing is copied.
    fn assemble(self, source: RefOrMut<std::rc::Rc<C>>) -> (assembled: std::rc::Rc<C>) {
        share(source.deref())
    }

    /// Shares the container of the source: nothing is copied.
    fn assemble_new(source: RefOrMut<std::rc::Rc<C>>) -> (assembled: std::rc::Rc<C>) {
        share(source.deref())
    }
}

impl<C: Container> Container for std::rc::Rc<C> {
    type Allocation = ();

    open spec fn spec_len(&self) -> nat {
        (**self).spec_len()
    }

    open spec fn replica(source: &Self, copy: &Self) -> bool {
        C::replica(&**source, &**copy)
    }

    open spec fn hollowed(&self, shell: &Self::Allocation) -> bool {
        true
    }

    fn len(&self) -> (n: usize) {
        (**self).len()
    }

    fn is_empty(&self) -> (empty: bool) {
        (**self).is_empty()
    }

    /// A shared container has no shell of its own to give.
    fn hollow(self) -> (shell: ()) {
        ()
    }
}

impl<C: Container> Container for std::sync::Arc<C> {
    type Allocation = ();

    open spec fn spec_len(&self) -> nat {
        (**self).spec_len()
    }

    open spec fn replica(source: &Self, copy: &Self) -> bool {
        C::replica(&**source, &**copy)
    }

    open spec fn hollowed(&self, shell: &Self::Allocation) -> bool {
        true
    }

    fn len(&self) -> (n: usize) {
        (**self).len()
    }

    fn is_empty(&self) -> (empty: bool) {
        (**self).is_empty()
    }

    /// A shared container has no shell of its own to give.
    fn hollow(self) -> (shell: ()) {
        ()
    }
}

} // verus!
