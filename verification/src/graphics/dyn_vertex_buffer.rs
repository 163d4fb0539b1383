//! A typed append buffer that grows by doubling.
//!
//! The buffer keeps its elements in a store that it asks the allocator for.
//! It tracks two numbers of its own: the size, which is how many elements
//! it holds, and the capacity, which is how many the store was asked to
//! have room for. The capacity changes only when an operation needs more
//! room than there is, and then by one of two rules:
//!
//! * [`preserving_capacity`], used by [`DynVertexBuffer::reserve`] and the
//!   `extend` family: the elements are copied into the new store;
//! * [`destructive_capacity`], used by [`DynVertexBuffer::write`]: the
//!   elements are dropped, since all of them are about to be replaced.
//!
//! When the allocator refuses, the operation fails and the buffer is as it
//! was before.

use std::collections::TryReserveError;
use vstd::arithmetic::power2::{lemma2_to64, lemma_pow2_unfold, pow2};
use vstd::prelude::*;
use vstd::std_specs::iter::IteratorSpec;

verus! {

/// Why a buffer could not get the room it needs.
#[derive(Clone, Copy, Debug, PartialEq, Eq, Structural)]
pub enum AllocationError {
    /// The capacity that the growth rule asks for does not fit in `usize`.
    CapacityOverflow,
    /// The allocator did not provide the store.
    OutOfMemory,
}

/// How many elements `capacity` is short of `required`.
pub open spec fn shortfall(capacity: int, required: int) -> nat {
    if required > capacity {
        (required - capacity) as nat
    } else {
        0
    }
}

/// The capacity reached from `capacity` by doubling until it is at least
/// `required`. Zero cannot be doubled and stays zero.
pub open spec fn doubled(capacity: int, required: int) -> int
    decreases shortfall(capacity, required),
{
    if capacity <= 0 || capacity >= required {
        capacity
    } else {
        doubled(2 * capacity, required)
    }
}

/// The capacity of a buffer that had `capacity` and must hold `required`
/// elements, when its content is kept: unchanged if there is room, else
/// doubled until there is, starting from 8 where there was none.
pub open spec fn preserving_capacity(capacity: int, required: int) -> int {
    if required <= capacity {
        capacity
    } else if capacity <= 0 {
        doubled(8, required)
    } else {
        doubled(capacity, required)
    }
}

/// The capacity of a buffer that had `capacity` and must hold `required`
/// elements, when its content is given up: unchanged if there is room, else
/// doubled until there is, starting from 1 where there was none.
pub open spec fn destructive_capacity(capacity: int, required: int) -> int {
    if required <= capacity {
        capacity
    } else if capacity <= 0 {
        doubled(1, required)
    } else {
        doubled(capacity, required)
    }
}

/// Doubling from a positive capacity reaches the required one and never
/// shrinks, and it stops at the first capacity that suffices.
pub proof fn lemma_doubled_bounds(capacity: int, required: int)
    requires
        capacity > 0,
    ensures
        doubled(capacity, required) >= required,
        doubled(capacity, required) >= capacity,
        capacity < required ==> doubled(capacity, required) >= 2 * capacity,
        capacity < required ==> doubled(capacity, required) < 2 * required,
    decreases shortfall(capacity, required),
{
    if capacity < required {
        lemma_doubled_bounds(2 * capacity, required);
    }
}

/// Doubling multiplies the capacity by a power of two.
pub proof fn lemma_doubled_is_a_doubling(capacity: int, required: int)
    requires
        capacity > 0,
    ensures
        exists|doublings: nat| doubled(capacity, required) == capacity * pow2(doublings),
    decreases shortfall(capacity, required),
{
    if capacity < required {
        lemma_doubled_is_a_doubling(2 * capacity, required);
        let doublings = choose|doublings: nat|
            doubled(2 * capacity, required) == 2 * capacity * pow2(doublings);
        lemma_pow2_unfold(doublings + 1);
        assert(2 * capacity * pow2(doublings) == capacity * (2 * pow2(doublings)))
            by (nonlinear_arith);
        assert(doubled(capacity, required) == capacity * pow2(doublings + 1));
    } else {
        lemma2_to64();
        assert(doubled(capacity, required) == capacity * pow2(0));
    }
}

/// Growth that keeps the content always gives room for what is required,
/// and leaves a buffer that has the room as it is.
pub proof fn lemma_preserving_growth_suffices(capacity: int, required: int)
    requires
        capacity >= 0,
    ensures
        preserving_capacity(capacity, required) >= required,
        required <= capacity ==> preserving_capacity(capacity, required) == capacity,
{
    if required > capacity {
        lemma_doubled_bounds(
            if capacity == 0 {
                8
            } else {
                capacity
            },
            required,
        );
    }
}

/// Growth that gives the content up always gives room for what is
/// required, and leaves a buffer that has the room as it is.
pub proof fn lemma_destructive_growth_suffices(capacity: int, required: int)
    requires
        capacity >= 0,
    ensures
        destructive_capacity(capacity, required) >= required,
        required <= capacity ==> destructive_capacity(capacity, required) == capacity,
{
    if required > capacity {
        lemma_doubled_bounds(
            if capacity == 0 {
                1
            } else {
                capacity
            },
            required,
        );
    }
}

/// Growth is geometric. The first growth of a buffer without capacity gives
/// it capacity 8 for every requirement from 1 to 8, and at least 8 for any
/// other; growth of a buffer with capacity at least doubles it.
pub proof fn lemma_preserving_growth_is_geometric(capacity: int, required: int)
    requires
        required > capacity >= 0,
    ensures
        capacity == 0 && required <= 8 ==> preserving_capacity(capacity, required) == 8,
        capacity == 0 ==> preserving_capacity(capacity, required) >= 8,
        capacity > 0 ==> preserving_capacity(capacity, required) >= 2 * capacity,
{
    if capacity == 0 {
        lemma_doubled_bounds(8, required);
    } else {
        lemma_doubled_bounds(capacity, required);
    }
}

/// Destructive growth of a buffer with capacity at least doubles it.
pub proof fn lemma_destructive_growth_is_geometric(capacity: int, required: int)
    requires
        required > capacity > 0,
    ensures
        destructive_capacity(capacity, required) >= 2 * capacity,
{
    lemma_doubled_bounds(capacity, required);
}

/// What a reservation that keeps the content returns, for a buffer of the
/// given capacity that must hold `required` elements: `Ok(false)` when
/// there is room already, `CapacityOverflow` when the grown capacity does
/// not fit in `usize`, and otherwise `Ok(true)` or `OutOfMemory` as the
/// allocator granted the store or not.
pub open spec fn preserving_outcome(capacity: usize, required: int, granted: bool) -> Result<
    bool,
    AllocationError,
> {
    if required <= capacity {
        Ok(false)
    } else if preserving_capacity(capacity as int, required) > usize::MAX {
        Err(AllocationError::CapacityOverflow)
    } else if granted {
        Ok(true)
    } else {
        Err(AllocationError::OutOfMemory)
    }
}

/// What a reservation that gives the content up returns; as
/// [`preserving_outcome`], by the other growth rule.
pub open spec fn destructive_outcome(capacity: usize, required: int, granted: bool) -> Result<
    bool,
    AllocationError,
> {
    if required <= capacity {
        Ok(false)
    } else if destructive_capacity(capacity as int, required) > usize::MAX {
        Err(AllocationError::CapacityOverflow)
    } else if granted {
        Ok(true)
    } else {
        Err(AllocationError::OutOfMemory)
    }
}

fn doubled_from(seed: usize, required: usize) -> (r: Option<usize>)
    requires
        seed > 0,
    ensures
        r matches Some(capacity) ==> capacity == doubled(seed as int, required as int),
        r is None ==> doubled(seed as int, required as int) > usize::MAX,
{
    let mut capacity = seed;
    while capacity < required
        invariant
            capacity > 0,
            doubled(capacity as int, required as int) == doubled(seed as int, required as int),
        decreases shortfall(capacity as int, required as int),
    {
        if capacity > usize::MAX / 2 {
            proof {
                lemma_doubled_bounds(capacity as int, required as int);
            }
            return None;
        }
        capacity = capacity * 2;
    }
    Some(capacity)
}

/// Computes [`preserving_capacity`], or `None` where it does not fit in
/// `usize`.
pub fn grow_preserving(capacity: usize, required: usize) -> (r: Option<usize>)
    ensures
        r matches Some(grown) ==> grown == preserving_capacity(capacity as int, required as int),
        r is None <==> preserving_capacity(capacity as int, required as int) > usize::MAX,
{
    if required <= capacity {
        Some(capacity)
    } else if capacity == 0 {
        doubled_from(8, required)
    } else {
        doubled_from(capacity, required)
    }
}

/// Computes [`destructive_capacity`], or `None` where it does not fit in
/// `usize`.
pub fn grow_destructive(capacity: usize, required: usize) -> (r: Option<usize>)
    ensures
        r matches Some(grown) ==> grown == destructive_capacity(capacity as int, required as int),
        r is None <==> destructive_capacity(capacity as int, required as int) > usize::MAX,
{
    if required <= capacity {
        Some(capacity)
    } else if capacity == 0 {
        doubled_from(1, required)
    } else {
        doubled_from(capacity, required)
    }
}

/// A growable buffer of vertices.
pub struct DynVertexBuffer<T> where T: Copy {
    store: Vec<T>,
    capacity: usize,
}

impl<T: Copy> View for DynVertexBuffer<T> {
    type V = Seq<T>;

    /// The elements that the buffer holds, in order.
    closed spec fn view(&self) -> Seq<T> {
        self.store@
    }
}

impl<T: Copy> DynVertexBuffer<T> {
    #[verifier::type_invariant]
    spec fn within_capacity(self) -> bool {
        self.store@.len() <= self.capacity
    }

    /// How many elements the store was asked to have room for.
    pub closed spec fn spec_capacity(&self) -> usize {
        self.capacity
    }

    /// How many elements the buffer holds.
    pub open spec fn spec_size(&self) -> usize {
        self@.len() as usize
    }

    /// Asks the allocator for an empty store with room for `capacity`
    /// elements.
    fn request(capacity: usize) -> (outcome: Result<Vec<T>, TryReserveError>)
        ensures
            capacity == 0 ==> outcome is Ok,
            outcome matches Ok(store) ==> store@.len() == 0,
    {
        let mut store: Vec<T> = Vec::new();
        // A store without room needs no allocation: the allocator is not
        // asked. For any other capacity it decides.
        if capacity == 0 {
            return Ok(store);
        }
        match store.try_reserve(capacity) {
            Ok(()) => Ok(store),
            Err(refusal) => Err(refusal),
        }
    }

    /// Moves the store out of the buffer, which is left empty with its
    /// capacity, until the store is put back.
    fn take_store(&mut self) -> (store: Vec<T>)
        ensures
            store@ == old(self).store@,
            store@.len() <= old(self).capacity,
            final(self).store@.len() == 0,
            final(self).capacity == old(self).capacity,
    {
        proof {
            use_type_invariant(&*self);
        }
        let mut store: Vec<T> = Vec::new();
        core::mem::swap(&mut self.store, &mut store);
        store
    }

    /// An empty buffer without capacity. No store is asked for.
    pub fn new() -> (r: Result<DynVertexBuffer<T>, AllocationError>)
        ensures
            r matches Ok(buffer) && buffer@.len() == 0 && buffer.spec_capacity() == 0,
    {
        Self::with_capacity(0)
    }

    /// An empty buffer with room for `capacity` elements.
    ///
    /// With capacity zero no store is asked for, and the buffer is
    /// returned. Otherwise the allocator decides.
    pub fn with_capacity(capacity: usize) -> (r: Result<DynVertexBuffer<T>, AllocationError>)
        ensures
            capacity == 0 ==> r is Ok,
            r matches Ok(buffer) ==> buffer@.len() == 0 && buffer.spec_capacity() == capacity,
            r matches Err(error) ==> error == AllocationError::OutOfMemory,
    {
        Self::with_store(capacity, Self::request(capacity))
    }

    /// An empty buffer of the given capacity on the store that the
    /// allocator gave, or the error for its refusal.
    pub fn with_store(capacity: usize, outcome: Result<Vec<T>, TryReserveError>) -> (r: Result<
        DynVertexBuffer<T>,
        AllocationError,
    >)
        ensures
            outcome is Ok ==> (r matches Ok(buffer) && buffer@.len() == 0
                && buffer.spec_capacity() == capacity),
            outcome is Err ==> r == Err::<DynVertexBuffer<T>, AllocationError>(
                AllocationError::OutOfMemory,
            ),
    {
        match outcome {
            Ok(store) => {
                let mut store = store;
                store.clear();
                Ok(DynVertexBuffer { store, capacity })
            },
            Err(_) => Err(AllocationError::OutOfMemory),
        }
    }

    /// The number of elements in the buffer.
    #[verifier::when_used_as_spec(spec_size)]
    pub fn size(&self) -> (r: usize)
        ensures
            r == self.spec_size(),
            r == self@.len(),
            r <= self.spec_capacity(),
    {
        proof {
            use_type_invariant(self);
        }
        self.store.len()
    }

    /// The number of elements that the buffer has room for.
    #[verifier::when_used_as_spec(spec_capacity)]
    pub fn capacity(&self) -> (r: usize)
        ensures
            r == self.spec_capacity(),
            self@.len() <= r,
    {
        proof {
            use_type_invariant(self);
        }
        self.capacity
    }

    /// Makes room for `size` elements on the store that the allocator gave,
    /// giving the content up where a new store is taken.
    ///
    /// Returns whether the store was replaced. If so the buffer is empty:
    /// nothing is copied.
    pub fn reserve_non_persistent_with(
        &mut self,
        size: usize,
        outcome: Result<Vec<T>, TryReserveError>,
    ) -> (r: Result<bool, AllocationError>)
        ensures
            final(self)@.len() <= final(self).capacity(),
            r == destructive_outcome(old(self).capacity(), size as int, outcome is Ok),
            r == Ok::<bool, AllocationError>(true) ==> final(self)@.len() == 0
                && final(self).capacity() == destructive_capacity(
                old(self).capacity() as int,
                size as int,
            ),
            r != Ok::<bool, AllocationError>(true) ==> final(self)@ == old(self)@
                && final(self).capacity() == old(self).capacity(),
    {
        proof {
            use_type_invariant(&*self);
        }
        if size <= self.capacity {
            return Ok(false);
        }
        let target = match grow_destructive(self.capacity, size) {
            Some(target) => target,
            None => {
                return Err(AllocationError::CapacityOverflow);
            },
        };
        match outcome {
            Ok(fresh) => {
                let mut fresh = fresh;
                fresh.clear();
                self.store = fresh;
                self.capacity = target;
                Ok(true)
            },
            Err(_) => Err(AllocationError::OutOfMemory),
        }
    }

    /// Makes room for `size` elements, giving the content up where a new
    /// store is needed.
    fn reserve_non_persistent(&mut self, size: usize) -> (r: Result<bool, AllocationError>)
        ensures
            final(self)@.len() <= final(self).capacity(),
            r == destructive_outcome(old(self).capacity(), size as int, true) || r
                == destructive_outcome(old(self).capacity(), size as int, false),
            r == Ok::<bool, AllocationError>(true) ==> final(self)@.len() == 0
                && final(self).capacity() == destructive_capacity(
                old(self).capacity() as int,
                size as int,
            ),
            r != Ok::<bool, AllocationError>(true) ==> final(self)@ == old(self)@
                && final(self).capacity() == old(self).capacity(),
    {
        proof {
            use_type_invariant(&*self);
        }
        if size <= self.capacity {
            return Ok(false);
        }
        match grow_destructive(self.capacity, size) {
            Some(target) => self.reserve_non_persistent_with(size, Self::request(target)),
            None => Err(AllocationError::CapacityOverflow),
        }
    }

    /// Makes room for `size` elements on the store that the allocator gave,
    /// keeping the content: where a new store is taken, the elements are
    /// copied into it.
    ///
    /// Returns whether the store was replaced.
    pub fn reserve_with(&mut self, size: usize, outcome: Result<Vec<T>, TryReserveError>) -> (r:
        Result<bool, AllocationError>)
        ensures
            final(self)@.len() <= final(self).capacity(),
            r == preserving_outcome(old(self).capacity(), size as int, outcome is Ok),
            final(self)@ == old(self)@,
            r == Ok::<bool, AllocationError>(true) ==> final(self).capacity()
                == preserving_capacity(old(self).capacity() as int, size as int),
            r != Ok::<bool, AllocationError>(true) ==> final(self).capacity()
                == old(self).capacity(),
    {
        proof {
            use_type_invariant(&*self);
        }
        if size <= self.capacity {
            return Ok(false);
        }
        let target = match grow_preserving(self.capacity, size) {
            Some(target) => target,
            None => {
                return Err(AllocationError::CapacityOverflow);
            },
        };
        match outcome {
            Ok(fresh) => {
                let mut fresh = fresh;
                fresh.clear();
                let mut i: usize = 0;
                while i < self.store.len()
                    invariant
                        i <= self.store@.len(),
                        fresh@ == self.store@.subrange(0, i as int),
                    decreases self.store@.len() - i,
                {
                    fresh.push(self.store[i]);
                    i += 1;
                    assert(self.store@.subrange(0, i as int) =~= self.store@.subrange(
                        0,
                        i - 1,
                    ).push(self.store@[i - 1]));
                }
                assert(fresh@ =~= self.store@);
                proof {
                    lemma_preserving_growth_suffices(self.capacity as int, size as int);
                }
                self.store = fresh;
                self.capacity = target;
                Ok(true)
            },
            Err(_) => Err(AllocationError::OutOfMemory),
        }
    }

    /// Makes room for `size` elements, keeping the content.
    ///
    /// Returns whether the store was replaced. Where `size` is within the
    /// capacity nothing happens. Otherwise the capacity grows as
    /// [`preserving_capacity`] says, if that fits in `usize` and the
    /// allocator grants the store; if not, the buffer stays as it was.
    pub fn reserve(&mut self, size: usize) -> (r: Result<bool, AllocationError>)
        ensures
            final(self)@.len() <= final(self).capacity(),
            r == preserving_outcome(old(self).capacity(), size as int, true) || r
                == preserving_outcome(old(self).capacity(), size as int, false),
            final(self)@ == old(self)@,
            r == Ok::<bool, AllocationError>(true) ==> final(self).capacity()
                == preserving_capacity(old(self).capacity() as int, size as int),
            r != Ok::<bool, AllocationError>(true) ==> final(self).capacity()
                == old(self).capacity(),
            r is Ok ==> final(self).capacity() >= size,
    {
        proof {
            use_type_invariant(&*self);
            lemma_preserving_growth_suffices(self.capacity as int, size as int);
        }
        if size <= self.capacity {
            return Ok(false);
        }
        match grow_preserving(self.capacity, size) {
            Some(target) => self.reserve_with(size, Self::request(target)),
            None => Err(AllocationError::CapacityOverflow),
        }
    }

    /// Replaces the content of the buffer by `data`.
    ///
    /// Where `data` does not fit, the capacity grows as
    /// [`destructive_capacity`] says and the old content is not copied. On
    /// an error the buffer is as it was.
    pub fn write(&mut self, data: &[T]) -> (r: Result<(), AllocationError>)
        ensures
            final(self)@.len() <= final(self).capacity(),
            ({
                let grown = destructive_capacity(old(self).capacity() as int, data@.len() as int);
                &&& data@.len() <= old(self).capacity() ==> r is Ok
                &&& grown > usize::MAX ==> r is Err
                &&& r is Ok ==> final(self)@ == data@ && final(self).capacity() == grown
                &&& r matches Err(error) ==> {
                    &&& final(self)@ == old(self)@
                    &&& final(self).capacity() == old(self).capacity()
                    &&& error == AllocationError::CapacityOverflow <==> grown > usize::MAX
                }
            }),
    {
        match self.reserve_non_persistent(data.len()) {
            Ok(_) => {},
            Err(error) => {
                return Err(error);
            },
        }
        proof {
            lemma_destructive_growth_suffices(old(self).capacity as int, data@.len() as int);
        }
        let mut store = self.take_store();
        store.clear();
        let mut i: usize = 0;
        while i < data.len()
            invariant
                i <= data@.len(),
                store@ == data@.subrange(0, i as int),
            decreases data@.len() - i,
        {
            store.push(data[i]);
            i += 1;
            assert(data@.subrange(0, i as int) =~= data@.subrange(0, i - 1).push(data@[i - 1]));
        }
        assert(store@ =~= data@);
        self.store = store;
        Ok(())
    }

    /// Makes room for `additional` elements more than the buffer holds,
    /// keeping the content.
    fn grow_for(&mut self, additional: usize) -> (r: Result<(), AllocationError>)
        ensures
            final(self)@.len() <= final(self).capacity(),
            ({
                let required = old(self)@.len() + additional;
                let grown = preserving_capacity(old(self).capacity() as int, required);
                &&& final(self)@ == old(self)@
                &&& required <= old(self).capacity() ==> r is Ok
                &&& grown > usize::MAX ==> r is Err
                &&& r is Ok ==> final(self).capacity() == grown && required <= grown
                &&& r matches Err(error) ==> {
                    &&& final(self).capacity() == old(self).capacity()
                    &&& error == AllocationError::CapacityOverflow <==> grown > usize::MAX
                }
            }),
    {
        proof {
            use_type_invariant(&*self);
            lemma_preserving_growth_suffices(
                self.capacity as int,
                self.store@.len() + additional,
            );
        }
        let size = self.store.len();
        if additional > usize::MAX - size {
            return Err(AllocationError::CapacityOverflow);
        }
        match self.reserve(size + additional) {
            Ok(_) => Ok(()),
            Err(error) => Err(error),
        }
    }

    /// Appends `len` elements; the one at place `i` among them is what `f`
    /// returns for `i`.
    ///
    /// Room is made as by [`DynVertexBuffer::reserve`]. On an error the
    /// buffer is as it was and `f` has not been called.
    pub fn extend_write(&mut self, len: usize, f: impl Fn(usize) -> T) -> (r: Result<
        (),
        AllocationError,
    >)
        requires
            forall|i: usize| i < len ==> call_requires(f, (i,)),
        ensures
            final(self)@.len() <= final(self).capacity(),
            ({
                let size = old(self)@.len() as int;
                let grown = preserving_capacity(old(self).capacity() as int, size + len);
                &&& size + len <= old(self).capacity() ==> r is Ok
                &&& grown > usize::MAX ==> r is Err
                &&& r is Ok ==> {
                    &&& final(self)@.len() == size + len
                    &&& final(self)@.subrange(0, size) == old(self)@
                    &&& forall|i: int|
                        0 <= i < len ==> call_ensures(
                            f,
                            (i as usize,),
                            #[trigger] final(self)@[size + i],
                        )
                    &&& final(self).capacity() == grown
                }
                &&& r matches Err(error) ==> {
                    &&& final(self)@ == old(self)@
                    &&& final(self).capacity() == old(self).capacity()
                    &&& error == AllocationError::CapacityOverflow <==> grown > usize::MAX
                }
            }),
    {
        match self.grow_for(len) {
            Ok(()) => {},
            Err(error) => {
                return Err(error);
            },
        }
        let mut store = self.take_store();
        let mut i: usize = 0;
        while i < len
            invariant
                i <= len,
                forall|j: usize| j < len ==> call_requires(f, (j,)),
                store@.len() == old(self)@.len() + i,
                store@.subrange(0, old(self)@.len() as int) == old(self)@,
                forall|j: int|
                    0 <= j < i ==> call_ensures(
                        f,
                        (j as usize,),
                        #[trigger] store@[old(self)@.len() + j],
                    ),
            decreases len - i,
        {
            let ghost before = store@;
            let element = f(i);
            store.push(element);
            assert(store@.subrange(0, old(self)@.len() as int) =~= before.subrange(
                0,
                old(self)@.len() as int,
            ));
            i += 1;
        }
        self.store = store;
        Ok(())
    }

    /// Appends the elements of `data`.
    ///
    /// Room is made as by [`DynVertexBuffer::reserve`]. On an error the
    /// buffer is as it was.
    pub fn extend(&mut self, data: &[T]) -> (r: Result<(), AllocationError>)
        ensures
            final(self)@.len() <= final(self).capacity(),
            ({
                let required = (old(self)@.len() + data@.len()) as int;
                let grown = preserving_capacity(old(self).capacity() as int, required);
                &&& required <= old(self).capacity() ==> r is Ok
                &&& grown > usize::MAX ==> r is Err
                &&& r is Ok ==> final(self)@ == old(self)@ + data@ && final(self).capacity()
                    == grown
                &&& r matches Err(error) ==> {
                    &&& final(self)@ == old(self)@
                    &&& final(self).capacity() == old(self).capacity()
                    &&& error == AllocationError::CapacityOverflow <==> grown > usize::MAX
                }
            }),
    {
        let element_at = |i: usize| -> (element: T)
            requires
                i < data@.len(),
            ensures
                element == data@.index(i as int),
            {
                data[i]
            };
        let r = self.extend_write(data.len(), element_at);
        proof {
            if r is Ok {
                let size = old(self)@.len() as int;
                assert forall|i: int| 0 <= i < data@.len() implies self@[size + i] == data@[i] by {
                    assert(call_ensures(element_at, (i as usize,), self@[size + i]));
                }
                assert(self@.subrange(0, size) =~= old(self)@);
                assert(self@ =~= old(self)@ + data@);
            }
        }
        r
    }

    /// Appends the first `count` items of `iter`, which must have as many.
    ///
    /// Room is made as by [`DynVertexBuffer::reserve`]. On an error the
    /// buffer is as it was and nothing has been taken from `iter`.
    pub fn extend_n(&mut self, count: usize, iter: impl Iterator<Item = T>) -> (r: Result<
        (),
        AllocationError,
    >)
        requires
            iter.obeys_prophetic_iter_laws() ==> iter.remaining().len() >= count,
        ensures
            final(self)@.len() <= final(self).capacity(),
            ({
                let size = old(self)@.len() as int;
                let grown = preserving_capacity(old(self).capacity() as int, size + count);
                &&& size + count <= old(self).capacity() ==> r is Ok
                &&& grown > usize::MAX ==> r is Err
                &&& r is Ok ==> {
                    &&& final(self).capacity() == grown
                    &&& size <= final(self)@.len() <= size + count
                    &&& final(self)@.subrange(0, size) == old(self)@
                    &&& iter.obeys_prophetic_iter_laws() ==> final(self)@ == old(self)@
                        + iter.remaining().subrange(0, count as int)
                }
                &&& r matches Err(error) ==> {
                    &&& final(self)@ == old(self)@
                    &&& final(self).capacity() == old(self).capacity()
                    &&& error == AllocationError::CapacityOverflow <==> grown > usize::MAX
                }
            }),
    {
        match self.grow_for(count) {
            Ok(()) => {},
            Err(error) => {
                return Err(error);
            },
        }
        let ghost items = iter.remaining();
        let ghost lawful = iter.obeys_prophetic_iter_laws();
        let mut iter = iter;
        let mut store = self.take_store();
        let mut i: usize = 0;
        while i < count
            invariant
                i <= count,
                iter.obeys_prophetic_iter_laws() == lawful,
                old(self)@.len() <= store@.len() <= old(self)@.len() + i,
                store@.subrange(0, old(self)@.len() as int) == old(self)@,
                lawful ==> items.len() >= count && iter.remaining().len() >= count - i,
                lawful ==> store@ + iter.remaining().subrange(0, count - i) == old(self)@
                    + items.subrange(0, count as int),
            decreases count - i,
        {
            let ghost before = iter.remaining();
            let ghost content = store@;
            match iter.next() {
                Some(element) => {
                    store.push(element);
                    i += 1;
                    assert(store@.subrange(0, old(self)@.len() as int) =~= content.subrange(
                        0,
                        old(self)@.len() as int,
                    ));
                    assert(lawful ==> store@ + iter.remaining().subrange(0, count - i)
                        =~= content + before.subrange(0, count - i + 1));
                },
                None => {
                    // An iterator that keeps its laws has the items that
                    // were asked of it, and does not come here.
                    assert(!lawful);
                    i = count;
                },
            }
        }
        assert(lawful ==> store@ + iter.remaining().subrange(0, 0) =~= store@);
        self.store = store;
        Ok(())
    }

    /// Empties the buffer. The store and the capacity stay.
    pub fn clear(&mut self)
        ensures
            final(self)@.len() <= final(self).capacity(),
            final(self)@.len() == 0,
            final(self).capacity() == old(self).capacity(),
    {
        let mut store = self.take_store();
        store.clear();
        self.store = store;
    }

    /// The elements of the buffer.
    pub fn get(&self) -> (r: &[T])
        ensures
            r@ == self@,
    {
        self.store.as_slice()
    }

    /// Hands the elements of the buffer to `f` for changes in place, and
    /// returns what `f` returns.
    ///
    /// The slice that `f` works on holds the content of the buffer, and
    /// what it holds when `f` is done is the content afterwards. Size and
    /// capacity stay as they are.
    pub fn with_mapping<R>(&mut self, f: impl FnOnce(&mut [T]) -> R) -> (r: R)
        requires
            forall|slice: &mut [T]| slice@ == old(self)@ ==> call_requires(f, (slice,)),
        ensures
            final(self)@.len() <= final(self).capacity(),
            final(self).capacity() == old(self).capacity(),
            final(self)@.len() == old(self)@.len(),
            (exists|slice: &mut [T]|
                {
                    &&& slice@ == old(self)@
                    &&& #[trigger] call_ensures(f, (slice,), r)
                    &&& final(slice)@.len() == slice@.len() ==> final(self)@ == final(slice)@
                }),
    {
        let mut store = self.take_store();
        let size = store.len();
        let filler = if size > 0 {
            Some(store[0])
        } else {
            None
        };
        let r = f(store.as_mut_slice());
        let ghost edited = store@;
        // A slice keeps its length, so the store is as long as it was and
        // the next two steps do nothing. They are here because the length
        // of what comes back from `f` is not known to the proof.
        store.truncate(size);
        assert(edited.len() == size ==> store@ =~= edited);
        while store.len() < size
            invariant
                store@.len() <= size,
                size > 0 ==> filler is Some,
                edited.len() == size ==> store@ == edited,
            decreases size - store@.len(),
        {
            match filler {
                Some(element) => store.push(element),
                None => {},
            }
        }
        self.store = store;
        r
    }
}

} // verus!
