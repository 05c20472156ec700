//! A minimal growable contiguous array with stack-style push and pop.
//!
//! The structure keeps two counters: `capacity`, the number of element
//! slots its backing buffer is sized for, and the length, the number of
//! elements currently held. The capacity starts at zero, grows only by
//! doubling (or from zero to one), and never shrinks. A growth step whose
//! byte size would reach the platform's maximum single-allocation size is
//! reported to the caller as [`CapacityOverflowError`] instead of being
//! attempted; exhaustion of the allocator itself aborts, as the standard
//! allocation routines do.

use vstd::layout::size_of;
use vstd::prelude::*;

verus! {

/// Error returned when a requested capacity's byte size would reach the
/// platform's maximum single-allocation size (half the address space).
#[derive(Clone, Copy, Debug, PartialEq, Eq, Structural)]
pub struct CapacityOverflowError;

/// The capacity after one growth step: one slot from an empty buffer,
/// otherwise double the current capacity.
pub open spec fn grown_capacity(capacity: nat) -> nat {
    if capacity == 0 {
        1
    } else {
        2 * capacity
    }
}

/// Whether a buffer of `capacity` elements of `elem_size` bytes each stays
/// below the platform's maximum single-allocation size.
pub open spec fn byte_size_fits(capacity: nat, elem_size: nat) -> bool {
    capacity * elem_size < isize::MAX as nat
}

/// The capacity for the next growth step, provided the byte size of a
/// buffer of that many `elem_size`-byte elements stays below the
/// platform's maximum single-allocation size; the distinct, recoverable
/// overflow error otherwise.
pub fn next_capacity(capacity: usize, elem_size: usize) -> (r: Result<usize, CapacityOverflowError>)
    requires
        0 < elem_size,
    ensures
        r is Ok <==> byte_size_fits(grown_capacity(capacity as nat), elem_size as nat),
        r matches Ok(c) ==> c == grown_capacity(capacity as nat),
{
    let doubled: Option<usize> = if capacity == 0 {
        Some(1)
    } else {
        capacity.checked_mul(2)
    };
    match doubled {
        Some(new_capacity) => {
            match new_capacity.checked_mul(elem_size) {
                Some(byte_size) => {
                    if byte_size < isize::MAX as usize {
                        Ok(new_capacity)
                    } else {
                        Err(CapacityOverflowError)
                    }
                },
                None => {
                    proof {
                        let g: nat = new_capacity as nat;
                        let e: nat = elem_size as nat;
                        assert(g <= g * e) by (nonlinear_arith)
                            requires
                                1 <= e,
                        ;
                    }
                    Err(CapacityOverflowError)
                },
            }
        },
        None => {
            proof {
                let g: nat = grown_capacity(capacity as nat);
                let e: nat = elem_size as nat;
                assert(g <= g * e) by (nonlinear_arith)
                    requires
                        1 <= e,
                ;
            }
            Err(CapacityOverflowError)
        },
    }
}

/// A growable contiguous array with last-in-first-out push and pop.
///
/// Not defined for zero-sized element types: every constructor requires a
/// positive element size.
#[derive(Debug)]
pub struct MyVec<T> {
    buffer: Vec<T>,
    capacity: usize,
}

impl<T> View for MyVec<T> {
    type V = Seq<T>;

    closed spec fn view(&self) -> Seq<T> {
        self.buffer@
    }
}

impl<T> MyVec<T> {
    /// The number of element slots the backing buffer is sized for.
    pub closed spec fn cap(&self) -> nat {
        self.capacity as nat
    }

    /// Structural invariant: the element type has a size, the elements held
    /// never outnumber the capacity, and the buffer's byte size stays below
    /// the platform's maximum single-allocation size.
    pub closed spec fn wf(&self) -> bool {
        &&& 0 < size_of::<T>()
        &&& self.buffer@.len() <= self.capacity
        &&& byte_size_fits(self.capacity as nat, size_of::<T>())
    }

    /// A well-formed structure never holds more elements than its capacity.
    pub proof fn lemma_length_le_capacity(&self)
        requires
            self.wf(),
        ensures
            self@.len() <= self.cap(),
    {
    }

    /// Creates an empty structure: no elements, no capacity, no allocation.
    pub fn new() -> (v: MyVec<T>)
        requires
            0 < size_of::<T>(),
        ensures
            v.wf(),
            v@ == Seq::<T>::empty(),
            v.cap() == 0,
    {
        MyVec { buffer: Vec::new(), capacity: 0 }
    }

    /// Grows the backing buffer to the next capacity, requesting the larger
    /// allocation up front and preserving the contents; reports the
    /// recoverable overflow error, and changes nothing, when the new byte
    /// size would reach the platform ceiling.
    fn grow(&mut self) -> (r: Result<(), CapacityOverflowError>)
        requires
            old(self).wf(),
        ensures
            final(self).wf(),
            final(self)@ == old(self)@,
            r is Ok <==> byte_size_fits(grown_capacity(old(self).cap()), size_of::<T>()),
            r is Ok ==> final(self).cap() == grown_capacity(old(self).cap()),
            r is Err ==> final(self).cap() == old(self).cap(),
    {
        let elem_size: usize = core::mem::size_of::<T>();
        match next_capacity(self.capacity, elem_size) {
            Ok(new_capacity) => {
                let length: usize = self.buffer.len();
                self.buffer.reserve(new_capacity - length);
                self.capacity = new_capacity;
                Ok(())
            },
            Err(e) => Err(e),
        }
    }

    /// Appends `element` after the current contents, growing the buffer
    /// first when it is full. Fails — leaving the structure untouched —
    /// exactly when the buffer is full and the grown byte size would reach
    /// the platform ceiling; the capacity is untouched whenever the buffer
    /// had a free slot, and never decreases.
    pub fn push(&mut self, element: T) -> (r: Result<(), CapacityOverflowError>)
        requires
            old(self).wf(),
        ensures
            final(self).wf(),
            r is Ok <==> (old(self)@.len() < old(self).cap() || byte_size_fits(
                grown_capacity(old(self).cap()),
                size_of::<T>(),
            )),
            r is Ok ==> final(self)@ == old(self)@.push(element),
            r is Err ==> final(self)@ == old(self)@,
            r is Err ==> final(self).cap() == old(self).cap(),
            old(self)@.len() < old(self).cap() ==> final(self).cap() == old(self).cap(),
            old(self)@.len() == old(self).cap() && r is Ok ==> final(self).cap()
                == grown_capacity(old(self).cap()),
            old(self).cap() <= final(self).cap(),
    {
        if self.capacity == self.buffer.len() {
            match self.grow() {
                Ok(()) => {},
                Err(e) => {
                    return Err(e);
                },
            }
        }
        self.buffer.push(element);
        Ok(())
    }

    /// Removes and returns the most recently pushed element still held, or
    /// nothing from an empty structure, which stays untouched. The capacity
    /// is never changed by a pop.
    pub fn pop(&mut self) -> (r: Option<T>)
        requires
            old(self).wf(),
        ensures
            final(self).wf(),
            final(self).cap() == old(self).cap(),
            old(self)@.len() == 0 ==> r is None && final(self)@ == old(self)@,
            0 < old(self)@.len() ==> r == Some(old(self)@.last()) && final(self)@ == old(
                self,
            )@.drop_last(),
    {
        if self.buffer.len() == 0 {
            None
        } else {
            self.buffer.pop()
        }
    }

    /// The number of elements currently held.
    pub fn len(&self) -> (n: usize)
        ensures
            n == self@.len(),
    {
        self.buffer.len()
    }

    /// The number of element slots the backing buffer is sized for.
    pub fn capacity(&self) -> (c: usize)
        ensures
            c == self.cap(),
    {
        self.capacity
    }
}

/// The contents after pushing the elements of `s` in order onto a
/// structure holding `v`: each step appends one element, as `push`
/// ensures.
pub open spec fn push_all<T>(v: Seq<T>, s: Seq<T>) -> Seq<T>
    decreases s.len(),
{
    if s.len() == 0 {
        v
    } else {
        push_all(v.push(s[0]), s.skip(1))
    }
}

/// The values returned by popping a structure holding `v` until it is
/// empty: each step returns the last element held and drops it, as `pop`
/// ensures.
pub open spec fn pop_all<T>(v: Seq<T>) -> Seq<T>
    decreases v.len(),
{
    if v.len() == 0 {
        Seq::empty()
    } else {
        seq![v.last()] + pop_all(v.drop_last())
    }
}

/// The contents after `n` pops: a pop on a non-empty structure drops the
/// last element held, a pop on an empty structure changes nothing.
pub open spec fn after_pops<T>(v: Seq<T>, n: nat) -> Seq<T>
    decreases n,
{
    if n == 0 || v.len() == 0 {
        v
    } else {
        after_pops(v.drop_last(), (n - 1) as nat)
    }
}

proof fn lemma_push_all_appends<T>(v: Seq<T>, s: Seq<T>)
    ensures
        push_all(v, s) == v + s,
    decreases s.len(),
{
    if s.len() == 0 {
        assert(v + s =~= v);
    } else {
        lemma_push_all_appends(v.push(s[0]), s.skip(1));
        assert(v.push(s[0]) + s.skip(1) =~= v + s);
    }
}

proof fn lemma_pop_all_reverses<T>(v: Seq<T>)
    ensures
        pop_all(v) == v.reverse(),
    decreases v.len(),
{
    if v.len() == 0 {
        assert(v.reverse() =~= Seq::<T>::empty());
    } else {
        lemma_pop_all_reverses(v.drop_last());
        assert(seq![v.last()] + v.drop_last().reverse() =~= v.reverse());
    }
}

proof fn lemma_after_pops_drains<T>(v: Seq<T>, n: nat)
    requires
        v.len() <= n,
    ensures
        after_pops(v, n) == Seq::<T>::empty(),
    decreases n,
{
    if n == 0 || v.len() == 0 {
        assert(v =~= Seq::<T>::empty());
    } else {
        lemma_after_pops_drains(v.drop_last(), (n - 1) as nat);
    }
}

/// Last-in-first-out law: pushing the elements of `s` in order onto an
/// empty structure leaves exactly `s`; popping until empty then returns
/// the elements of `s` in reverse order, and one pop for each push leaves
/// the structure empty.
pub proof fn lemma_lifo_order<T>(s: Seq<T>)
    ensures
        push_all(Seq::<T>::empty(), s) == s,
        pop_all(s) == s.reverse(),
        after_pops(s, s.len()) == Seq::<T>::empty(),
{
    lemma_push_all_appends(Seq::<T>::empty(), s);
    assert(Seq::<T>::empty() + s =~= s);
    lemma_pop_all_reverses(s);
    lemma_after_pops_drains(s, s.len());
}

/// Round-trip law: pushing `e` onto contents `v` and popping at once
/// returns exactly `e` and restores `v`. (By the contracts of `push` and
/// `pop`, the pair also leaves the capacity of a structure with a free
/// slot unchanged: such a push keeps the capacity, and a pop never changes
/// it. A full structure grows on the push.)
pub proof fn lemma_push_pop_round_trip<T>(v: Seq<T>, e: T)
    ensures
        v.push(e).last() == e,
        v.push(e).drop_last() == v,
{
    assert(v.push(e).drop_last() =~= v);
}

/// Growth law: one growth step strictly increases the capacity, from an
/// empty buffer to one slot and otherwise by doubling; the capacity never
/// decreases.
pub proof fn lemma_growth_doubles(capacity: nat)
    ensures
        capacity < grown_capacity(capacity),
        capacity == 0 ==> grown_capacity(capacity) == 1,
        0 < capacity ==> grown_capacity(capacity) == 2 * capacity,
{
}

/// Growth preserves prior content: pushing `v0 .. v_{k-1}` and then one
/// more element `e` — which may trigger a growth — and popping `k + 1`
/// times returns `e, v_{k-1}, ..., v_0`.
pub proof fn lemma_grow_preserves_content<T>(s: Seq<T>, e: T)
    ensures
        pop_all(s.push(e)) == seq![e] + s.reverse(),
{
    lemma_pop_all_reverses(s.push(e));
    assert(s.push(e).reverse() =~= seq![e] + s.reverse());
}

} // verus!
