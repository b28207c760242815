//! The shared pointer type and the heap store its allocations live in.
//!
//! All four backend profiles share one observable behaviour, so a single
//! store models them: a [`Heap`] owns every allocation together with its
//! strong-reference count, and a [`Ptr`] is a handle naming one allocation.
//! Operations that touch an allocation take the heap explicitly; this makes
//! the liveness and counting rules, which a backend enforces with interior
//! mutability, into proved contracts.

use vstd::prelude::*;

use core::marker::PhantomData;

use crate::address::Address;
use crate::profile::Profile;

verus! {

/// One allocation: the stored value and its strong-reference count.
///
/// A count of zero marks a dead slot: the refcount profiles reclaim it the
/// moment the last strong handle is released, the collector profiles at the
/// next collection pass; either way no operation may reach it again, so the
/// two reclamation disciplines are indistinguishable from here on.
struct Slot<T> {
    value: T,
    strong: usize,
}

/// The mathematical image of a [`Slot`].
pub struct SlotModel<T> {
    /// The stored value.
    pub value: T,
    /// The number of strong owners.
    pub strong: nat,
}

/// The mathematical image of a [`Heap`]: a sequence of slots and the active
/// backend profile.
#[verifier::ext_equal]
pub struct HeapModel<T> {
    /// The slots, indexed by [`Address::value`].
    pub slots: Seq<SlotModel<T>>,
    /// The backend profile the heap was built for.
    pub profile: Profile,
}

impl<T> HeapModel<T> {
    /// The number of slots ever allocated (dead slots included).
    pub open spec fn len(self) -> nat {
        self.slots.len()
    }

    /// The strong-owner count of slot `a`.
    pub open spec fn strong_at(self, a: int) -> nat {
        self.slots[a].strong
    }

    /// The value stored in slot `a`.
    pub open spec fn value_at(self, a: int) -> T {
        self.slots[a].value
    }

    /// Slot `a` exists and still has at least one strong owner.
    pub open spec fn live(self, a: int) -> bool {
        0 <= a < self.len() && self.strong_at(a) > 0
    }

    /// The heap after allocating `value` into a fresh slot with one owner.
    pub open spec fn allocate(self, value: T) -> HeapModel<T> {
        HeapModel { slots: self.slots.push(SlotModel { value, strong: 1 }), profile: self.profile }
    }

    /// The heap after one more strong owner of slot `a` appears.
    pub open spec fn retain(self, a: int) -> HeapModel<T> {
        HeapModel {
            slots: self.slots.update(
                a,
                SlotModel { value: self.slots[a].value, strong: self.slots[a].strong + 1 },
            ),
            profile: self.profile,
        }
    }

    /// The heap after one strong owner of slot `a` disappears.
    pub open spec fn release(self, a: int) -> HeapModel<T> {
        HeapModel {
            slots: self.slots.update(
                a,
                SlotModel {
                    value: self.slots[a].value,
                    strong: (self.slots[a].strong - 1) as nat,
                },
            ),
            profile: self.profile,
        }
    }

    /// The heap after the value in slot `a` is overwritten with `value`.
    pub open spec fn write(self, a: int, value: T) -> HeapModel<T> {
        HeapModel {
            slots: self.slots.update(a, SlotModel { value, strong: self.slots[a].strong }),
            profile: self.profile,
        }
    }
}

/// The store that owns every allocation of pointee type `T`.
pub struct Heap<T> {
    slots: Vec<Slot<T>>,
    profile: Profile,
}

impl<T> View for Heap<T> {
    type V = HeapModel<T>;

    closed spec fn view(&self) -> HeapModel<T> {
        HeapModel {
            slots: self.slots@.map(
                |i: int, s: Slot<T>| SlotModel { value: s.value, strong: s.strong as nat },
            ),
            profile: self.profile,
        }
    }
}

impl<T> Heap<T> {
    /// Creates an empty heap for the given backend profile.
    pub fn new(profile: Profile) -> (r: Heap<T>)
        ensures
            r@ == (HeapModel::<T> { slots: Seq::empty(), profile }),
    {
        let r = Heap { slots: Vec::new(), profile };
        proof {
            assert(r@ =~= HeapModel::<T> { slots: Seq::empty(), profile });
        }
        r
    }

    /// The backend profile this heap was built for.
    pub fn profile(&self) -> (r: Profile)
        ensures
            r == self@.profile,
    {
        self.profile
    }

    /// Allocates `value` into a fresh slot and returns the first strong
    /// handle to it. The new address is distinct from every existing slot.
    pub fn allocate(&mut self, value: T) -> (r: Ptr<T>)
        requires
            old(self)@.len() < usize::MAX,
        ensures
            final(self)@ == old(self)@.allocate(value),
            r.addr() == old(self)@.len(),
            final(self)@.live(r.addr() as int),
            r.is_addressable(),
    {
        let addr = self.slots.len();
        self.slots.push(Slot { value, strong: 1 });
        proof {
            assert(self@ =~= old(self)@.allocate(value));
        }
        Ptr { addr, phantom: PhantomData }
    }

    /// Allocates an already-boxed value into a fresh slot. Every profile
    /// supports this for sized pointees; the unsized boxed construction that
    /// the collector backends cannot perform does not arise here, because an
    /// unsized pointee is rejected at the type level.
    pub fn allocate_boxed(&mut self, boxed: Box<T>) -> (r: Ptr<T>)
        requires
            old(self)@.len() < usize::MAX,
        ensures
            final(self)@ == old(self)@.allocate(*boxed),
            r.addr() == old(self)@.len(),
            final(self)@.live(r.addr() as int),
            r.is_addressable(),
    {
        self.allocate(*boxed)
    }

    /// Registers one more strong owner of the allocation `p` names and
    /// returns the new handle. The clone names the same allocation, so it is
    /// `ptr_eq` to `p` and shares its address.
    pub fn clone_ptr(&mut self, p: &Ptr<T>) -> (r: Ptr<T>)
        requires
            old(self)@.live(p.addr() as int),
            old(self)@.strong_at(p.addr() as int) < usize::MAX,
        ensures
            final(self)@ == old(self)@.retain(p.addr() as int),
            r.addr() == p.addr(),
    {
        let a = p.addr;
        let elem = &mut self.slots[a];
        elem.strong = elem.strong + 1;
        proof {
            assert(self@ =~= old(self)@.retain(p.addr() as int));
        }
        Ptr { addr: a, phantom: PhantomData }
    }

    /// Gives up the strong handle `p`. When the released owner was the last
    /// one the slot becomes dead: under the refcount profiles the value is
    /// reclaimed at once, under the collector profiles at the next pass, and
    /// in both cases no operation reaches the slot again.
    pub fn drop_ptr(&mut self, p: Ptr<T>)
        requires
            old(self)@.live(p.addr() as int),
        ensures
            final(self)@ == old(self)@.release(p.addr() as int),
    {
        let a = p.addr;
        let elem = &mut self.slots[a];
        elem.strong = elem.strong - 1;
        proof {
            assert(self@ =~= old(self)@.release(p.addr() as int));
        }
    }

    /// Exclusive access to the value behind `p`, for the one wrapper type
    /// whose contents may be mutated through a shared handle (the cell, which
    /// gates the mutation with its own borrow discipline).
    pub(crate) fn value_mut<'a>(&'a mut self, p: &Ptr<T>) -> (r: &'a mut T)
        requires
            old(self)@.live(p.addr() as int),
        ensures
            *r == old(self)@.value_at(p.addr() as int),
            final(self)@ == old(self)@.write(p.addr() as int, *final(r)),
    {
        &mut self.slots[p.addr].value
    }

    /// Reads the value the handle `p` points at.
    pub fn get<'a>(&'a self, p: &Ptr<T>) -> (r: &'a T)
        requires
            self@.live(p.addr() as int),
        ensures
            *r == self@.value_at(p.addr() as int),
    {
        &self.slots[p.addr].value
    }
}

/// An immutable pointer to a value in allocated memory.
///
/// A `Ptr` is a strong handle into the [`Heap`] that allocated it. Handles
/// are duplicated with [`Heap::clone_ptr`] and given up with
/// [`Heap::drop_ptr`], so the heap's strong counts track the live handles.
pub struct Ptr<T> {
    addr: usize,
    phantom: PhantomData<T>,
}

impl<T> Ptr<T> {
    /// The address of the allocation this handle names.
    pub closed spec fn addr(self) -> usize {
        self.addr
    }

    /// True when the address is representable inside an
    /// [`OptPtr`](crate::opt_ptr::OptPtr), whose empty state reserves the
    /// one address no heap ever allocates.
    pub open spec fn is_addressable(self) -> bool {
        self.addr() != usize::MAX
    }

    /// Both handles name the same allocation.
    pub open spec fn same_allocation(self, other: Ptr<T>) -> bool {
        self.addr() == other.addr()
    }

    /// Converts from the backend's pointer representation to a `Ptr`.
    pub fn from_inner(inner: Address) -> (r: Ptr<T>)
        ensures
            r.addr() == inner.value,
    {
        Ptr { addr: inner.value, phantom: PhantomData }
    }

    /// Returns true if the two `Ptr`s point to the same allocation.
    pub fn ptr_eq(this: &Ptr<T>, other: &Ptr<T>) -> (r: bool)
        ensures
            r == this.same_allocation(*other),
    {
        this.addr == other.addr
    }

    /// Returns the address of the allocated memory: an identity token that
    /// is stable across clones and distinct across independent allocations.
    pub fn address(this: &Ptr<T>) -> (r: Address)
        ensures
            r.value == this.addr(),
    {
        Address { value: this.addr }
    }

    /// Returns the number of strong owners of the allocation.
    ///
    /// Under the refcount profiles this is exactly the number of live
    /// handles. Under the collector profiles it is the collector-maintained
    /// count, which says nothing about reachability through cycles: it must
    /// not be used as a liveness oracle there.
    pub fn ref_count(this: &Ptr<T>, heap: &Heap<T>) -> (r: usize)
        requires
            heap@.live(this.addr() as int),
        ensures
            r as nat == heap@.strong_at(this.addr() as int),
    {
        heap.slots[this.addr].strong
    }
}

impl<T: Clone> Ptr<T> {
    /// Makes a mutable reference into the owned `T`.
    ///
    /// If this handle is the only owner the value is mutated in place and the
    /// handle keeps its address. Otherwise the value is cloned first: the
    /// handle moves to the fresh allocation holding the clone, while every
    /// other owner keeps the original, unmodified value at the old address.
    pub fn make_mut<'a>(this: &mut Ptr<T>, heap: &'a mut Heap<T>) -> (r: &'a mut T)
        requires
            old(heap)@.live(old(this).addr() as int),
            old(heap)@.len() < usize::MAX,
        ensures
            old(heap)@.strong_at(old(this).addr() as int) == 1 ==> *final(this) == *old(this)
                && *r == old(heap)@.value_at(old(this).addr() as int) && final(heap)@ == old(
                heap,
            )@.write(old(this).addr() as int, *final(r)),
            old(heap)@.strong_at(old(this).addr() as int) >= 2 ==> final(this).addr() == old(
                heap,
            )@.len() && cloned(old(heap)@.value_at(old(this).addr() as int), *r) && final(heap)@
                == old(heap)@.release(old(this).addr() as int).allocate(*final(r)),
    {
        let a = this.addr;
        if self_strong(heap, a) == 1 {
            &mut heap.slots[a].value
        } else {
            let copy = heap.slots[a].value.clone();
            let elem = &mut heap.slots[a];
            elem.strong = elem.strong - 1;
            let fresh_addr = heap.slots.len();
            heap.slots.push(Slot { value: copy, strong: 1 });
            this.addr = fresh_addr;
            &mut heap.slots[fresh_addr].value
        }
    }
}

/// Reads the strong count of slot `a`.
fn self_strong<T>(heap: &Heap<T>, a: usize) -> (r: usize)
    requires
        heap@.live(a as int),
    ensures
        r as nat == heap@.strong_at(a as int),
{
    heap.slots[a].strong
}

/// A handle cloned from a live pointer names the same allocation: the clone
/// and its source are `ptr_eq`, they report the same address, and the
/// allocation's value and liveness are untouched by the extra owner.
pub proof fn lemma_clone_preserves_identity<T>(m: HeapModel<T>, p: Ptr<T>, r: Ptr<T>)
    requires
        m.live(p.addr() as int),
        m.strong_at(p.addr() as int) < usize::MAX,
        r.addr() == p.addr(),
    ensures
        r.same_allocation(p),
        p.same_allocation(r),
        m.retain(p.addr() as int).value_at(p.addr() as int) == m.value_at(p.addr() as int),
        m.retain(p.addr() as int).live(p.addr() as int),
{
}

/// Two independently constructed pointers are never `ptr_eq`, however equal
/// the values they point at: the first allocation is handed the address
/// `m.len()`, the second the address `m.allocate(v1).len()`, and those
/// differ. Moreover a fresh address differs from every live address, so an
/// allocation never collides with an existing pointer.
pub proof fn lemma_independent_allocations_distinct<T>(m: HeapModel<T>, v1: T, a: int)
    requires
        m.live(a),
    ensures
        m.len() != m.allocate(v1).len(),
        a != m.len(),
        m.allocate(v1).value_at(a) == m.value_at(a),
        m.allocate(v1).strong_at(a) == m.strong_at(a),
{
}

/// `make_mut` on a uniquely owned pointer mutates in place: the heap keeps
/// its length, the slot keeps its single owner, and the handle's address is
/// unchanged; only the stored value moves.
pub proof fn lemma_make_mut_unique_in_place<T>(m: HeapModel<T>, a: int, v: T)
    requires
        m.live(a),
        m.strong_at(a) == 1,
    ensures
        m.write(a, v).len() == m.len(),
        m.write(a, v).strong_at(a) == 1,
        m.write(a, v).value_at(a) == v,
{
}

/// `make_mut` on a pointer with at least two owners moves the mutated handle
/// to a fresh address and leaves every other owner untouched: any live slot
/// `q` keeps its value and stays live in the heap that `make_mut` leaves
/// behind, and the fresh address collides with no live address.
pub proof fn lemma_make_mut_shared_preserves_others<T>(m: HeapModel<T>, a: int, v: T, q: int)
    requires
        m.live(a),
        m.strong_at(a) >= 2,
        m.live(q),
    ensures
        m.len() != q,
        m.release(a).allocate(v).value_at(q) == m.value_at(q),
        m.release(a).allocate(v).live(q),
        m.release(a).allocate(v).value_at(m.len() as int) == v,
{
}

} // verus!
