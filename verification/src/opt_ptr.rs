//! The optional pointer: zero or one [`Ptr<T>`] in a single word.
//!
//! Instead of a separate discriminant, the empty state reuses the backend's
//! own null-pointer representation: the one address no heap ever allocates.
//! That niche saves a word per slot in bulk-allocated runtime structures,
//! and it is internal: the observable behaviour is exactly that of an
//! explicit option, stated here as the view.

use vstd::prelude::*;

use crate::address::Address;
use crate::ptr::Heap;
use crate::ptr::Ptr;

verus! {

/// The reserved null address that represents the empty optional pointer. A
/// heap hands out addresses below its length, which stays below this value,
/// so no live pointer ever carries it.
pub const NONE_ADDRESS: usize = usize::MAX;

/// Zero or one [`Ptr<T>`], niche-optimized: the empty state is the reserved
/// null address rather than a separate tag, so the whole value is one word.
/// The view is the explicit option it behaves as.
pub struct OptPtr<T> {
    inner: Ptr<T>,
}

impl<T> View for OptPtr<T> {
    type V = Option<Ptr<T>>;

    closed spec fn view(&self) -> Option<Ptr<T>> {
        if self.inner.addr() == NONE_ADDRESS {
            None
        } else {
            Some(self.inner)
        }
    }
}

/// The optional pointer a bare handle stands for: empty exactly when the
/// handle carries the reserved null address.
pub open spec fn opt_of<T>(ptr: Ptr<T>) -> Option<Ptr<T>> {
    if ptr.is_addressable() {
        Some(ptr)
    } else {
        None
    }
}

impl<T> OptPtr<T> {
    /// The underlying handle: the niche representation itself, which is the
    /// reserved null address exactly when the optional pointer is empty.
    pub closed spec fn repr(self) -> Ptr<T> {
        self.inner
    }

    /// The empty optional pointer.
    pub fn none() -> (r: OptPtr<T>)
        ensures
            r@ is None,
    {
        OptPtr { inner: Ptr::from_inner(Address { value: NONE_ADDRESS }) }
    }

    /// Creates an `OptPtr<T>` from a `Ptr<T>`.
    pub fn some(ptr: Ptr<T>) -> (r: OptPtr<T>)
        requires
            ptr.is_addressable(),
        ensures
            r@ == Some(ptr),
    {
        OptPtr { inner: ptr }
    }

    /// True when a pointer is present.
    pub fn is_some(&self) -> (r: bool)
        ensures
            r == (self@ is Some),
    {
        Ptr::address(&self.inner).value != NONE_ADDRESS
    }

    /// True when empty.
    pub fn is_none(&self) -> (r: bool)
        ensures
            r == (self@ is None),
    {
        Ptr::address(&self.inner).value == NONE_ADDRESS
    }

    /// Non-owning access to the contained pointer, if any.
    pub fn as_ref(&self) -> (r: Option<&Ptr<T>>)
        ensures
            match r {
                Some(p) => self@ == Some(*p),
                None => self@ is None,
            },
    {
        if Ptr::address(&self.inner).value != NONE_ADDRESS {
            Some(&self.inner)
        } else {
            None
        }
    }

    /// Mutable access to the contained pointer, if any. The pointer written
    /// through the result must stay addressable for the optional pointer to
    /// keep holding it.
    pub fn as_mut(&mut self) -> (r: Option<&mut Ptr<T>>)
        ensures
            r is Some <==> old(self)@ is Some,
            r is None ==> *final(self) == *old(self),
            r matches Some(p) ==> *p == old(self)@.unwrap() && final(self)@ == opt_of(*final(p)),
    {
        if Ptr::address(&self.inner).value != NONE_ADDRESS {
            Some(&mut self.inner)
        } else {
            None
        }
    }

    /// Consumes self, yielding the explicit optional pointer.
    pub fn into_option(self) -> (r: Option<Ptr<T>>)
        ensures
            r == self@,
    {
        if Ptr::address(&self.inner).value != NONE_ADDRESS {
            Some(self.inner)
        } else {
            None
        }
    }

    /// Inserts a `Ptr<T>` computed from `f` if this optional pointer is
    /// empty, then returns a mutable reference to the contained pointer.
    pub fn get_or_insert_with<F: FnOnce() -> Ptr<T>>(&mut self, f: F) -> (r: &mut Ptr<T>)
        requires
            call_requires(f, ()),
            forall|p: Ptr<T>| call_ensures(f, (), p) ==> p.is_addressable(),
        ensures
            old(self)@ matches Some(p) ==> *r == p,
            old(self)@ is None ==> call_ensures(f, (), *r),
            final(self)@ == opt_of(*final(r)),
    {
        if Ptr::address(&self.inner).value == NONE_ADDRESS {
            self.inner = f();
        }
        &mut self.inner
    }

    /// Inserts a pointer to a freshly allocated default value if this
    /// optional pointer is empty, then returns a mutable reference to the
    /// contained pointer.
    pub fn get_or_insert_default(&mut self, heap: &mut Heap<T>) -> (r: &mut Ptr<T>) where
        T: Default,

        requires
            old(heap)@.len() < usize::MAX,
        ensures
            old(self)@ matches Some(p) ==> *r == p && *final(heap) == *old(heap),
            old(self)@ is None ==> {
                &&& r.addr() == old(heap)@.len()
                &&& final(heap)@ == old(heap)@.allocate(
                    final(heap)@.value_at(old(heap)@.len() as int),
                )
                &&& call_ensures(
                    <T as core::default::Default>::default,
                    (),
                    final(heap)@.value_at(old(heap)@.len() as int),
                )
            },
            final(self)@ == opt_of(*final(r)),
    {
        if Ptr::address(&self.inner).value == NONE_ADDRESS {
            let value = T::default();
            self.inner = heap.allocate(value);
        }
        &mut self.inner
    }
}

/// Putting a pointer in and taking it out round-trips despite the niche
/// representation. Wrapping an addressable `p` views as `Some(p)`, so
/// `into_option` after `some(p)` yields a pointer that is `ptr_eq` to `p`;
/// a handle at the reserved null address views as nothing, so the empty
/// optional pointer yields nothing.
pub proof fn lemma_option_round_trip<T>(s: OptPtr<T>, n: OptPtr<T>, p: Ptr<T>)
    requires
        s.repr() == p,
        p.is_addressable(),
        !n.repr().is_addressable(),
    ensures
        s@ == Some(p),
        s@.unwrap().same_allocation(p),
        n@ is None,
{
}

} // verus!
