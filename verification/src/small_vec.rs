//! A compact record of allocation addresses, backed by `smallvec`.
//!
//! Traversals record the allocations they reach; most visits touch only a
//! handful of addresses, so the record keeps a small number of them inline
//! before spilling to the heap. The buffer itself comes from the `smallvec`
//! crate and is opaque to the verifier: its contents are named by
//! [`small_vec_items`] and every operation is stated over that name.

use vstd::prelude::*;

use crate::address::Address;

verus! {

/// Holds the `smallvec` buffer; the verifier cannot see through the
/// `smallvec::Array` bound on the buffer's type, so the field is hidden and
/// the contents are reached only through [`small_vec_items`].
#[verifier::external_body]
pub struct AddressBuffer {
    items: smallvec::SmallVec<[usize; 8]>,
}

/// The items an address buffer holds, in order.
pub uninterp spec fn small_vec_items(v: AddressBuffer) -> Seq<usize>;

/// Relies on `smallvec::SmallVec::new`: constructs an empty vector.
#[verifier::external_body]
fn small_vec_new() -> (r: AddressBuffer)
    ensures
        small_vec_items(r) == Seq::<usize>::empty(),
{
    AddressBuffer { items: smallvec::SmallVec::new() }
}

/// Relies on `smallvec::SmallVec::with_capacity`: constructs an empty
/// vector with room for at least `n` items already reserved.
#[verifier::external_body]
fn small_vec_with_capacity(n: usize) -> (r: AddressBuffer)
    ensures
        small_vec_items(r) == Seq::<usize>::empty(),
{
    AddressBuffer { items: smallvec::SmallVec::with_capacity(n) }
}

/// Relies on `smallvec::SmallVec::from_vec`: the result holds exactly the
/// vector's items, in order.
#[verifier::external_body]
fn small_vec_from_vec(vec: Vec<usize>) -> (r: AddressBuffer)
    ensures
        small_vec_items(r) == vec@,
{
    AddressBuffer { items: smallvec::SmallVec::from_vec(vec) }
}

/// Relies on `smallvec::SmallVec::push`: appends one item.
#[verifier::external_body]
fn small_vec_push(v: &mut AddressBuffer, item: usize)
    ensures
        small_vec_items(*final(v)) == small_vec_items(*old(v)).push(item),
{
    v.items.push(item)
}

/// Relies on `smallvec::SmallVec::len`: the number of stored items.
#[verifier::external_body]
fn small_vec_len(v: &AddressBuffer) -> (r: usize)
    ensures
        r == small_vec_items(*v).len(),
{
    v.items.len()
}

/// Relies on `smallvec::SmallVec`'s deref to a slice: reads the item at
/// `index`.
#[verifier::external_body]
fn small_vec_get(v: &AddressBuffer, index: usize) -> (r: usize)
    requires
        index < small_vec_items(*v).len(),
    ensures
        r == small_vec_items(*v)[index as int],
{
    v.items[index]
}

/// A compact, growable list of allocation addresses that stores a few
/// entries inline before spilling to the heap.
pub struct AddressVec {
    items: AddressBuffer,
}

impl View for AddressVec {
    type V = Seq<Address>;

    closed spec fn view(&self) -> Seq<Address> {
        small_vec_items(self.items).map(|i: int, v: usize| Address { value: v })
    }
}

impl AddressVec {
    /// Constructs an empty record.
    pub fn new() -> (r: AddressVec)
        ensures
            r@ == Seq::<Address>::empty(),
    {
        let r = AddressVec { items: small_vec_new() };
        proof {
            assert(r@ =~= Seq::<Address>::empty());
        }
        r
    }

    /// Constructs an empty record with room for at least `capacity` entries
    /// already reserved.
    pub fn with_capacity(capacity: usize) -> (r: AddressVec)
        ensures
            r@ == Seq::<Address>::empty(),
    {
        let r = AddressVec { items: small_vec_with_capacity(capacity) };
        proof {
            assert(r@ =~= Seq::<Address>::empty());
        }
        r
    }

    /// Constructs a record holding exactly the given addresses, in order.
    pub fn from_vec(vec: Vec<Address>) -> (r: AddressVec)
        ensures
            r@ == vec@,
    {
        let mut raw: Vec<usize> = Vec::new();
        let mut k: usize = 0;
        while k < vec.len()
            invariant
                k <= vec.len(),
                raw@.len() == k,
                forall|i: int| 0 <= i < k ==> raw@[i] == vec@[i].value,
            decreases vec.len() - k,
        {
            raw.push(vec[k].value);
            k = k + 1;
        }
        let r = AddressVec { items: small_vec_from_vec(raw) };
        proof {
            assert(r@ =~= vec@);
        }
        r
    }

    /// Appends one address.
    pub fn push(&mut self, address: Address)
        ensures
            final(self)@ == old(self)@.push(address),
    {
        small_vec_push(&mut self.items, address.value);
        proof {
            assert(self@ =~= old(self)@.push(address));
        }
    }

    /// The number of recorded addresses.
    pub fn len(&self) -> (r: usize)
        ensures
            r == self@.len(),
    {
        small_vec_len(&self.items)
    }

    /// Reads the address at `index`.
    pub fn get(&self, index: usize) -> (r: Address)
        requires
            index < self@.len(),
        ensures
            r == self@[index as int],
    {
        Address { value: small_vec_get(&self.items, index) }
    }
}

} // verus!
