//! Opaque identity tokens for heap allocations.

use vstd::prelude::*;

verus! {

/// The identity of one allocation in a [`Heap`](crate::ptr::Heap).
///
/// An address is stable across clones of a pointer and distinct across
/// independent allocations; it carries no access rights.
#[derive(Clone, Copy, Debug, PartialEq, Eq, Hash, Structural)]
pub struct Address {
    /// The slot index inside the heap that allocated the pointee.
    pub value: usize,
}

} // verus!
