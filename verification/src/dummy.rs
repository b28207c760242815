//! Placeholder backend types for the unconfigured build.
//!
//! When no backend profile is selected the build is already a fatal
//! configuration error (see [`select_profile`](crate::select_profile)), but
//! the pointer and cell names must still exist so that the error the user
//! sees is the selection diagnostic and nothing else. These placeholders
//! fill the names: each holds a private marker no caller can produce and the
//! library never produces, so no value of them ever exists and they carry no
//! operations.

use vstd::prelude::*;

use core::marker::PhantomData;

verus! {

/// Marks the unconfigured backend. Private to this module and never
/// constructed: selection fails before any backend type is ever needed.
struct NoProfile {
    marker: PhantomData<()>,
}

/// The pointer type of the unconfigured backend; never inhabited.
pub struct DummyPtr<T> {
    no_profile: NoProfile,
    phantom: PhantomData<T>,
}

/// The cell type of the unconfigured backend; never inhabited.
pub struct DummyCell<T> {
    no_profile: NoProfile,
    phantom: PhantomData<T>,
}

/// The shared-borrow guard of the unconfigured backend; never inhabited.
pub struct DummyBorrow<T> {
    no_profile: NoProfile,
    phantom: PhantomData<T>,
}

/// The exclusive-borrow guard of the unconfigured backend; never inhabited.
pub struct DummyBorrowMut<T> {
    no_profile: NoProfile,
    phantom: PhantomData<T>,
}

} // verus!
