//! The capability bounds a pointee type must satisfy.
//!
//! Each backend profile asks something different of a `T` behind a pointer:
//! nothing beyond the trace capability for the refcount profiles, permanence
//! for the collector profiles, cross-thread-safety for the multi-thread
//! profiles. Those extras are type-system facts of the respective backend
//! build; in this single-process model every type satisfies them, so both
//! bounds reduce to the trace capability, exactly as under the
//! single-thread refcount profile.

use vstd::prelude::*;

use crate::trace::KotoTrace;

verus! {

/// A set of bounds that a `T` of [`Ptr<T>`](crate::Ptr) must satisfy.
pub trait Pointee: KotoTrace {

}

impl<T: KotoTrace> Pointee for T {

}

/// A given set of traits that a `T` of
/// [`OptPtr<T>`](crate::OptPtr) and [`PtrMut<T>`](crate::PtrMut) must
/// implement.
pub trait PointeeTraits: KotoTrace {

}

impl<T: KotoTrace> PointeeTraits for T {

}

} // verus!
