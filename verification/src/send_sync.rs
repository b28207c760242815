//! Cross-thread-safety capabilities used throughout the runtime.
//!
//! Under the single-thread profiles these are empty traits implemented for
//! all types, so sharing a pointer across threads is rejected at the type
//! level only by the backend's own types. Under the multi-thread profiles
//! they stand for the real cross-thread-safety capabilities, which are
//! type-system facts of that backend build; this single-process model keeps
//! the single-thread reading, where every type qualifies.

use vstd::prelude::*;

verus! {

/// An empty trait for single-threaded contexts, implemented for all types.
pub trait KotoSend {

}

impl<T> KotoSend for T {

}

/// An empty trait for single-threaded contexts, implemented for all types.
pub trait KotoSync {

}

impl<T> KotoSync for T {

}

} // verus!
