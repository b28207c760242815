//! Memory-management core for an embeddable scripting-language runtime.
//!
//! The crate supplies one pointer abstraction that can be realised on top of
//! four mutually exclusive ownership strategies (single- or multi-threaded
//! reference counting, single- or multi-threaded cycle-collecting garbage
//! collection), an optional-pointer variant, an interior-mutable cell with a
//! runtime-checked borrow discipline, and the traversal protocol that a
//! cycle-collecting backend uses to find live data through cycles.
//!
//! Allocations live in an explicit [`Heap`] store, so every operation on a
//! pointer is stated and proved against a mathematical model of that store.

mod address;
mod dummy;
mod opt_ptr;
mod pointee;
mod profile;
mod ptr;
mod ptr_mut;
mod send_sync;
mod small_vec;
mod trace;
mod untrace;

pub use address::Address;
pub use dummy::DummyBorrow;
pub use dummy::DummyBorrowMut;
pub use dummy::DummyCell;
pub use dummy::DummyPtr;
pub use opt_ptr::NONE_ADDRESS;
pub use opt_ptr::OptPtr;
pub use opt_ptr::lemma_option_round_trip;
pub use opt_ptr::opt_of;
pub use profile::Profile;
pub use profile::ProfileError;
pub use profile::select_profile;
pub use pointee::Pointee;
pub use pointee::PointeeTraits;
pub use ptr::Heap;
pub use ptr::HeapModel;
pub use ptr::Ptr;
pub use ptr::SlotModel;
pub use ptr::lemma_clone_preserves_identity;
pub use ptr::lemma_independent_allocations_distinct;
pub use ptr::lemma_make_mut_shared_preserves_others;
pub use ptr::lemma_make_mut_unique_in_place;
pub use ptr_mut::Borrow;
pub use ptr_mut::BorrowMut;
pub use ptr_mut::KCell;
pub use ptr_mut::PtrMut;
pub use send_sync::KotoSend;
pub use send_sync::KotoSync;
pub use small_vec::AddressVec;
pub use small_vec::small_vec_items;
pub use trace::KotoTrace;
pub use trace::TraceNode;
pub use trace::TraceVisitor;
pub use trace::TracedField;
pub use trace::fields_addresses;
pub use trace::generate_trace_plan;
pub use trace::lemma_ignored_field_not_visited;
pub use trace::lemma_plan_indices_in_range;
pub use trace::lemma_plan_matches_traversal;
pub use trace::lemma_whole_type_ignore;
pub use trace::owned_addresses_prefix;
pub use trace::plan_spec;
pub use trace::planned_addresses;
pub use trace::run_succeeds;
pub use trace::run_trace_plan;
pub use trace::trace;
pub use trace::trace_fields;
pub use trace::visited_after;
pub use untrace::Untrace;
