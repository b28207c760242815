//! The explicit escape hatch that hides a value from traversal.

use vstd::prelude::*;

use crate::address::Address;
use crate::trace::TraceNode;

verus! {

/// Wraps any value to report no owned pointers to the traversal, even when
/// that is not strictly true.
///
/// This is a deliberate trust boundary: if the wrapped value secretly
/// retains pointers reachable only through a cycle, the collector profiles
/// can never reclaim that cycle — they stay unreachable but unreclaimed. The
/// wrapper is loudly named on purpose and is never a default; it exists for
/// values whose internal structure cannot take part in the protocol.
#[derive(Debug, Clone, Copy, PartialEq, Eq, PartialOrd, Ord, Hash)]
pub struct Untrace<T>(pub T);

impl<T> Untrace<T> {
    /// The traversal contribution: none at all, whatever the wrapped value
    /// actually owns.
    pub fn trace_node(&self) -> (r: TraceNode)
        ensures
            r == TraceNode::Empty,
            r.owned_addresses() == Seq::<Address>::empty(),
    {
        TraceNode::Empty
    }

    /// Reads the wrapped value.
    pub fn get(&self) -> (r: &T)
        ensures
            *r == self.0,
    {
        &self.0
    }

    /// Mutates the wrapped value in place.
    pub fn get_mut(&mut self) -> (r: &mut T)
        ensures
            *r == old(self).0,
            final(self).0 == *final(r),
    {
        &mut self.0
    }

    /// Unwraps the value.
    pub fn into_inner(self) -> (r: T)
        ensures
            r == self.0,
    {
        self.0
    }
}

} // verus!
