//! The traversal protocol a cycle-collecting backend uses to find live data.
//!
//! A pointee's traversal reports every owned pointer, in declaration order,
//! to a visitor, and propagates the first visitor failure without visiting
//! any further field. [`TraceNode`] is the shape of one value's owned
//! pointers, [`TraceVisitor`] the visitor that records what a traversal
//! reaches (with an optional injected failure point, which is how a
//! collector's abort is exercised), and [`trace`] the traversal itself.
//!
//! The mechanical generation of traversals for user types is the
//! [`generate_trace_plan`] / [`trace_fields`] pair: the plan lists the
//! fields a generated traversal touches, and the traversal visits exactly
//! those fields' pointers.

use vstd::prelude::*;

use crate::address::Address;
use crate::opt_ptr::OptPtr;
use crate::ptr::Ptr;
use crate::ptr_mut::KCell;
use crate::small_vec::AddressVec;

verus! {

/// The capability a type needs to live behind a pointer.
///
/// Under the refcount profiles this is a no-op marker that every type
/// satisfies, because no collector ever traverses the value. Under the
/// collector profiles a pointee must expose its owned pointers as a
/// [`TraceNode`]; the traversal itself is profile-independent.
pub trait KotoTrace {

}

impl<T> KotoTrace for T {

}

/// The owned pointers of one value, in declaration order.
pub enum TraceNode {
    /// The value owns no pointers (plain data, or an ignored field).
    Empty,
    /// The value owns one pointer to the given allocation.
    Pointer(Address),
    /// An aggregate: the owned pointers of each component, in order.
    Sequence(Vec<TraceNode>),
}

impl TraceNode {
    /// The addresses a traversal of this value reports, in order.
    pub open spec fn owned_addresses(self) -> Seq<Address>
        decreases self, 0int,
    {
        match self {
            TraceNode::Empty => Seq::empty(),
            TraceNode::Pointer(a) => seq![a],
            TraceNode::Sequence(children) => owned_addresses_prefix(
                children@,
                children@.len() as int,
            ),
        }
    }
}

/// The addresses the first `n` nodes report, in order.
pub open spec fn owned_addresses_prefix(nodes: Seq<TraceNode>, n: int) -> Seq<Address>
    decreases nodes, n,
{
    if 0 < n <= nodes.len() {
        owned_addresses_prefix(nodes, n - 1) + nodes[n - 1].owned_addresses()
    } else {
        Seq::empty()
    }
}

/// The addresses the nodes `j..m` report, in order.
pub open spec fn owned_addresses_range(nodes: Seq<TraceNode>, j: int, m: int) -> Seq<Address>
    decreases nodes, m,
{
    if 0 <= j < m <= nodes.len() {
        owned_addresses_range(nodes, j, m - 1) + nodes[m - 1].owned_addresses()
    } else {
        Seq::empty()
    }
}

/// A prefix of the reported addresses splits at any point `j`.
proof fn lemma_prefix_split(nodes: Seq<TraceNode>, j: int, m: int)
    requires
        0 <= j <= m <= nodes.len(),
    ensures
        owned_addresses_prefix(nodes, m) == owned_addresses_prefix(nodes, j)
            + owned_addresses_range(nodes, j, m),
    decreases m - j,
{
    if m <= j {
        assert(owned_addresses_prefix(nodes, m) =~= owned_addresses_prefix(nodes, j)
            + owned_addresses_range(nodes, j, m));
    } else {
        lemma_prefix_split(nodes, j, m - 1);
        assert(owned_addresses_prefix(nodes, m) =~= owned_addresses_prefix(nodes, j)
            + owned_addresses_range(nodes, j, m));
    }
}

/// The visitor a traversal reports owned pointers to.
///
/// It records every visited address, in order. A failure point may be
/// injected: once the record has grown to that length the visitor refuses
/// every further visit, which is how a collector signalling a graph
/// invariant violation is modelled and tested.
pub struct TraceVisitor {
    record: AddressVec,
    fail_at: Option<usize>,
}

impl TraceVisitor {
    /// The addresses visited so far, in order.
    pub closed spec fn visited(self) -> Seq<Address> {
        self.record@
    }

    /// The injected failure point, if any.
    pub closed spec fn fail_index(self) -> Option<usize> {
        self.fail_at
    }

    /// The next visit will be refused: the injected failure point is
    /// reached.
    pub open spec fn refuses_next(self) -> bool {
        match self.fail_index() {
            Some(i) => i <= self.visited().len(),
            None => false,
        }
    }

    /// A visitor that accepts every visit.
    pub fn new() -> (r: TraceVisitor)
        ensures
            r.visited() == Seq::<Address>::empty(),
            r.fail_index() is None,
    {
        TraceVisitor { record: AddressVec::new(), fail_at: None }
    }

    /// A visitor that fails while performing its `index`-th visit (counted
    /// from zero) and on every visit after that.
    pub fn failing_at(index: usize) -> (r: TraceVisitor)
        ensures
            r.visited() == Seq::<Address>::empty(),
            r.fail_index() == Some(index),
    {
        TraceVisitor { record: AddressVec::new(), fail_at: Some(index) }
    }

    /// The number of addresses visited so far.
    pub fn visited_count(&self) -> (r: usize)
        ensures
            r == self.visited().len(),
    {
        self.record.len()
    }

    /// The address of the `index`-th visit.
    pub fn visited_address(&self, index: usize) -> (r: Address)
        requires
            index < self.visited().len(),
        ensures
            r == self.visited()[index as int],
    {
        self.record.get(index)
    }

    /// One visit: records the address, unless the failure point is reached,
    /// in which case nothing is recorded and the visit reports failure.
    pub fn visit(&mut self, address: Address) -> (r: Result<(), ()>)
        requires
            old(self).visited().len() < usize::MAX,
        ensures
            final(self).fail_index() == old(self).fail_index(),
            r is Ok <==> !old(self).refuses_next(),
            r is Ok ==> final(self).visited() == old(self).visited().push(address),
            r is Err ==> final(self).visited() == old(self).visited(),
    {
        let refuse = match self.fail_at {
            Some(i) => i <= self.record.len(),
            None => false,
        };
        if refuse {
            Err(())
        } else {
            self.record.push(address);
            Ok(())
        }
    }
}

/// The visit record after the addresses `s` are reported, in order, to a
/// visitor with record `pre` and failure point `fail_at`: recording stops at
/// the failure point, and the refused visit itself is not recorded.
pub open spec fn visited_after(pre: Seq<Address>, fail_at: Option<usize>, s: Seq<Address>) -> Seq<
    Address,
> {
    match fail_at {
        None => pre + s,
        Some(i) => if i <= pre.len() {
            pre
        } else if i - pre.len() < s.len() {
            pre + s.take(i - pre.len())
        } else {
            pre + s
        },
    }
}

/// Reporting the addresses `s` to a visitor with record `pre` and failure
/// point `fail_at` succeeds: the failure point is never reached.
pub open spec fn run_succeeds(pre: Seq<Address>, fail_at: Option<usize>, s: Seq<Address>) -> bool {
    match fail_at {
        None => true,
        Some(i) => s.len() == 0 || i >= pre.len() + s.len(),
    }
}

/// The record never shrinks and grows by at most the reported addresses.
proof fn lemma_visited_after_len(pre: Seq<Address>, fail_at: Option<usize>, s: Seq<Address>)
    ensures
        pre.len() <= visited_after(pre, fail_at, s).len() <= pre.len() + s.len(),
{
}

/// Reporting `s1 + s2` is reporting `s1`, then `s2`: the record composes,
/// and the whole run succeeds exactly when both halves do.
proof fn lemma_visit_run_concat(
    pre: Seq<Address>,
    fail_at: Option<usize>,
    s1: Seq<Address>,
    s2: Seq<Address>,
)
    ensures
        visited_after(pre, fail_at, s1 + s2) == visited_after(
            visited_after(pre, fail_at, s1),
            fail_at,
            s2,
        ),
        run_succeeds(pre, fail_at, s1 + s2) <==> (run_succeeds(pre, fail_at, s1) && run_succeeds(
            visited_after(pre, fail_at, s1),
            fail_at,
            s2,
        )),
{
    let whole = s1 + s2;
    assert(whole.len() == s1.len() + s2.len());
    match fail_at {
        None => {
            assert(visited_after(pre, fail_at, whole) =~= visited_after(
                visited_after(pre, fail_at, s1),
                fail_at,
                s2,
            ));
        },
        Some(i) => {
            if i <= pre.len() {
                assert(visited_after(pre, fail_at, whole) =~= visited_after(
                    visited_after(pre, fail_at, s1),
                    fail_at,
                    s2,
                ));
            } else if i - pre.len() < s1.len() {
                let mid = pre + s1.take(i - pre.len());
                assert(visited_after(pre, fail_at, s1) == mid);
                assert(mid.len() == i);
                assert(whole.take(i - pre.len()) =~= s1.take(i - pre.len()));
                assert(visited_after(pre, fail_at, whole) =~= visited_after(mid, fail_at, s2));
            } else {
                let mid = pre + s1;
                assert(visited_after(pre, fail_at, s1) == mid);
                if i - pre.len() < whole.len() {
                    assert(whole.take(i - pre.len()) =~= s1 + s2.take(i - mid.len()));
                    assert(visited_after(pre, fail_at, whole) =~= visited_after(mid, fail_at, s2));
                } else {
                    assert(visited_after(pre, fail_at, whole) =~= visited_after(mid, fail_at, s2));
                }
            }
        },
    }
}

/// Walks one value, reporting every owned pointer to `visitor` in
/// declaration order. The first visitor failure propagates immediately: no
/// further pointer is visited, and the overall traversal reports failure.
#[verifier::loop_isolation(false)]
pub fn trace(node: &TraceNode, visitor: &mut TraceVisitor) -> (r: Result<(), ()>)
    requires
        old(visitor).visited().len() + node.owned_addresses().len() <= usize::MAX,
    ensures
        final(visitor).fail_index() == old(visitor).fail_index(),
        final(visitor).visited() == visited_after(
            old(visitor).visited(),
            old(visitor).fail_index(),
            node.owned_addresses(),
        ),
        r is Ok <==> run_succeeds(
            old(visitor).visited(),
            old(visitor).fail_index(),
            node.owned_addresses(),
        ),
    decreases *node,
{
    match node {
        TraceNode::Empty => {
            proof {
                assert(visited_after(
                    old(visitor).visited(),
                    old(visitor).fail_index(),
                    node.owned_addresses(),
                ) =~= old(visitor).visited());
            }
            Ok(())
        },
        TraceNode::Pointer(address) => {
            let r = visitor.visit(*address);
            proof {
                let pre = old(visitor).visited();
                let s = node.owned_addresses();
                assert(s =~= seq![*address]);
                if old(visitor).refuses_next() {
                    assert(visited_after(pre, old(visitor).fail_index(), s) =~= pre);
                } else {
                    assert(visited_after(pre, old(visitor).fail_index(), s) =~= pre.push(
                        *address,
                    ));
                }
            }
            r
        },
        TraceNode::Sequence(children) => {
            let ghost pre = old(visitor).visited();
            let ghost fail_at = old(visitor).fail_index();
            let ghost all = node.owned_addresses();
            let n = children.len();
            proof {
                assert(all == owned_addresses_prefix(children@, n as int));
            }
            let mut k: usize = 0;
            while k < n
                invariant
                    k <= n,
                    n == children@.len(),
                    all == owned_addresses_prefix(children@, n as int),
                    pre.len() + all.len() <= usize::MAX,
                    visitor.fail_index() == fail_at,
                    visitor.visited() == visited_after(
                        pre,
                        fail_at,
                        owned_addresses_prefix(children@, k as int),
                    ),
                    run_succeeds(pre, fail_at, owned_addresses_prefix(children@, k as int)),
                decreases n - k,
            {
                let ghost done = owned_addresses_prefix(children@, k as int);
                let ghost here = children@[k as int].owned_addresses();
                proof {
                    assert(decreases_to!(*node => children@[k as int]));
                    lemma_prefix_split(children@, k + 1 as int, n as int);
                    assert(owned_addresses_prefix(children@, k + 1 as int) == done + here);
                    lemma_visited_after_len(pre, fail_at, done);
                    assert(visitor.visited().len() + here.len() <= pre.len() + (done
                        + here).len());
                    assert((done + here).len() <= all.len());
                }
                let r = trace(&children[k], visitor);
                proof {
                    lemma_visit_run_concat(pre, fail_at, done, here);
                }
                match r {
                    Ok(unit) => {
                        let _ = unit;
                    },
                    Err(unit) => {
                        proof {
                            let done1 = owned_addresses_prefix(children@, k + 1 as int);
                            let rest = owned_addresses_range(children@, k + 1 as int, n as int);
                            lemma_visit_run_concat(pre, fail_at, done1, rest);
                            lemma_visited_after_len(pre, fail_at, done1);
                            assert(visited_after(pre, fail_at, all) =~= visitor.visited());
                        }
                        return Err(unit);
                    },
                }
                k = k + 1;
            }
            Ok(())
        },
    }
}

/// One field of a user type as the generated traversal sees it: the field's
/// owned pointers together with its field-level ignore marker. The generator
/// never looks inside an ignored field; the caller guarantees it owns no
/// pointer that needed visiting.
pub struct TracedField {
    /// The field carries the field-level ignore marker.
    pub ignored: bool,
    /// The field's owned pointers.
    pub node: TraceNode,
}

/// The addresses the first `n` fields contribute: nothing for an ignored
/// field, the field's owned pointers otherwise, in declaration order.
pub open spec fn fields_addresses_prefix(fields: Seq<TracedField>, n: int) -> Seq<Address>
    decreases n,
{
    if n <= 0 {
        Seq::empty()
    } else {
        fields_addresses_prefix(fields, n - 1) + (if fields[n - 1].ignored {
            Seq::empty()
        } else {
            fields[n - 1].node.owned_addresses()
        })
    }
}

/// The addresses a generated traversal of a whole value reports: none at
/// all under a whole-type ignore, otherwise the non-ignored fields'
/// pointers in declaration order.
pub open spec fn fields_addresses(fields: Seq<TracedField>, whole_ignored: bool) -> Seq<Address> {
    if whole_ignored {
        Seq::empty()
    } else {
        fields_addresses_prefix(fields, fields.len() as int)
    }
}

/// The addresses the fields `j..m` contribute.
pub open spec fn fields_addresses_range(fields: Seq<TracedField>, j: int, m: int) -> Seq<Address>
    decreases m,
{
    if !(0 <= j < m) {
        Seq::empty()
    } else {
        fields_addresses_range(fields, j, m - 1) + (if fields[m - 1].ignored {
            Seq::empty()
        } else {
            fields[m - 1].node.owned_addresses()
        })
    }
}

/// A prefix of the fields' contributions splits at any point `j`.
proof fn lemma_fields_prefix_split(fields: Seq<TracedField>, j: int, m: int)
    requires
        0 <= j <= m,
    ensures
        fields_addresses_prefix(fields, m) == fields_addresses_prefix(fields, j)
            + fields_addresses_range(fields, j, m),
    decreases m - j,
{
    if m <= j {
        assert(fields_addresses_prefix(fields, m) =~= fields_addresses_prefix(fields, j)
            + fields_addresses_range(fields, j, m));
    } else {
        lemma_fields_prefix_split(fields, j, m - 1);
        assert(fields_addresses_prefix(fields, m) =~= fields_addresses_prefix(fields, j)
            + fields_addresses_range(fields, j, m));
    }
}

/// The indices of the fields kept by the first `n` markers: those without
/// the ignore marker, in declaration order.
pub open spec fn kept_indices(ignored: Seq<bool>, n: int) -> Seq<int>
    decreases n,
{
    if n <= 0 {
        Seq::empty()
    } else {
        kept_indices(ignored, n - 1) + (if ignored[n - 1] {
            Seq::empty()
        } else {
            seq![n - 1]
        })
    }
}

/// The fields a generated traversal visits: every field without the ignore
/// marker, in declaration order — or none at all when the whole type is
/// marked ignored.
pub open spec fn plan_spec(ignored: Seq<bool>, whole_ignored: bool) -> Seq<int> {
    if whole_ignored {
        Seq::empty()
    } else {
        kept_indices(ignored, ignored.len() as int)
    }
}

/// Produces the traversal plan for a type from its field markers: the
/// mechanical step that generates a traversal from a type's declared field
/// layout. Under the refcount profiles no plan is ever consumed — the trace
/// capability is a no-op there — so generation is elided by never calling
/// this.
#[verifier::loop_isolation(false)]
pub fn generate_trace_plan(field_ignored: &Vec<bool>, whole_ignored: bool) -> (plan: Vec<usize>)
    ensures
        plan@.len() == plan_spec(field_ignored@, whole_ignored).len(),
        forall|i: int|
            0 <= i < plan@.len() ==> plan@[i] as int == plan_spec(field_ignored@, whole_ignored)[i],
{
    let mut plan: Vec<usize> = Vec::new();
    if whole_ignored {
        return plan;
    }
    let n = field_ignored.len();
    let mut k: usize = 0;
    while k < n
        invariant
            k <= n,
            n == field_ignored@.len(),
            plan@.len() == kept_indices(field_ignored@, k as int).len(),
            forall|i: int|
                0 <= i < plan@.len() ==> plan@[i] as int == kept_indices(
                    field_ignored@,
                    k as int,
                )[i],
        decreases n - k,
    {
        if !field_ignored[k] {
            plan.push(k);
        }
        k = k + 1;
    }
    plan
}

/// Traverses one value of a user type as the generated code would: each
/// field without the ignore marker is visited in declaration order,
/// recursing into nested aggregates, and the first visitor failure stops the
/// traversal before any further field. Under a whole-type ignore no field is
/// visited at all, whatever the declared field count.
#[verifier::loop_isolation(false)]
pub fn trace_fields(
    fields: &Vec<TracedField>,
    whole_ignored: bool,
    visitor: &mut TraceVisitor,
) -> (r: Result<(), ()>)
    requires
        old(visitor).visited().len() + fields_addresses(fields@, whole_ignored).len()
            <= usize::MAX,
    ensures
        final(visitor).fail_index() == old(visitor).fail_index(),
        final(visitor).visited() == visited_after(
            old(visitor).visited(),
            old(visitor).fail_index(),
            fields_addresses(fields@, whole_ignored),
        ),
        r is Ok <==> run_succeeds(
            old(visitor).visited(),
            old(visitor).fail_index(),
            fields_addresses(fields@, whole_ignored),
        ),
{
    let ghost pre = old(visitor).visited();
    let ghost fail_at = old(visitor).fail_index();
    let ghost all = fields_addresses(fields@, whole_ignored);
    if whole_ignored {
        proof {
            assert(visited_after(pre, fail_at, all) =~= pre);
        }
        return Ok(());
    }
    let n = fields.len();
    proof {
        assert(all == fields_addresses_prefix(fields@, n as int));
    }
    let mut k: usize = 0;
    while k < n
        invariant
            k <= n,
            n == fields@.len(),
            all == fields_addresses_prefix(fields@, n as int),
            pre.len() + all.len() <= usize::MAX,
            visitor.fail_index() == fail_at,
            visitor.visited() == visited_after(
                pre,
                fail_at,
                fields_addresses_prefix(fields@, k as int),
            ),
            run_succeeds(pre, fail_at, fields_addresses_prefix(fields@, k as int)),
        decreases n - k,
    {
        let ghost done = fields_addresses_prefix(fields@, k as int);
        let ghost here = if fields@[k as int].ignored {
            Seq::<Address>::empty()
        } else {
            fields@[k as int].node.owned_addresses()
        };
        proof {
            lemma_fields_prefix_split(fields@, k + 1 as int, n as int);
            assert(fields_addresses_prefix(fields@, k + 1 as int) == done + here);
            lemma_visited_after_len(pre, fail_at, done);
            assert(visitor.visited().len() + here.len() <= pre.len() + (done + here).len());
            assert((done + here).len() <= all.len());
        }
        if !fields[k].ignored {
            let r = trace(&fields[k].node, visitor);
            proof {
                lemma_visit_run_concat(pre, fail_at, done, here);
            }
            match r {
                Ok(unit) => {
                    let _ = unit;
                },
                Err(unit) => {
                    proof {
                        let done1 = fields_addresses_prefix(fields@, k + 1 as int);
                        let rest = fields_addresses_range(fields@, k + 1 as int, n as int);
                        lemma_visit_run_concat(pre, fail_at, done1, rest);
                        lemma_visited_after_len(pre, fail_at, done1);
                        assert(visited_after(pre, fail_at, all) =~= visitor.visited());
                    }
                    return Err(unit);
                },
            }
        } else {
            proof {
                lemma_visit_run_concat(pre, fail_at, done, here);
                assert(visited_after(pre, fail_at, done + here) =~= visitor.visited());
            }
        }
        k = k + 1;
    }
    Ok(())
}

impl<T> Ptr<T> {
    /// The traversal contribution of a pointer field: one visit, to the
    /// allocation the handle names.
    pub fn trace_node(this: &Ptr<T>) -> (r: TraceNode)
        ensures
            r == TraceNode::Pointer(Address { value: this.addr() }),
            r.owned_addresses() == seq![Address { value: this.addr() }],
    {
        TraceNode::Pointer(Ptr::address(this))
    }
}

impl<T> OptPtr<T> {
    /// The traversal contribution of an optional-pointer field: one visit
    /// when a pointer is present, none when empty — the backend's null
    /// representation is never visited.
    pub fn trace_node(&self) -> (r: TraceNode)
        ensures
            self@ matches Some(p) ==> r == TraceNode::Pointer(Address { value: p.addr() })
                && r.owned_addresses() == seq![Address { value: p.addr() }],
            self@ is None ==> r == TraceNode::Empty && r.owned_addresses() == Seq::<
                Address,
            >::empty(),
    {
        match self.as_ref() {
            Some(p) => TraceNode::Pointer(Ptr::address(p)),
            None => TraceNode::Empty,
        }
    }
}

impl<T> KCell<T> {
    /// Traversal reads a cell like any shared access, so while the cell is
    /// exclusively borrowed the traversal fails — a visitor-level failure
    /// that propagates outward — and otherwise the contents' contribution
    /// passes through unchanged.
    pub fn trace_gate(&self, inner: TraceNode) -> (r: Result<TraceNode, ()>)
        ensures
            self.is_writing() ==> r is Err,
            !self.is_writing() ==> r == Ok::<TraceNode, ()>(inner),
    {
        if self.exclusively_borrowed() {
            Err(())
        } else {
            Ok(inner)
        }
    }
}

/// Two node sequences agreeing on their first `n` entries report the same
/// addresses there.
proof fn lemma_prefix_agrees(a: Seq<TraceNode>, b: Seq<TraceNode>, n: int)
    requires
        n <= a.len(),
        n <= b.len(),
        forall|j: int| 0 <= j < n ==> a[j] == b[j],
    ensures
        owned_addresses_prefix(a, n) == owned_addresses_prefix(b, n),
    decreases n,
{
    if n > 0 {
        lemma_prefix_agrees(a, b, n - 1);
    }
}

impl AddressVec {
    /// The traversal contribution of a collection of pointers: one visit
    /// per element, in collection order.
    #[verifier::loop_isolation(false)]
    pub fn trace_node(&self) -> (r: TraceNode)
        ensures
            r.owned_addresses() == self@,
    {
        let mut children: Vec<TraceNode> = Vec::new();
        let n = self.len();
        let mut k: usize = 0;
        while k < n
            invariant
                k <= n,
                children@.len() == k,
                forall|j: int| 0 <= j < k ==> children@[j] == TraceNode::Pointer(self@[j]),
                owned_addresses_prefix(children@, k as int) == self@.take(k as int),
            decreases n - k,
        {
            let ghost before = children@;
            children.push(TraceNode::Pointer(self.get(k)));
            proof {
                lemma_prefix_agrees(before, children@, k as int);
                assert(owned_addresses_prefix(children@, k as int) == self@.take(k as int));
                assert(children@[k as int] == TraceNode::Pointer(self@[k as int]));
                assert(children@[k as int].owned_addresses() =~= seq![self@[k as int]]);
                assert(owned_addresses_prefix(children@, k + 1 as int) == owned_addresses_prefix(
                    children@,
                    k as int,
                ) + children@[k as int].owned_addresses());
                assert(owned_addresses_prefix(children@, k + 1 as int) =~= self@.take(
                    k + 1 as int,
                ));
            }
            k = k + 1;
        }
        proof {
            assert(self@.take(n as int) =~= self@);
        }
        TraceNode::Sequence(children)
    }
}

/// A whole-type ignore empties both artifacts of the generator: the plan
/// lists no fields and the traversal reports no addresses, whatever the
/// declared field count and whatever the fields own.
pub proof fn lemma_whole_type_ignore(ignored: Seq<bool>, fields: Seq<TracedField>)
    ensures
        plan_spec(ignored, true) == Seq::<int>::empty(),
        fields_addresses(fields, true) == Seq::<Address>::empty(),
{
}

/// The addresses of the planned fields, in plan order.
pub open spec fn planned_addresses(fields: Seq<TracedField>, plan: Seq<int>) -> Seq<Address>
    decreases plan.len(),
{
    if plan.len() == 0 {
        Seq::empty()
    } else {
        planned_addresses(fields, plan.drop_last()) + fields[plan.last()].node.owned_addresses()
    }
}

/// The generated plan and the traversal agree: over a value whose field
/// markers the plan was generated from, visiting the planned fields in plan
/// order reports exactly the addresses the traversal reports.
pub proof fn lemma_plan_matches_traversal(
    fields: Seq<TracedField>,
    ignored: Seq<bool>,
    whole_ignored: bool,
)
    requires
        ignored.len() == fields.len(),
        forall|i: int| 0 <= i < fields.len() ==> ignored[i] == fields[i].ignored,
    ensures
        planned_addresses(fields, plan_spec(ignored, whole_ignored)) == fields_addresses(
            fields,
            whole_ignored,
        ),
{
    if !whole_ignored {
        lemma_plan_prefix(fields, ignored, fields.len() as int);
    }
}

/// The plan over the first `n` markers visits what the first `n` fields
/// contribute.
proof fn lemma_plan_prefix(fields: Seq<TracedField>, ignored: Seq<bool>, n: int)
    requires
        ignored.len() == fields.len(),
        0 <= n <= fields.len(),
        forall|i: int| 0 <= i < fields.len() ==> ignored[i] == fields[i].ignored,
    ensures
        planned_addresses(fields, kept_indices(ignored, n)) == fields_addresses_prefix(fields, n),
    decreases n,
{
    if n <= 0 {
        assert(planned_addresses(fields, kept_indices(ignored, n)) =~= fields_addresses_prefix(
            fields,
            n,
        ));
    } else {
        lemma_plan_prefix(fields, ignored, n - 1);
        let shorter = kept_indices(ignored, n - 1);
        if ignored[n - 1] {
            assert(kept_indices(ignored, n) =~= shorter);
            assert(fields_addresses_prefix(fields, n) =~= fields_addresses_prefix(fields, n - 1));
        } else {
            let longer = kept_indices(ignored, n);
            assert(longer =~= shorter.push(n - 1));
            assert(longer.drop_last() =~= shorter);
            assert(longer.last() == n - 1);
            assert(planned_addresses(fields, longer) == planned_addresses(fields, shorter)
                + fields[n - 1].node.owned_addresses());
        }
    }
}

/// Every index a plan lists names a declared field.
pub proof fn lemma_plan_indices_in_range(ignored: Seq<bool>, n: int)
    requires
        0 <= n <= ignored.len(),
    ensures
        forall|i: int|
            0 <= i < kept_indices(ignored, n).len() ==> 0 <= #[trigger] kept_indices(ignored, n)[i]
                < n,
    decreases n,
{
    if n > 0 {
        lemma_plan_indices_in_range(ignored, n - 1);
        let shorter = kept_indices(ignored, n - 1);
        let longer = kept_indices(ignored, n);
        assert forall|i: int| 0 <= i < longer.len() implies 0 <= #[trigger] longer[i] < n by {
            if i < shorter.len() {
                assert(longer[i] == shorter[i]);
            } else {
                assert(longer[i] == n - 1);
            }
        }
    }
}

/// Runs a generated traversal plan over one value's fields: the planned
/// fields are visited in plan order, stopping at the first visitor failure.
/// Together with [`lemma_plan_matches_traversal`] this is the generated
/// code itself: running the plan produced for a type's markers reports
/// exactly what [`trace_fields`] reports.
#[verifier::loop_isolation(false)]
pub fn run_trace_plan(
    plan: &Vec<usize>,
    fields: &Vec<TracedField>,
    visitor: &mut TraceVisitor,
) -> (r: Result<(), ()>)
    requires
        forall|i: int| 0 <= i < plan@.len() ==> plan@[i] < fields@.len(),
        old(visitor).visited().len() + planned_addresses(
            fields@,
            plan@.map_values(|u: usize| u as int),
        ).len() <= usize::MAX,
    ensures
        final(visitor).fail_index() == old(visitor).fail_index(),
        final(visitor).visited() == visited_after(
            old(visitor).visited(),
            old(visitor).fail_index(),
            planned_addresses(fields@, plan@.map_values(|u: usize| u as int)),
        ),
        r is Ok <==> run_succeeds(
            old(visitor).visited(),
            old(visitor).fail_index(),
            planned_addresses(fields@, plan@.map_values(|u: usize| u as int)),
        ),
{
    let ghost pre = old(visitor).visited();
    let ghost fail_at = old(visitor).fail_index();
    let ghost whole_plan = plan@.map_values(|u: usize| u as int);
    let ghost all = planned_addresses(fields@, whole_plan);
    let n = plan.len();
    let mut k: usize = 0;
    while k < n
        invariant
            k <= n,
            visitor.fail_index() == fail_at,
            visitor.visited() == visited_after(
                pre,
                fail_at,
                planned_addresses(fields@, whole_plan.take(k as int)),
            ),
            run_succeeds(pre, fail_at, planned_addresses(fields@, whole_plan.take(k as int))),
        decreases n - k,
    {
        let ghost done = planned_addresses(fields@, whole_plan.take(k as int));
        let ghost here = fields@[plan@[k as int] as int].node.owned_addresses();
        proof {
            assert(whole_plan.take(k + 1 as int).drop_last() =~= whole_plan.take(k as int));
            assert(whole_plan.take(k + 1 as int).last() == plan@[k as int] as int);
            assert(planned_addresses(fields@, whole_plan.take(k + 1 as int)) == done + here);
            lemma_planned_prefix_len(fields@, whole_plan, k + 1 as int);
            lemma_visited_after_len(pre, fail_at, done);
        }
        let r = trace(&fields[plan[k]].node, visitor);
        proof {
            lemma_visit_run_concat(pre, fail_at, done, here);
        }
        match r {
            Ok(unit) => {
                let _ = unit;
            },
            Err(unit) => {
                proof {
                    let done1 = planned_addresses(fields@, whole_plan.take(k + 1 as int));
                    let rest = planned_rest(fields@, whole_plan, k + 1 as int);
                    lemma_planned_split(fields@, whole_plan, k + 1 as int);
                    lemma_visit_run_concat(pre, fail_at, done1, rest);
                    lemma_visited_after_len(pre, fail_at, done1);
                    assert(visited_after(pre, fail_at, all) =~= visitor.visited());
                }
                return Err(unit);
            },
        }
        k = k + 1;
    }
    proof {
        assert(whole_plan.take(n as int) =~= whole_plan);
    }
    Ok(())
}

/// The addresses of the planned fields from plan position `j` on.
spec fn planned_rest(fields: Seq<TracedField>, plan: Seq<int>, j: int) -> Seq<Address>
    decreases plan.len() - j,
{
    if j < 0 || j >= plan.len() {
        Seq::empty()
    } else {
        fields[plan[j]].node.owned_addresses() + planned_rest(fields, plan, j + 1)
    }
}

/// The planned addresses split at any plan position `j`.
proof fn lemma_planned_split(fields: Seq<TracedField>, plan: Seq<int>, j: int)
    requires
        0 <= j <= plan.len(),
    ensures
        planned_addresses(fields, plan) == planned_addresses(fields, plan.take(j)) + planned_rest(
            fields,
            plan,
            j,
        ),
    decreases plan.len() - j,
{
    if j == plan.len() {
        assert(plan.take(j) =~= plan);
        assert(planned_addresses(fields, plan) =~= planned_addresses(fields, plan.take(j))
            + planned_rest(fields, plan, j));
    } else {
        lemma_planned_split(fields, plan, j + 1);
        assert(plan.take(j + 1).drop_last() =~= plan.take(j));
        assert(plan.take(j + 1).last() == plan[j]);
        assert(planned_addresses(fields, plan.take(j + 1)) == planned_addresses(
            fields,
            plan.take(j),
        ) + fields[plan[j]].node.owned_addresses());
        assert(planned_addresses(fields, plan) =~= planned_addresses(fields, plan.take(j))
            + planned_rest(fields, plan, j));
    }
}

/// A plan prefix contributes at most what the whole plan contributes.
proof fn lemma_planned_prefix_len(fields: Seq<TracedField>, plan: Seq<int>, j: int)
    requires
        0 <= j <= plan.len(),
    ensures
        planned_addresses(fields, plan.take(j)).len() <= planned_addresses(fields, plan).len(),
{
    lemma_planned_split(fields, plan, j);
}

/// An ignored field is never looked at: replacing what an ignored field
/// owns changes nothing about the traversal of the remaining fields. The
/// caller is the one guaranteeing the ignored field owned no pointer that
/// needed visiting.
pub proof fn lemma_ignored_field_not_visited(
    fields: Seq<TracedField>,
    i: int,
    replacement: TraceNode,
)
    requires
        0 <= i < fields.len(),
        fields[i].ignored,
    ensures
        fields_addresses(fields, false) == fields_addresses(
            fields.update(i, TracedField { ignored: true, node: replacement }),
            false,
        ),
{
    let updated = fields.update(i, TracedField { ignored: true, node: replacement });
    lemma_fields_prefix_unchanged(fields, updated, fields.len() as int);
}

/// Two field sequences of equal length whose entries agree except possibly
/// on ignored fields contribute the same addresses.
proof fn lemma_fields_prefix_unchanged(a: Seq<TracedField>, b: Seq<TracedField>, n: int)
    requires
        a.len() == b.len(),
        n <= a.len(),
        forall|j: int|
            0 <= j < a.len() ==> (a[j].ignored == b[j].ignored && (!a[j].ignored ==> a[j].node
                == b[j].node)),
    ensures
        fields_addresses_prefix(a, n) == fields_addresses_prefix(b, n),
    decreases n,
{
    if n > 0 {
        lemma_fields_prefix_unchanged(a, b, n - 1);
    }
}

} // verus!
