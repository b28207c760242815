use koto_memory::Address;
use koto_memory::AddressVec;
use koto_memory::Heap;
use koto_memory::KCell;
use koto_memory::OptPtr;
use koto_memory::Profile;
use koto_memory::Ptr;
use koto_memory::TraceNode;
use koto_memory::TraceVisitor;
use koto_memory::TracedField;
use koto_memory::Untrace;
use koto_memory::generate_trace_plan;
use koto_memory::run_trace_plan;
use koto_memory::trace;
use koto_memory::trace_fields;

/// The fields of one `Node { parent, children, color }` value, in
/// declaration order, with the color field carrying the ignore marker.
fn node_fields(parent: &OptPtr<u64>, children: &AddressVec) -> Vec<TracedField> {
    vec![
        TracedField {
            ignored: false,
            node: parent.trace_node(),
        },
        TracedField {
            ignored: false,
            node: children.trace_node(),
        },
        TracedField {
            ignored: true,
            node: TraceNode::Empty,
        },
    ]
}

#[test]
fn node_traversal_visits_exactly_the_children() {
    let mut heap: Heap<u64> = Heap::new(Profile::SingleThreadGc);
    let child1 = heap.allocate(1);
    let child2 = heap.allocate(2);
    let parent: OptPtr<u64> = OptPtr::none();
    let children = AddressVec::from_vec(vec![Ptr::address(&child1), Ptr::address(&child2)]);
    let fields = node_fields(&parent, &children);

    let mut visitor = TraceVisitor::new();
    let outcome = trace_fields(&fields, false, &mut visitor);
    assert!(outcome.is_ok());
    assert_eq!(visitor.visited_count(), 2);
    assert_eq!(visitor.visited_address(0), Ptr::address(&child1));
    assert_eq!(visitor.visited_address(1), Ptr::address(&child2));
}

#[test]
fn node_traversal_stops_at_the_first_visitor_failure() {
    let mut heap: Heap<u64> = Heap::new(Profile::SingleThreadGc);
    let child1 = heap.allocate(1);
    let child2 = heap.allocate(2);
    let parent: OptPtr<u64> = OptPtr::none();
    let children = AddressVec::from_vec(vec![Ptr::address(&child1), Ptr::address(&child2)]);
    let fields = node_fields(&parent, &children);

    // The visitor fails while visiting the second child: the first child
    // gets through, and nothing after the failure is visited.
    let mut visitor = TraceVisitor::failing_at(1);
    let outcome = trace_fields(&fields, false, &mut visitor);
    assert!(outcome.is_err());
    assert_eq!(visitor.visited_count(), 1);
    assert_eq!(visitor.visited_address(0), Ptr::address(&child1));
}

#[test]
fn whole_type_ignore_visits_zero_fields() {
    let mut heap: Heap<u64> = Heap::new(Profile::SingleThreadGc);
    let child = heap.allocate(1);
    let parent = OptPtr::some(heap.clone_ptr(&child));
    let children = AddressVec::from_vec(vec![Ptr::address(&child)]);
    let fields = node_fields(&parent, &children);

    let mut visitor = TraceVisitor::new();
    let outcome = trace_fields(&fields, true, &mut visitor);
    assert!(outcome.is_ok());
    assert_eq!(visitor.visited_count(), 0);
}

#[test]
fn whole_type_ignore_generates_an_empty_plan() {
    let markers = vec![false, false, false, false];
    let plan = generate_trace_plan(&markers, true);
    assert!(plan.is_empty());
}

#[test]
fn plan_keeps_non_ignored_fields_in_declaration_order() {
    let markers = vec![false, true, false, true, false];
    let plan = generate_trace_plan(&markers, false);
    assert_eq!(plan, vec![0, 2, 4]);
}

#[test]
fn ignored_field_is_not_visited() {
    let mut heap: Heap<u64> = Heap::new(Profile::SingleThreadGc);
    let visible = heap.allocate(1);
    let hidden = heap.allocate(2);
    let fields = vec![
        TracedField {
            ignored: false,
            node: Ptr::trace_node(&visible),
        },
        TracedField {
            ignored: true,
            node: Ptr::trace_node(&hidden),
        },
    ];
    let mut visitor = TraceVisitor::new();
    let outcome = trace_fields(&fields, false, &mut visitor);
    assert!(outcome.is_ok());
    assert_eq!(visitor.visited_count(), 1);
    assert_eq!(visitor.visited_address(0), Ptr::address(&visible));
}

#[test]
fn running_the_generated_plan_matches_the_traversal() {
    let mut heap: Heap<u64> = Heap::new(Profile::SingleThreadGc);
    let child1 = heap.allocate(1);
    let child2 = heap.allocate(2);
    let parent: OptPtr<u64> = OptPtr::none();
    let children = AddressVec::from_vec(vec![Ptr::address(&child1), Ptr::address(&child2)]);
    let fields = node_fields(&parent, &children);

    let markers: Vec<bool> = fields.iter().map(|f| f.ignored).collect();
    let plan = generate_trace_plan(&markers, false);
    assert_eq!(plan, vec![0, 1]);

    let mut planned = TraceVisitor::new();
    assert!(run_trace_plan(&plan, &fields, &mut planned).is_ok());
    let mut direct = TraceVisitor::new();
    assert!(trace_fields(&fields, false, &mut direct).is_ok());

    assert_eq!(planned.visited_count(), direct.visited_count());
    assert_eq!(planned.visited_count(), 2);
    assert_eq!(planned.visited_address(0), direct.visited_address(0));
    assert_eq!(planned.visited_address(1), direct.visited_address(1));
}

#[test]
fn untrace_contributes_no_visit() {
    let wrapped = Untrace(17u64);
    assert_eq!(*wrapped.get(), 17);
    let mut visitor = TraceVisitor::new();
    let outcome = trace(&wrapped.trace_node(), &mut visitor);
    assert!(outcome.is_ok());
    assert_eq!(visitor.visited_count(), 0);
    assert_eq!(wrapped.into_inner(), 17);
}

#[test]
fn optional_pointer_contributes_one_visit_when_present() {
    let mut heap: Heap<u64> = Heap::new(Profile::SingleThreadGc);
    let p = heap.allocate(1);
    let present = OptPtr::some(heap.clone_ptr(&p));
    let mut visitor = TraceVisitor::new();
    assert!(trace(&present.trace_node(), &mut visitor).is_ok());
    assert_eq!(visitor.visited_count(), 1);
    assert_eq!(visitor.visited_address(0), Ptr::address(&p));

    let absent: OptPtr<u64> = OptPtr::none();
    let mut other = TraceVisitor::new();
    assert!(trace(&absent.trace_node(), &mut other).is_ok());
    assert_eq!(other.visited_count(), 0);
}

#[test]
fn traversal_fails_through_an_exclusively_borrowed_cell() {
    let mut heap: Heap<u64> = Heap::new(Profile::SingleThreadGc);
    let p = heap.allocate(1);
    let mut cell = KCell::new(5u64);

    let open = cell.trace_gate(Ptr::trace_node(&p));
    assert!(open.is_ok());
    let mut visitor = TraceVisitor::new();
    assert!(trace(&open.ok().unwrap(), &mut visitor).is_ok());
    assert_eq!(visitor.visited_count(), 1);

    let guard = cell.borrow_mut();
    let shut = cell.trace_gate(Ptr::trace_node(&p));
    assert!(shut.is_err());
    cell.release_mut(guard);
}

#[test]
fn nested_aggregates_are_visited_in_declaration_order() {
    let a = Address { value: 10 };
    let b = Address { value: 20 };
    let c = Address { value: 30 };
    let node = TraceNode::Sequence(vec![
        TraceNode::Empty,
        TraceNode::Sequence(vec![TraceNode::Pointer(a), TraceNode::Pointer(b)]),
        TraceNode::Pointer(c),
    ]);
    let mut visitor = TraceVisitor::new();
    assert!(trace(&node, &mut visitor).is_ok());
    assert_eq!(visitor.visited_count(), 3);
    assert_eq!(visitor.visited_address(0), a);
    assert_eq!(visitor.visited_address(1), b);
    assert_eq!(visitor.visited_address(2), c);
}

#[test]
fn failing_visitor_short_circuits_nested_aggregates() {
    let node = TraceNode::Sequence(vec![
        TraceNode::Pointer(Address { value: 1 }),
        TraceNode::Sequence(vec![
            TraceNode::Pointer(Address { value: 2 }),
            TraceNode::Pointer(Address { value: 3 }),
        ]),
    ]);
    let mut visitor = TraceVisitor::failing_at(1);
    assert!(trace(&node, &mut visitor).is_err());
    assert_eq!(visitor.visited_count(), 1);
    assert_eq!(visitor.visited_address(0), Address { value: 1 });
}

#[test]
fn traversal_of_no_fields_visits_nothing() {
    let fields: Vec<TracedField> = Vec::new();
    let mut visitor = TraceVisitor::new();
    assert!(trace_fields(&fields, false, &mut visitor).is_ok());
    assert_eq!(visitor.visited_count(), 0);
    let markers: Vec<bool> = Vec::new();
    assert!(generate_trace_plan(&markers, false).is_empty());
}

#[test]
fn failing_visitor_over_zero_visits_still_succeeds() {
    let mut visitor = TraceVisitor::failing_at(0);
    assert!(trace(&TraceNode::Empty, &mut visitor).is_ok());
    assert_eq!(visitor.visited_count(), 0);
}

#[test]
fn address_record_keeps_pushed_addresses_in_order() {
    let mut record = AddressVec::new();
    assert_eq!(record.len(), 0);
    record.push(Address { value: 7 });
    record.push(Address { value: 3 });
    assert_eq!(record.len(), 2);
    assert_eq!(record.get(0), Address { value: 7 });
    assert_eq!(record.get(1), Address { value: 3 });
}

#[test]
fn address_record_with_capacity_starts_empty() {
    let mut record = AddressVec::with_capacity(100);
    assert_eq!(record.len(), 0);
    record.push(Address { value: 1 });
    assert_eq!(record.len(), 1);
    assert_eq!(record.get(0), Address { value: 1 });
}

#[test]
fn address_record_from_vec_keeps_every_entry() {
    let record = AddressVec::from_vec(vec![
        Address { value: 5 },
        Address { value: 6 },
        Address { value: 7 },
    ]);
    assert_eq!(record.len(), 3);
    assert_eq!(record.get(0), Address { value: 5 });
    assert_eq!(record.get(1), Address { value: 6 });
    assert_eq!(record.get(2), Address { value: 7 });
}
