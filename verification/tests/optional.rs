use koto_memory::Heap;
use koto_memory::OptPtr;
use koto_memory::Profile;
use koto_memory::Ptr;

#[test]
fn some_then_into_option_round_trips() {
    let mut heap: Heap<u64> = Heap::new(Profile::SingleThreadRefcount);
    let p = heap.allocate(4);
    let handle = heap.clone_ptr(&p);
    let opt = OptPtr::some(handle);
    assert!(opt.is_some());
    assert!(!opt.is_none());
    let q = opt.into_option().unwrap();
    assert!(Ptr::ptr_eq(&q, &p));
}

#[test]
fn none_into_option_yields_nothing() {
    let opt: OptPtr<u64> = OptPtr::none();
    assert!(opt.is_none());
    assert!(opt.into_option().is_none());
}

#[test]
fn as_ref_reads_the_contained_pointer() {
    let mut heap: Heap<u64> = Heap::new(Profile::SingleThreadRefcount);
    let p = heap.allocate(4);
    let opt = OptPtr::some(heap.clone_ptr(&p));
    assert!(Ptr::ptr_eq(opt.as_ref().unwrap(), &p));
    let empty: OptPtr<u64> = OptPtr::none();
    assert!(empty.as_ref().is_none());
}

#[test]
fn as_mut_replaces_the_contained_pointer() {
    let mut heap: Heap<u64> = Heap::new(Profile::SingleThreadRefcount);
    let first = heap.allocate(1);
    let second = heap.allocate(2);
    let mut opt = OptPtr::some(heap.clone_ptr(&first));
    {
        let slot = opt.as_mut().unwrap();
        assert!(Ptr::ptr_eq(slot, &first));
        *slot = heap.clone_ptr(&second);
    }
    assert!(Ptr::ptr_eq(opt.as_ref().unwrap(), &second));
    let mut empty: OptPtr<u64> = OptPtr::none();
    assert!(empty.as_mut().is_none());
}

#[test]
fn get_or_insert_with_fills_only_the_empty_state() {
    let mut heap: Heap<u64> = Heap::new(Profile::SingleThreadRefcount);
    let p = heap.allocate(8);
    let fresh = heap.clone_ptr(&p);
    let mut opt: OptPtr<u64> = OptPtr::none();
    {
        let slot = opt.get_or_insert_with(move || fresh);
        assert!(Ptr::ptr_eq(slot, &p));
    }
    assert!(opt.is_some());

    let q = heap.allocate(9);
    let unused = heap.clone_ptr(&q);
    let mut kept = OptPtr::some(heap.clone_ptr(&p));
    {
        let slot = kept.get_or_insert_with(move || unused);
        assert!(Ptr::ptr_eq(slot, &p));
    }
}

#[test]
fn get_or_insert_default_allocates_the_default_value() {
    let mut heap: Heap<u64> = Heap::new(Profile::SingleThreadRefcount);
    let mut opt: OptPtr<u64> = OptPtr::none();
    {
        let slot = opt.get_or_insert_default(&mut heap);
        let there = heap.get(slot);
        assert_eq!(*there, 0);
    }
    assert!(opt.is_some());
}
