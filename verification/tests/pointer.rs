use koto_memory::Address;
use koto_memory::Heap;
use koto_memory::Profile;
use koto_memory::Ptr;

#[test]
fn clone_is_ptr_eq_to_its_source() {
    let mut heap: Heap<u64> = Heap::new(Profile::SingleThreadRefcount);
    let p = heap.allocate(5);
    let c = heap.clone_ptr(&p);
    assert!(Ptr::ptr_eq(&c, &p));
    assert_eq!(Ptr::address(&c), Ptr::address(&p));
}

#[test]
fn independent_equal_valued_allocations_are_not_ptr_eq() {
    let mut heap: Heap<u64> = Heap::new(Profile::SingleThreadRefcount);
    let p = heap.allocate(7);
    let q = heap.allocate(7);
    assert!(!Ptr::ptr_eq(&p, &q));
    assert_ne!(Ptr::address(&p), Ptr::address(&q));
    assert_eq!(*heap.get(&p), 7);
    assert_eq!(*heap.get(&q), 7);
}

#[test]
fn ref_count_follows_owners() {
    let mut heap: Heap<u64> = Heap::new(Profile::MultiThreadRefcount);
    let p = heap.allocate(1);
    assert_eq!(Ptr::ref_count(&p, &heap), 1);
    let c = heap.clone_ptr(&p);
    assert_eq!(Ptr::ref_count(&p, &heap), 2);
    heap.drop_ptr(c);
    assert_eq!(Ptr::ref_count(&p, &heap), 1);
}

#[test]
fn make_mut_on_unique_owner_mutates_in_place() {
    let mut heap: Heap<u64> = Heap::new(Profile::SingleThreadRefcount);
    let mut p = heap.allocate(10);
    let before = Ptr::address(&p);
    {
        let v = Ptr::make_mut(&mut p, &mut heap);
        assert_eq!(*v, 10);
        *v = 11;
    }
    assert_eq!(Ptr::address(&p), before);
    assert_eq!(*heap.get(&p), 11);
}

#[test]
fn make_mut_on_shared_owner_clones_and_moves() {
    let mut heap: Heap<u64> = Heap::new(Profile::SingleThreadRefcount);
    let mut p = heap.allocate(10);
    let other = heap.clone_ptr(&p);
    let other_address = Ptr::address(&other);
    {
        let v = Ptr::make_mut(&mut p, &mut heap);
        assert_eq!(*v, 10);
        *v = 99;
    }
    assert!(!Ptr::ptr_eq(&p, &other));
    assert_ne!(Ptr::address(&p), other_address);
    assert_eq!(Ptr::address(&other), other_address);
    assert_eq!(*heap.get(&other), 10);
    assert_eq!(*heap.get(&p), 99);
    assert_eq!(Ptr::ref_count(&other, &heap), 1);
    assert_eq!(Ptr::ref_count(&p, &heap), 1);
}

#[test]
fn from_inner_wraps_the_given_address() {
    let p: Ptr<u64> = Ptr::from_inner(Address { value: 3 });
    assert_eq!(Ptr::address(&p), Address { value: 3 });
}

#[test]
fn heap_remembers_its_profile() {
    let heap: Heap<u64> = Heap::new(Profile::SingleThreadGc);
    assert_eq!(heap.profile(), Profile::SingleThreadGc);
}
