use koto_memory::Borrow;
use koto_memory::BorrowMut;
use koto_memory::Heap;
use koto_memory::KCell;
use koto_memory::Profile;
use koto_memory::Ptr;

#[test]
fn second_exclusive_try_borrow_is_refused() {
    let mut cell = KCell::new(3u64);
    let first = cell.try_borrow_mut().unwrap();
    assert!(cell.try_borrow_mut().is_none());
    cell.release_mut(first);
    assert!(cell.try_borrow_mut().is_some());
}

#[test]
fn shared_try_borrow_is_refused_while_exclusive_is_out() {
    let mut cell = KCell::new(3u64);
    let guard = cell.try_borrow_mut().unwrap();
    assert!(cell.try_borrow().is_none());
    cell.release_mut(guard);
    assert!(cell.try_borrow().is_some());
}

#[test]
fn shared_borrows_coexist_and_block_exclusive() {
    let mut cell = KCell::new(3u64);
    let a = cell.try_borrow().unwrap();
    let b = cell.try_borrow().unwrap();
    assert_eq!(*cell.get(), 3);
    assert!(cell.try_borrow_mut().is_none());
    cell.release(a);
    assert!(cell.try_borrow_mut().is_none());
    cell.release(b);
    assert!(cell.try_borrow_mut().is_some());
}

#[test]
fn exclusive_borrow_writes_back_on_release() {
    let mut cell = KCell::new(3u64);
    let mut guard = cell.borrow_mut();
    assert_eq!(*guard.get(), 3);
    guard.set(44);
    *guard.get_mut() += 1;
    cell.release_mut(guard);
    assert_eq!(*cell.get(), 45);
}

#[test]
fn mutation_through_one_handle_is_seen_through_all() {
    let mut heap: Heap<KCell<u64>> = Heap::new(Profile::SingleThreadRefcount);
    let writer = heap.allocate_mut(5);
    let reader = heap.clone_ptr(&writer);
    assert!(Ptr::ptr_eq(&reader, &writer));
    {
        let cell = heap.cell_mut(&writer);
        let mut guard = cell.borrow_mut();
        guard.set(7);
        cell.release_mut(guard);
    }
    assert_eq!(*heap.get(&reader).get(), 7);
    assert_eq!(*heap.get(&writer).get(), 7);
}

#[test]
fn allocated_boxed_value_is_readable() {
    let mut heap: Heap<u64> = Heap::new(Profile::MultiThreadGc);
    let p = heap.allocate_boxed(Box::new(21));
    assert_eq!(*heap.get(&p), 21);
    let q = heap.allocate_boxed(Box::new(21));
    assert!(!Ptr::ptr_eq(&p, &q));
}

#[test]
fn failed_mut_projection_returns_a_usable_guard() {
    let mut cell: KCell<Option<u64>> = KCell::new(None);
    let guard = cell.borrow_mut();
    let projected = BorrowMut::filter_map(guard, |v: Option<u64>| match v {
        Some(x) => Ok(x),
        None => Err(v),
    });
    let original = match projected {
        Ok(_) => panic!("projection of an empty option must fail"),
        Err(original) => original,
    };
    assert_eq!(*original.get(), None);
    cell.release_mut(original);
    assert_eq!(*cell.get(), None);
    assert!(cell.try_borrow_mut().is_some());
}

#[test]
fn successful_mut_projection_narrows_and_rebuilds() {
    let mut cell: KCell<Option<u64>> = KCell::new(Some(6));
    let guard = cell.borrow_mut();
    let mut narrow = BorrowMut::filter_map(guard, |v: Option<u64>| match v {
        Some(x) => Ok(x),
        None => Err(v),
    })
    .ok()
    .unwrap();
    assert_eq!(*narrow.get(), 6);
    narrow.set(60);
    cell.release_mut_with(narrow, |x: u64| Some(x));
    assert_eq!(*cell.get(), Some(60));
}

#[test]
fn failed_shared_projection_returns_the_original_guard() {
    let mut cell: KCell<(u64, Option<u64>)> = KCell::new((9, None));
    let guard = cell.borrow();
    let projected = Borrow::filter_map(guard, &cell, |t: &(u64, Option<u64>)| t.1);
    let original = match projected {
        Ok(_) => panic!("projection of an empty component must fail"),
        Err(original) => original,
    };
    assert_eq!(cell.get().0, 9);
    cell.release(original);
    assert!(cell.try_borrow_mut().is_some());
}

#[test]
fn successful_shared_projection_reads_the_component() {
    let mut cell: KCell<(u64, Option<u64>)> = KCell::new((9, Some(12)));
    let guard = cell.borrow();
    let narrow = Borrow::filter_map(guard, &cell, |t: &(u64, Option<u64>)| t.1)
        .ok()
        .unwrap();
    assert_eq!(*narrow.projected(), 12);
    cell.release(narrow);
    assert_eq!(*cell.get(), (9, Some(12)));
    assert!(cell.try_borrow_mut().is_some());
}
