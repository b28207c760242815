//! The interior-mutable cell and its borrow guards.
//!
//! A [`KCell`] grants any number of concurrent read accesses or exactly one
//! exclusive write access, checked at runtime. The single-thread profiles
//! fail fast on a conflict, the multi-thread profiles block the calling
//! thread; the conflicting call therefore never returns normally under
//! either policy, which this model states by excluding the conflict from the
//! non-try entry points. The try variants never fail fatally nor block: they
//! return the empty result on conflict, identically in every profile.
//!
//! Because a verified cell cannot mutate its bookkeeping behind a shared
//! reference, acquisition and release take the cell as `&mut` and guards are
//! explicit values handed back on release rather than scope-ended tokens. A
//! guard must be released into the cell that issued it.

use vstd::prelude::*;

use crate::ptr::Heap;
use crate::ptr::Ptr;

verus! {

/// A mutable pointer to a value in allocated memory: a shared handle to an
/// interior-mutable cell.
pub type PtrMut<T> = Ptr<KCell<T>>;

impl<T> Heap<KCell<T>> {
    /// Allocates a fresh mutable pointer: a free cell holding `value` behind
    /// a new shared handle.
    pub fn allocate_mut(&mut self, value: T) -> (r: PtrMut<T>)
        requires
            old(self)@.len() < usize::MAX,
        ensures
            r.addr() == old(self)@.len(),
            final(self)@.live(r.addr() as int),
            r.is_addressable(),
            final(self)@ == old(self)@.allocate(final(self)@.value_at(r.addr() as int)),
            ({
                let cell = final(self)@.value_at(r.addr() as int);
                &&& cell.wf()
                &&& !cell.is_writing()
                &&& cell.reader_count() == 0
                &&& cell.stored() == value
            }),
    {
        self.allocate(KCell::new(value))
    }

    /// The cell behind a mutable pointer, ready for borrowing. A backend's
    /// cell grants this through any shared handle by interior mutability;
    /// here the heap owns the allocation, so it is the heap that hands the
    /// access out, and the cell's borrow discipline still gates every actual
    /// read and write.
    pub fn cell_mut<'a>(&'a mut self, p: &PtrMut<T>) -> (r: &'a mut KCell<T>)
        requires
            old(self)@.live(p.addr() as int),
        ensures
            *r == old(self)@.value_at(p.addr() as int),
            final(self)@ == old(self)@.write(p.addr() as int, *final(r)),
    {
        self.value_mut(p)
    }
}

/// A mutable value with borrowing checked at runtime.
///
/// The cell is free when no borrow is outstanding, reading while only shared
/// borrows are outstanding, and writing while the one exclusive borrow is
/// outstanding. While writing, the value itself lives in the issued
/// [`BorrowMut`] guard and returns on release.
pub struct KCell<T> {
    /// The stored value; absent exactly while an exclusive borrow is out.
    value: Option<T>,
    /// The number of outstanding shared borrows.
    readers: usize,
}

impl<T> KCell<T> {
    /// An exclusive borrow is outstanding.
    pub closed spec fn is_writing(&self) -> bool {
        self.value is None
    }

    /// The number of outstanding shared borrows.
    pub closed spec fn reader_count(&self) -> nat {
        self.readers as nat
    }

    /// The stored value, absent while an exclusive borrow is outstanding.
    pub closed spec fn contents(&self) -> Option<T> {
        self.value
    }

    /// The stored value; meaningful only while no exclusive borrow is out.
    pub open spec fn stored(&self) -> T
        recommends
            !self.is_writing(),
    {
        self.contents().unwrap()
    }

    /// The borrow bookkeeping is consistent: an exclusive borrow excludes
    /// shared ones.
    pub open spec fn wf(&self) -> bool {
        self.is_writing() ==> self.reader_count() == 0
    }

    /// Wraps `value` into a free cell.
    pub fn new(value: T) -> (r: KCell<T>)
        ensures
            r.wf(),
            !r.is_writing(),
            r.reader_count() == 0,
            r.stored() == value,
    {
        KCell { value: Some(value), readers: 0 }
    }

    /// Immutably borrows the wrapped value.
    ///
    /// Multiple immutable borrows can be made at the same time. A call while
    /// an exclusive borrow is outstanding does not return: the single-thread
    /// profiles abort, the multi-thread profiles block the thread; that
    /// conflict is therefore excluded here and [`Self::try_borrow`] is the
    /// entry point that reports it.
    pub fn borrow(&mut self) -> (g: Borrow<T>)
        requires
            old(self).wf(),
            !old(self).is_writing(),
            old(self).reader_count() < usize::MAX,
        ensures
            final(self).wf(),
            !final(self).is_writing(),
            final(self).contents() == old(self).contents(),
            final(self).reader_count() == old(self).reader_count() + 1,
            g.wf(),
            !g.is_projected(),
            g@ == old(self).stored(),
    {
        self.readers = self.readers + 1;
        Borrow { part: None, snapshot: Ghost(self.stored()) }
    }

    /// Attempts to immutably borrow the wrapped value, returning the empty
    /// result if an exclusive borrow is outstanding. Never aborts or blocks,
    /// in any profile.
    pub fn try_borrow(&mut self) -> (r: Option<Borrow<T>>)
        requires
            old(self).wf(),
            old(self).reader_count() < usize::MAX,
        ensures
            final(self).wf(),
            r is Some <==> !old(self).is_writing(),
            old(self).is_writing() ==> *final(self) == *old(self),
            r matches Some(g) ==> {
                &&& !final(self).is_writing()
                &&& final(self).contents() == old(self).contents()
                &&& final(self).reader_count() == old(self).reader_count() + 1
                &&& g.wf()
                &&& !g.is_projected()
                &&& g@ == old(self).stored()
            },
    {
        if self.value.is_some() {
            Some(self.borrow())
        } else {
            None
        }
    }

    /// Mutably borrows the wrapped value; the guard owns the value until it
    /// is released.
    ///
    /// A call while any borrow is outstanding does not return: the
    /// single-thread profiles abort, the multi-thread profiles block the
    /// thread; that conflict is therefore excluded here and
    /// [`Self::try_borrow_mut`] is the entry point that reports it.
    pub fn borrow_mut(&mut self) -> (g: BorrowMut<T>)
        requires
            old(self).wf(),
            !old(self).is_writing(),
            old(self).reader_count() == 0,
        ensures
            final(self).wf(),
            final(self).is_writing(),
            final(self).reader_count() == 0,
            g@ == old(self).stored(),
    {
        let value = self.value.take();
        BorrowMut { value: option_unwrap(value) }
    }

    /// Attempts to mutably borrow the wrapped value, returning the empty
    /// result if any borrow is outstanding. Never aborts or blocks, in any
    /// profile.
    pub fn try_borrow_mut(&mut self) -> (r: Option<BorrowMut<T>>)
        requires
            old(self).wf(),
        ensures
            final(self).wf(),
            r is Some <==> (!old(self).is_writing() && old(self).reader_count() == 0),
            r is None ==> *final(self) == *old(self),
            r matches Some(g) ==> {
                &&& final(self).is_writing()
                &&& final(self).reader_count() == 0
                &&& g@ == old(self).stored()
            },
    {
        if self.value.is_some() && self.readers == 0 {
            Some(self.borrow_mut())
        } else {
            None
        }
    }

    /// Ends the shared borrow `guard`, which must have been issued by this
    /// cell — directly, or narrowed from such a guard by any number of
    /// projections.
    pub fn release<U>(&mut self, guard: Borrow<U>)
        requires
            old(self).wf(),
            !old(self).is_writing(),
            old(self).reader_count() > 0,
        ensures
            final(self).wf(),
            !final(self).is_writing(),
            final(self).contents() == old(self).contents(),
            final(self).reader_count() == old(self).reader_count() - 1,
    {
        let _ = guard;
        self.readers = self.readers - 1;
    }

    /// Ends the exclusive borrow `guard`, which must have been issued by
    /// this cell, storing its value back.
    pub fn release_mut(&mut self, guard: BorrowMut<T>)
        requires
            old(self).wf(),
            old(self).is_writing(),
        ensures
            final(self).wf(),
            !final(self).is_writing(),
            final(self).reader_count() == 0,
            final(self).stored() == guard@,
    {
        self.value = Some(guard.value);
    }

    /// Ends the exclusive borrow through a guard that was narrowed with
    /// [`BorrowMut::filter_map`]: `rebuild` turns the narrowed component
    /// back into the full-width value to store.
    pub fn release_mut_with<U, F: FnOnce(U) -> T>(&mut self, guard: BorrowMut<U>, rebuild: F)
        requires
            old(self).wf(),
            old(self).is_writing(),
            call_requires(rebuild, (guard@,)),
        ensures
            final(self).wf(),
            !final(self).is_writing(),
            final(self).reader_count() == 0,
            final(self).contents() is Some,
            call_ensures(rebuild, (guard@,), final(self).stored()),
    {
        self.value = Some(rebuild(guard.value));
    }

    /// True while an exclusive borrow is outstanding.
    pub fn exclusively_borrowed(&self) -> (r: bool)
        ensures
            r == self.is_writing(),
    {
        self.value.is_none()
    }

    /// Reads the wrapped value; any number of readers may do so as long as
    /// no exclusive borrow is outstanding.
    pub fn get<'a>(&'a self) -> (r: &'a T)
        requires
            !self.is_writing(),
        ensures
            *r == self.stored(),
    {
        self.value.as_ref().unwrap()
    }
}

/// Moves the value out of an option known to hold one.
fn option_unwrap<T>(option: Option<T>) -> (r: T)
    requires
        option is Some,
    ensures
        option == Some(r),
{
    match option {
        Some(value) => value,
        None => unreached(),
    }
}

/// An immutably borrowed reference to a value borrowed from a [`PtrMut`].
///
/// A fresh guard is a token: the data stays in the cell and is read with
/// [`KCell::get`]. A guard narrowed with [`Borrow::filter_map`] carries the
/// extracted component by value, read with [`Borrow::projected`]. The view
/// is the observed value either way.
pub struct Borrow<T> {
    /// The narrowed component, for guards produced by a projection.
    part: Option<T>,
    /// The value observed when the guard was issued.
    snapshot: Ghost<T>,
}

impl<T> View for Borrow<T> {
    type V = T;

    closed spec fn view(&self) -> T {
        self.snapshot@
    }
}

impl<T> Borrow<T> {
    /// The guard was produced by a projection and carries the component.
    pub closed spec fn is_projected(&self) -> bool {
        self.part is Some
    }

    /// What the guard carries agrees with what it observed.
    pub closed spec fn wf(&self) -> bool {
        self.part matches Some(u) ==> u == self.snapshot@
    }

    /// Reads the narrowed component carried by a projected guard.
    pub fn projected<'a>(&'a self) -> (r: &'a T)
        requires
            self.wf(),
            self.is_projected(),
        ensures
            *r == self@,
    {
        self.part.as_ref().unwrap()
    }

    /// Makes a new `Borrow` for an optional component of the borrowed data,
    /// extracted by value since shared access never writes back. If the
    /// lookup returns the empty result, the original guard is returned as
    /// the error, unconsumed: the cell's reader count is untouched either
    /// way, so the failed projection leaves the guard as usable as before.
    pub fn filter_map<U, F: FnOnce(&T) -> Option<U>>(
        borrowed: Self,
        cell: &KCell<T>,
        f: F,
    ) -> (r: Result<Borrow<U>, Self>)
        requires
            !cell.is_writing(),
            call_requires(f, (&cell.stored(),)),
        ensures
            match r {
                Ok(g) => {
                    &&& g.wf()
                    &&& g.is_projected()
                    &&& call_ensures(f, (&cell.stored(),), Some(g@))
                },
                Err(g) => {
                    &&& g == borrowed
                    &&& call_ensures(f, (&cell.stored(),), None::<U>)
                },
            },
    {
        match f(cell.get()) {
            Some(part) => Ok(Borrow { snapshot: Ghost(part), part: Some(part) }),
            None => Err(borrowed),
        }
    }
}

/// A mutably borrowed reference to a value borrowed from a [`PtrMut`].
///
/// The guard owns the value for the duration of the exclusive borrow; the
/// cell stores it back on [`KCell::release_mut`]. The view is the owned
/// value.
pub struct BorrowMut<T> {
    value: T,
}

impl<T> View for BorrowMut<T> {
    type V = T;

    closed spec fn view(&self) -> T {
        self.value
    }
}

impl<T> BorrowMut<T> {
    /// Reads the borrowed value.
    pub fn get<'a>(&'a self) -> (r: &'a T)
        ensures
            *r == self@,
    {
        &self.value
    }

    /// Replaces the borrowed value.
    pub fn set(&mut self, value: T)
        ensures
            final(self)@ == value,
    {
        self.value = value;
    }

    /// Mutates the borrowed value in place.
    pub fn get_mut<'a>(&'a mut self) -> (r: &'a mut T)
        ensures
            *r == old(self)@,
            final(self)@ == *final(r),
    {
        &mut self.value
    }

    /// Makes a new `BorrowMut` for an optional component of the borrowed
    /// data: the lookup either keeps the extracted component or hands the
    /// full-width value back. On the empty result the original borrow is
    /// returned as the error, still owning whatever the lookup handed back,
    /// so it remains usable for full-width access and release.
    pub fn filter_map<U, F: FnOnce(T) -> Result<U, T>>(borrowed: Self, f: F) -> (r: Result<
        BorrowMut<U>,
        Self,
    >)
        requires
            call_requires(f, (borrowed@,)),
        ensures
            match r {
                Ok(g) => call_ensures(f, (borrowed@,), Ok(g@)),
                Err(g) => call_ensures(f, (borrowed@,), Err(g@)),
            },
    {
        match f(borrowed.value) {
            Ok(part) => Ok(BorrowMut { value: part }),
            Err(whole) => Err(BorrowMut { value: whole }),
        }
    }
}

} // verus!
