//! The shared cells of the standard library that slots are made of.
//!
//! Verus does not look inside a `RefCell`, a `Mutex` or a `RwLock`.  What such
//! a cell holds changes behind shared references, so nothing in a contract can
//! speak of it: to Verus a cell is the place it stands for, and two cells are
//! equal if they are the same place.  The declarations below make the types
//! known and give the few functions that the library calls the signatures that
//! std gives them.  None of them promises anything about the value behind a
//! guard.  Nothing here is proved: it is what the library takes from std on
//! trust.

use std::cell::{BorrowMutError, Ref, RefCell, RefMut};
use std::rc::Rc;
use std::sync::{Arc, Mutex, MutexGuard, PoisonError, RwLock, RwLockWriteGuard};
use vstd::prelude::*;

verus! {

/// `std::cell::RefCell`, opaque.
#[verifier::external_type_specification]
#[verifier::external_body]
#[verifier::reject_recursive_types(T)]
pub struct ExRefCell<T: ?Sized>(RefCell<T>);

/// `std::cell::Ref`, the shared guard of a `RefCell`, opaque.
#[verifier::external_type_specification]
#[verifier::external_body]
#[verifier::reject_recursive_types(T)]
pub struct ExRef<'b, T: ?Sized>(Ref<'b, T>);

/// `std::cell::RefMut`, the exclusive guard of a `RefCell`, opaque.
#[verifier::external_type_specification]
#[verifier::external_body]
#[verifier::reject_recursive_types(T)]
pub struct ExRefMut<'b, T: ?Sized + 'b>(RefMut<'b, T>);

/// `std::cell::BorrowMutError`: the cell was borrowed.  It carries nothing.
#[verifier::external_type_specification]
#[verifier::external_body]
pub struct ExBorrowMutError(BorrowMutError);

/// `std::sync::Mutex`, opaque.
#[verifier::external_type_specification]
#[verifier::external_body]
#[verifier::reject_recursive_types(T)]
pub struct ExMutex<T: ?Sized>(Mutex<T>);

/// `std::sync::MutexGuard`, the guard of a `Mutex`, opaque.
#[verifier::external_type_specification]
#[verifier::external_body]
#[verifier::reject_recursive_types(T)]
pub struct ExMutexGuard<'a, T: ?Sized + 'a>(MutexGuard<'a, T>);

/// `std::sync::PoisonError`: a holder of the lock panicked.  It carries the
/// guard.
#[verifier::external_type_specification]
#[verifier::external_body]
#[verifier::reject_recursive_types(T)]
pub struct ExPoisonError<T>(PoisonError<T>);

/// `std::sync::RwLock`, opaque.
#[verifier::external_type_specification]
#[verifier::external_body]
#[verifier::reject_recursive_types(T)]
pub struct ExRwLock<T: ?Sized>(RwLock<T>);

/// `std::sync::RwLockWriteGuard`, the exclusive guard of a `RwLock`, opaque.
#[verifier::external_type_specification]
#[verifier::external_body]
#[verifier::reject_recursive_types(T)]
pub struct ExRwLockWriteGuard<'a, T: ?Sized + 'a>(RwLockWriteGuard<'a, T>);

/// `RefCell::new`: a fresh cell around `value`.
pub assume_specification<T>[ RefCell::<T>::new ](value: T) -> (cell: RefCell<T>)
;

/// `RefCell::borrow`: a shared guard.  It panics while the cell is mutably
/// borrowed; whether it is does not show in the cell's value, so no `requires`
/// can leave that case out.
pub assume_specification<'a, T: ?Sized>[ RefCell::<T>::borrow ](cell: &'a RefCell<T>) -> (guard: Ref<
    'a,
    T,
>)
;

/// `RefCell::borrow_mut`: the exclusive guard.  It panics while the cell is
/// borrowed, which only a second access during a running one brings about;
/// whether it is does not show in the cell's value, so no `requires` can leave
/// that case out.
pub assume_specification<'a, T: ?Sized>[ RefCell::<T>::borrow_mut ](cell: &'a RefCell<T>) -> (guard:
    RefMut<'a, T>)
;

/// `RefCell::try_borrow_mut`: the exclusive guard, or an error while the cell is
/// borrowed.  It never panics.
#[verifier::external_body]
pub(crate) fn try_borrow_cell<'a, T>(cell: &'a RefCell<T>) -> (guard: Result<
    RefMut<'a, T>,
    BorrowMutError,
>)
    opens_invariants none
    no_unwind
{
    cell.try_borrow_mut()
}

/// `Mutex::new`: a fresh, unlocked mutex around `value`.
pub assume_specification<T>[ Mutex::<T>::new ](value: T) -> (mutex: Mutex<T>)
;

/// `Mutex::lock`: blocks until the lock is held, and hands out the guard, inside
/// an error if a holder panicked before.  std names one case in which the call
/// itself may panic or never return: the calling thread holds the lock already.
/// That case does not show in the mutex's value, so no `requires` can leave it
/// out; outside it the call does not unwind.
#[verifier::external_body]
pub(crate) fn lock_mutex<'a, T>(mutex: &'a Mutex<T>) -> (guard: Result<
    MutexGuard<'a, T>,
    PoisonError<MutexGuard<'a, T>>,
>)
    opens_invariants none
    no_unwind
{
    mutex.lock()
}

/// `RwLock::write`: blocks until the lock is held exclusively, and hands out the
/// guard, inside an error if a writer panicked before.  As with `Mutex::lock`,
/// std lets the call panic where the calling thread holds the lock already.
pub assume_specification<'a, T: ?Sized>[ RwLock::<T>::write ](lock: &'a RwLock<T>) -> (guard: Result<
    RwLockWriteGuard<'a, T>,
    PoisonError<RwLockWriteGuard<'a, T>>,
>)
;

/// `PoisonError::into_inner`: the guard that a poisoned lock still hands out.
#[verifier::external_body]
pub(crate) fn recover<T>(poisoned: PoisonError<T>) -> (guard: T)
    opens_invariants none
    no_unwind
{
    poisoned.into_inner()
}

/// `Rc::clone`: one more pointer to the same allocation.
#[verifier::external_body]
pub(crate) fn share_rc<T>(pointer: &Rc<T>) -> (shared: Rc<T>)
    ensures
        shared == *pointer,
{
    Rc::clone(pointer)
}

/// `Arc::clone`: one more pointer to the same allocation.
#[verifier::external_body]
pub(crate) fn share_arc<T>(pointer: &Arc<T>) -> (shared: Arc<T>)
    ensures
        shared == *pointer,
{
    Arc::clone(pointer)
}

/// `DerefMut::deref_mut` of `RefMut`: the place behind the guard.
#[verifier::external_body]
pub(crate) fn cell_place<'a, 'b, T>(guard: &'a mut RefMut<'b, T>) -> (place: &'a mut T)
    opens_invariants none
    no_unwind
{
    &mut **guard
}

/// `DerefMut::deref_mut` of `MutexGuard`: the place behind the guard.
#[verifier::external_body]
pub(crate) fn mutex_place<'a, 'b, T>(guard: &'a mut MutexGuard<'b, T>) -> (place: &'a mut T)
    opens_invariants none
    no_unwind
{
    &mut **guard
}

/// `DerefMut::deref_mut` of `RwLockWriteGuard`: the place behind the guard.
#[verifier::external_body]
pub(crate) fn lock_place<'a, 'b, T>(guard: &'a mut RwLockWriteGuard<'b, T>) -> (place: &'a mut T)
{
    &mut **guard
}

/// The guard that a lock has handed out: the guard itself where the lock was
/// taken cleanly, and the guard out of the error where an earlier holder
/// panicked.
pub(crate) fn guard_of<G>(taken: Result<G, PoisonError<G>>) -> (guard: G)
    ensures
        taken matches Ok(clean) ==> guard == clean,
    opens_invariants none
    no_unwind
{
    match taken {
        Ok(clean) => clean,
        Err(poisoned) => recover(poisoned),
    }
}

/// Locks `mutex`, whether or not an earlier holder panicked.
pub(crate) fn acquire<'a, T>(mutex: &'a Mutex<T>) -> (guard: MutexGuard<'a, T>)
    opens_invariants none
    no_unwind
{
    guard_of(lock_mutex(mutex))
}

/// Locks `lock` for writing, whether or not an earlier writer panicked.
pub(crate) fn acquire_write<'a, T>(lock: &'a RwLock<T>) -> (guard: RwLockWriteGuard<'a, T>) {
    guard_of(lock.write())
}

} // verus!
