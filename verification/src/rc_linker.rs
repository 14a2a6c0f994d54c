//! Revocable shared ownership for one thread: the owner of a slot.

pub mod rc_linked;

use std::cell::{Ref, RefCell, RefMut};
use std::ops::Deref;
use std::rc::Rc;
use vstd::prelude::*;
use crate::cells::{cell_place, share_rc, try_borrow_cell};
use crate::rc_linker::rc_linked::RcLinked;
use crate::slot::{clear, fill};

verus! {

/// Owns a slot that holds a value until the linker is dropped.  The handles it
/// gives out with [`linked`](RcLinker::linked) reach the same slot and find it
/// empty from then on.
///
/// The slot is a `RefCell`: one access at a time.  An access from within a
/// running access to the same slot panics.
#[verifier::reject_recursive_types(R)]
pub struct RcLinker<R> {
    receiver: Rc<RefCell<Option<R>>>,
    made: Ghost<Option<R>>,
}

impl<R> RcLinker<R> {
    /// The cell that is the slot.  Two values hold the same slot exactly if
    /// their cells are equal.
    pub closed spec fn slot(&self) -> RefCell<Option<R>> {
        *self.receiver
    }

    /// What the slot held when it was made.  What it holds now does not show
    /// in a linker: the value in the slot changes with every event, and the
    /// slot is emptied when an owner is dropped.
    pub closed spec fn made_holding(&self) -> Option<R> {
        self.made@
    }

    /// A linker whose slot holds `receiver`.
    pub fn new(receiver: R) -> (linker: Self)
        ensures
            linker.made_holding() == Some(receiver),
    {
        let ghost made = Some(receiver);
        RcLinker { receiver: Rc::new(RefCell::new(fill(receiver))), made: Ghost(made) }
    }

    pub fn get_receiver(&self) -> (cell: &RefCell<Option<R>>)
        ensures
            *cell == self.slot(),
    {
        &*self.receiver
    }

    /// A shared guard on the slot.
    pub fn borrow(&self) -> Ref<'_, Option<R>> {
        self.receiver.borrow()
    }

    /// The exclusive guard on the slot.
    pub fn borrow_mut(&self) -> RefMut<'_, Option<R>> {
        self.receiver.borrow_mut()
    }

    /// One more handle to this linker's slot.
    pub fn linked(&self) -> (handle: RcLinked<R>)
        ensures
            handle.slot() == self.slot(),
    {
        RcLinked::on(share_rc(&self.receiver))
    }
}

impl<R> Clone for RcLinker<R> {
    /// A second owner of the same slot: the slot is emptied when either is
    /// dropped.
    fn clone(&self) -> (owner: Self)
        ensures
            owner.slot() == self.slot(),
            owner.made_holding() == self.made_holding(),
    {
        RcLinker { receiver: share_rc(&self.receiver), made: self.made }
    }
}

impl<R> Deref for RcLinker<R> {
    type Target = RefCell<Option<R>>;

    fn deref(&self) -> (cell: &RefCell<Option<R>>)
        ensures
            *cell == self.slot(),
    {
        &*self.receiver
    }
}

impl<R> Drop for RcLinker<R> {
    /// Empties the slot.  A slot that is borrowed at this moment is left as it
    /// is: no access may be running while its linker goes away.
    fn drop(&mut self)
        opens_invariants none
        no_unwind
    {
        match try_borrow_cell(&*self.receiver) {
            Ok(mut guard) => clear(cell_place(&mut guard)),
            Err(_) => {},
        }
    }
}

impl<R: Default> Default for RcLinker<R> {
    fn default() -> (linker: Self)
        ensures
            linker.made_holding() is Some,
            R::default.ensures((), linker.made_holding()->0),
    {
        RcLinker::new(R::default())
    }
}

} // verus!
