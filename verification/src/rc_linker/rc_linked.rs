//! Revocable shared ownership for one thread: the handles to a slot.

use std::cell::RefCell;
use std::rc::Rc;
use vstd::prelude::*;
use crate::cells::{cell_place, share_rc};
use crate::receive::{Receive, ReceiverResult};
use crate::slot::{deliver, delivered_to_a_slot, show, shown_to_a_slot};
use crate::view::{DeleteView, View};

verus! {

/// A handle to the slot of an [`RcLinker`](crate::rc_linker::RcLinker).  It
/// passes every call on to the value in the slot, and reports that the value
/// is gone once the linker has been dropped.
#[verifier::reject_recursive_types(R)]
pub struct RcLinked<R> {
    link: Rc<RefCell<Option<R>>>,
}

impl<R> RcLinked<R> {
    /// The cell that is the slot.
    pub closed spec fn slot(&self) -> RefCell<Option<R>> {
        *self.link
    }

    /// A handle to the slot behind `link`.
    pub(crate) fn on(link: Rc<RefCell<Option<R>>>) -> (handle: Self)
        ensures
            handle.slot() == *link,
    {
        RcLinked { link }
    }

    pub fn get_receiver(&self) -> (cell: &RefCell<Option<R>>)
        ensures
            *cell == self.slot(),
    {
        &*self.link
    }
}

impl<R> Clone for RcLinked<R> {
    /// Another handle to the same slot, not a copy of the value in it.
    fn clone(&self) -> (handle: Self)
        ensures
            handle == *self,
    {
        RcLinked { link: share_rc(&self.link) }
    }
}

impl<E, R: Receive<E>> Receive<E> for RcLinked<R> {
    type Output = R::Output;

    /// The handle stays what it is, and the event was delivered to its slot.
    open spec fn delivers(
        &self,
        event: E,
        after: &Self,
        result: ReceiverResult<E, R::Output>,
    ) -> bool {
        after == self && delivered_to_a_slot::<E, R>(event, result)
    }

    fn send(&mut self, event: E) -> (result: ReceiverResult<E, R::Output>) {
        let mut guard = self.link.borrow_mut();
        deliver(cell_place(&mut guard), event)
    }
}

impl<E, R: View<E>> View<E> for RcLinked<R> {
    /// The handle stays what it is, and the event was shown to its slot.
    open spec fn shows(&self, event: &E, after: &Self, verdict: Option<DeleteView>) -> bool {
        after == self && shown_to_a_slot::<E, R>(event, verdict)
    }

    fn view(&mut self, event: &E) -> (verdict: Option<DeleteView>) {
        let mut guard = self.link.borrow_mut();
        show(cell_place(&mut guard), event)
    }
}

} // verus!
