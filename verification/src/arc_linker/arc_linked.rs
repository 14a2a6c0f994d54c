//! Revocable shared ownership across threads: the handles to a slot.

use std::sync::{Arc, Mutex};
use vstd::prelude::*;
use crate::cells::{acquire, mutex_place, share_arc};
use crate::receive::{Receive, ReceiverResult};
use crate::slot::{deliver, delivered_to_a_slot, show, shown_to_a_slot};
use crate::view::{DeleteView, View};

verus! {

/// A handle to the slot of an [`ArcLinker`](crate::arc_linker::ArcLinker).  It
/// passes every call on to the value in the slot, and reports that the value
/// is gone once the linker has been dropped.
#[verifier::reject_recursive_types(R)]
pub struct ArcLinked<R> {
    link: Arc<Mutex<Option<R>>>,
}

impl<R> ArcLinked<R> {
    /// The mutex that is the slot.
    pub closed spec fn slot(&self) -> Mutex<Option<R>> {
        *self.link
    }

    /// A handle to the slot behind `link`.
    pub(crate) fn on(link: Arc<Mutex<Option<R>>>) -> (handle: Self)
        ensures
            handle.slot() == *link,
    {
        ArcLinked { link }
    }

    pub fn get_receiver(&self) -> (mutex: &Mutex<Option<R>>)
        ensures
            *mutex == self.slot(),
    {
        &*self.link
    }
}

impl<R> Clone for ArcLinked<R> {
    /// Another handle to the same slot, not a copy of the value in it.
    fn clone(&self) -> (handle: Self)
        ensures
            handle == *self,
    {
        ArcLinked { link: share_arc(&self.link) }
    }
}

impl<E, R: Receive<E>> Receive<E> for ArcLinked<R> {
    type Output = R::Output;

    /// The handle stays what it is, and the event was delivered to its slot.
    open spec fn delivers(
        &self,
        event: E,
        after: &Self,
        result: ReceiverResult<E, R::Output>,
    ) -> bool {
        after == self && delivered_to_a_slot::<E, R>(event, result)
    }

    fn send(&mut self, event: E) -> (result: ReceiverResult<E, R::Output>) {
        let mut guard = acquire(&*self.link);
        deliver(mutex_place(&mut guard), event)
    }
}

impl<E, R: View<E>> View<E> for ArcLinked<R> {
    /// The handle stays what it is, and the event was shown to its slot.
    open spec fn shows(&self, event: &E, after: &Self, verdict: Option<DeleteView>) -> bool {
        after == self && shown_to_a_slot::<E, R>(event, verdict)
    }

    fn view(&mut self, event: &E) -> (verdict: Option<DeleteView>) {
        let mut guard = acquire(&*self.link);
        show(mutex_place(&mut guard), event)
    }
}

} // verus!
